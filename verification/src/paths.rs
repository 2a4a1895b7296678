//! File names and locations: where signatures are staged, how a signature is
//! named after its payload, and which files of the trust directory are keys.

use vstd::prelude::*;
use crate::text::{chars_of, texts};

verus! {

/// Where the configuration lies.
pub const CONFIG_DIR: &'static str = "/etc/ampkg";

/// Where what can be fetched again is kept.
pub const CACHE_DIR: &'static str = "/var/cache/ampkg";

/// Where logs are written.
pub const LOG_DIR: &'static str = "/var/log/ampkg";

/// Where the trusted public keys lie.
pub const PUBLIC_KEYS_DIR: &'static str = "/usr/share/ampkg/keys";

/// Where verified archives are unpacked.
pub const PKGINSTALL_DIR: &'static str = "/tmp/ampkg/pkginstall";

/// Where fetched signature files are staged.
pub const SIGNATURE_DIR: &'static str = "/tmp/minisign_files";

/// The directories that the components work in.
#[derive(Debug, Clone, PartialEq, Eq)]
pub struct Config {
    pub config_dir: String,
    pub cache_dir: String,
    pub log_dir: String,
    /// Where the trusted public keys lie.
    pub public_keys_dir: String,
    /// Where verified archives are unpacked.
    pub pkginstall_dir: String,
    /// Where fetched signature files are staged.
    pub signature_dir: String,
}

impl Default for Config {
    /// The directories of an installed system.
    fn default() -> (config: Config)
        ensures
            config.config_dir@ == CONFIG_DIR@,
            config.cache_dir@ == CACHE_DIR@,
            config.log_dir@ == LOG_DIR@,
            config.public_keys_dir@ == PUBLIC_KEYS_DIR@,
            config.pkginstall_dir@ == PKGINSTALL_DIR@,
            config.signature_dir@ == SIGNATURE_DIR@,
    {
        Config {
            config_dir: CONFIG_DIR.to_owned(),
            cache_dir: CACHE_DIR.to_owned(),
            log_dir: LOG_DIR.to_owned(),
            public_keys_dir: PUBLIC_KEYS_DIR.to_owned(),
            pkginstall_dir: PKGINSTALL_DIR.to_owned(),
            signature_dir: SIGNATURE_DIR.to_owned(),
        }
    }
}

/// Index just past the last `/` of `s`, or 0 where `s` has none.
pub open spec fn name_start(s: Seq<char>) -> int
    decreases s.len(),
{
    if s.len() == 0 {
        0
    } else if s.last() == '/' {
        s.len() as int
    } else {
        name_start(s.drop_last())
    }
}

/// The last segment of a `/`-separated path or URL.
pub open spec fn file_name(s: Seq<char>) -> Seq<char> {
    s.skip(name_start(s))
}

/// `file_name(s)` is the longest suffix of `s` that holds no `/`.
pub proof fn lemma_file_name(s: Seq<char>)
    ensures
        0 <= name_start(s) <= s.len(),
        forall|i: int| 0 <= i < file_name(s).len() ==> file_name(s)[i] != '/',
        name_start(s) > 0 ==> s[name_start(s) - 1] == '/',
        s == s.take(name_start(s)) + file_name(s),
    decreases s.len(),
{
    if s.len() > 0 && s.last() != '/' {
        let t = s.drop_last();
        lemma_file_name(t);
        assert(name_start(s) == name_start(t));
        assert forall|i: int| 0 <= i < file_name(s).len() implies file_name(s)[i] != '/' by {
            if i < file_name(t).len() {
                assert(file_name(s)[i] == file_name(t)[i]);
            }
        }
    }
    assert(s =~= s.take(name_start(s)) + file_name(s));
}

/// The name under which the signature of the payload at `url` is staged.
pub open spec fn signature_name(url: Seq<char>) -> Seq<char> {
    file_name(url) + ".minisig"@
}

/// `dir` extended by `name`; an absolute `name` stands alone.
pub open spec fn joined(dir: Seq<char>, name: Seq<char>) -> Seq<char> {
    if name.len() > 0 && name[0] == '/' {
        name
    } else if dir.len() == 0 {
        name
    } else if dir.last() == '/' {
        dir + name
    } else {
        dir + seq!['/'] + name
    }
}

/// Where a transfer writes before its destination is replaced.
pub open spec fn partial_name(destination: Seq<char>) -> Seq<char> {
    destination + ".part"@
}

/// Whether the last segment of `path` has a stem and the extension `pub`.
pub open spec fn is_key_name(path: Seq<char>) -> bool {
    let name = file_name(path);
    name.len() > 4 && name.skip(name.len() - 4) == seq!['.', 'p', 'u', 'b']
}

/// An entry of the trust directory, as the caller found it.
pub struct KeyCandidate {
    pub path: String,
    pub is_file: bool,
}

/// The paths among `candidates` that are key files, in their order.
pub open spec fn selected_keys(candidates: Seq<KeyCandidate>) -> Seq<Seq<char>>
    decreases candidates.len(),
{
    if candidates.len() == 0 {
        seq![]
    } else {
        let rest = selected_keys(candidates.drop_last());
        let c = candidates.last();
        if c.is_file && is_key_name(c.path@) {
            rest.push(c.path@)
        } else {
            rest
        }
    }
}

fn start_of_name(chars: &Vec<char>) -> (start: usize)
    ensures
        start == name_start(chars@),
        start <= chars@.len(),
{
    let n = chars.len();
    let mut start: usize = 0;
    let mut i: usize = 0;
    while i < n
        invariant
            n == chars@.len(),
            i <= n,
            start <= i,
            start == name_start(chars@.take(i as int)),
        decreases n - i,
    {
        proof {
            assert(chars@.take(i + 1).drop_last() =~= chars@.take(i as int));
        }
        if chars[i] == '/' {
            start = i + 1;
        }
        i += 1;
    }
    proof {
        assert(chars@.take(n as int) =~= chars@);
    }
    start
}

/// The last segment of `url`: what a transfer is labelled with.
pub fn url_file_name(url: &str) -> (name: String)
    ensures
        name@ == file_name(url@),
{
    let chars = chars_of(url);
    let start = start_of_name(&chars);
    let tail = url.substring_char(start, chars.len());
    proof {
        assert(url@.subrange(start as int, chars@.len() as int) =~= url@.skip(start as int));
    }
    tail.to_owned()
}

/// The file name of the detached signature that belongs to the payload at `url`.
pub fn signature_file_name(url: &str) -> (name: String)
    ensures
        name@ == signature_name(url@),
{
    url_file_name(url).concat(".minisig")
}

/// `name` placed under `dir`.
pub fn join_path(dir: &str, name: &str) -> (path: String)
    ensures
        path@ == joined(dir@, name@),
{
    let d = chars_of(dir);
    let m = chars_of(name);
    if m.len() > 0 && m[0] == '/' {
        name.to_owned()
    } else if d.len() == 0 {
        name.to_owned()
    } else if d[d.len() - 1] == '/' {
        dir.to_owned().concat(name)
    } else {
        proof {
            reveal_strlit("/");
            assert("/"@ =~= seq!['/']);
        }
        dir.to_owned().concat("/").concat(name)
    }
}

/// Where the signature of the payload at `url` is looked for.
pub fn signature_path(signature_dir: &str, url: &str) -> (path: String)
    ensures
        path@ == joined(signature_dir@, signature_name(url@)),
{
    let name = signature_file_name(url);
    join_path(signature_dir, name.as_str())
}

/// Where a signature fetched from `signature_url` is staged.
pub fn staged_path(signature_dir: &str, signature_url: &str) -> (path: String)
    ensures
        path@ == joined(signature_dir@, file_name(signature_url@)),
{
    let name = url_file_name(signature_url);
    join_path(signature_dir, name.as_str())
}

/// The path a transfer to `destination` writes to until it is complete.
pub fn partial_path(destination: &str) -> (path: String)
    ensures
        path@ == partial_name(destination@),
{
    destination.to_owned().concat(".part")
}

/// Whether `path` names a public key: a last segment `<stem>.pub`.
pub fn is_public_key_name(path: &str) -> (yes: bool)
    ensures
        yes == is_key_name(path@),
{
    let chars = chars_of(path);
    let start = start_of_name(&chars);
    let n = chars.len();
    proof {
        let name = file_name(path@);
        if name.len() > 4 {
            assert(name.skip(name.len() - 4) =~= seq![
                path@[n - 4],
                path@[n - 3],
                path@[n - 2],
                path@[n - 1],
            ]);
            let tail = name.skip(name.len() - 4);
            assert(tail == seq!['.', 'p', 'u', 'b'] <==> (tail[0] == '.' && tail[1] == 'p'
                && tail[2] == 'u' && tail[3] == 'b')) by {
                if tail[0] == '.' && tail[1] == 'p' && tail[2] == 'u' && tail[3] == 'b' {
                    assert(tail =~= seq!['.', 'p', 'u', 'b']);
                }
            }
        }
    }
    n - start > 4 && chars[n - 4] == '.' && chars[n - 3] == 'p' && chars[n - 2] == 'u' && chars[n
        - 1] == 'b'
}

/// The trusted public keys among the entries of the trust directory: the
/// regular files named `<stem>.pub`, in the order given.
pub fn get_public_keys(candidates: &Vec<KeyCandidate>) -> (keys: Vec<String>)
    ensures
        texts(keys@) == selected_keys(candidates@),
{
    let mut keys: Vec<String> = Vec::new();
    let n = candidates.len();
    let mut i: usize = 0;
    while i < n
        invariant
            n == candidates@.len(),
            i <= n,
            texts(keys@) == selected_keys(candidates@.take(i as int)),
        decreases n - i,
    {
        proof {
            assert(candidates@.take(i + 1).drop_last() =~= candidates@.take(i as int));
        }
        let c = &candidates[i];
        if c.is_file && is_public_key_name(c.path.as_str()) {
            let ghost before = keys@;
            keys.push(c.path.clone());
            proof {
                assert(texts(keys@) =~= texts(before).push(c.path@));
            }
        }
        i += 1;
    }
    proof {
        assert(candidates@.take(n as int) =~= candidates@);
    }
    keys
}

} // verus!
