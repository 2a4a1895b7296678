//! Archive extraction: which entries may be written under the destination.

use vstd::prelude::*;
use crate::paths::{file_name, name_start};
use crate::text::{chars_of, texts};

verus! {

/// Why an archive was not unpacked.
#[derive(Clone, Copy, PartialEq, Eq, Debug, Structural)]
pub enum UnpackError {
    /// The archive could not be read.
    Unreadable,
    /// The compressed stream or the archive in it is damaged.
    Corrupt,
    /// Entry `entry` would be written outside the destination.
    UnsafePath { entry: usize },
    /// Entry `entry` could not be written.
    WriteFailed { entry: usize },
}

/// The `/`-separated segments of `path`.
pub open spec fn segments(path: Seq<char>) -> Seq<Seq<char>>
    decreases path.len(),
{
    let start = name_start(path);
    if 0 < start <= path.len() {
        segments(path.take(start - 1)).push(file_name(path))
    } else {
        seq![path]
    }
}

/// How far below the destination one `segment` leads from `depth`; `None`
/// where it leads above the destination.
pub open spec fn descend(depth: nat, segment: Seq<char>) -> Option<nat> {
    if segment == seq!['.', '.'] {
        if depth == 0 {
            None
        } else {
            Some((depth - 1) as nat)
        }
    } else if segment.len() == 0 || segment == seq!['.'] {
        Some(depth)
    } else {
        Some(depth + 1)
    }
}

/// How far below the destination `segments` lead, walked in order; `None`
/// where they lead above the destination at any point.
pub open spec fn depth_after(segments: Seq<Seq<char>>) -> Option<nat>
    decreases segments.len(),
{
    if segments.len() == 0 {
        Some(0)
    } else {
        match depth_after(segments.drop_last()) {
            None => None,
            Some(depth) => descend(depth, segments.last()),
        }
    }
}

/// Whether an entry named `path` is written under the destination: `path` is
/// relative and at no point leads above where it started.
pub open spec fn stays_inside(path: Seq<char>) -> bool {
    !(path.len() > 0 && path[0] == '/') && depth_after(segments(path)) is Some
}

/// Whether a segment names an entry of a directory.
pub open spec fn is_named(segment: Seq<char>) -> bool {
    segment.len() > 0 && segment != seq!['.'] && segment != seq!['.', '.']
}

/// The names among `segments` less the `..` among them.
pub open spec fn balance(segments: Seq<Seq<char>>) -> int
    decreases segments.len(),
{
    if segments.len() == 0 {
        0
    } else {
        balance(segments.drop_last()) + if is_named(segments.last()) {
            1int
        } else if segments.last() == seq!['.', '.'] {
            -1int
        } else {
            0int
        }
    }
}

/// Segments lead above where they started nowhere exactly when no beginning
/// of them holds more `..` than names; the depth they reach is then the
/// names less the `..`.
pub proof fn lemma_depth_is_balance(segments: Seq<Seq<char>>)
    ensures
        depth_after(segments) is Some <==> forall|k: int|
            0 <= k <= segments.len() ==> balance(#[trigger] segments.take(k)) >= 0,
        depth_after(segments) matches Some(d) ==> d == balance(segments),
    decreases segments.len(),
{
    let n = segments.len() as int;
    assert(segments.take(n) =~= segments);
    if n == 0 {
        assert forall|k: int| 0 <= k <= n implies balance(#[trigger] segments.take(k)) >= 0 by {
            assert(segments.take(k) =~= segments);
        }
    } else {
        let init = segments.drop_last();
        lemma_depth_is_balance(init);
        assert(init.take(n - 1) =~= init);
        assert forall|k: int| 0 <= k <= n - 1 implies #[trigger] segments.take(k) == init.take(
            k,
        ) by {
            assert(segments.take(k) =~= init.take(k));
        }
        if depth_after(init) is Some {
            if depth_after(segments) is Some {
                assert forall|k: int| 0 <= k <= n implies balance(#[trigger] segments.take(k))
                    >= 0 by {
                    if k < n {
                        assert(balance(init.take(k)) >= 0);
                    }
                }
            } else {
                assert(balance(segments.take(n)) < 0);
            }
        } else {
            let k = choose|k: int| 0 <= k <= init.len() && !(balance(#[trigger] init.take(k)) >= 0);
            assert(segments.take(k) == init.take(k));
            assert(balance(segments.take(k)) < 0);
        }
    }
}

/// `found` is the first of `paths` that does not stay inside the destination.
pub open spec fn first_unsafe(paths: Seq<Seq<char>>, found: Option<usize>) -> bool {
    match found {
        Some(i) => i < paths.len() && !stays_inside(paths[i as int]) && forall|k: int|
            0 <= k < i ==> stays_inside(paths[k]),
        None => forall|k: int| 0 <= k < paths.len() ==> stays_inside(paths[k]),
    }
}

/// The depth reached after the complete segments of `path`, its last segment apart.
pub open spec fn walked(path: Seq<char>) -> Option<nat> {
    depth_after(segments(path).drop_last())
}

/// One more segment walked from a depth that may already be lost.
pub open spec fn stepped(depth: Option<nat>, segment: Seq<char>) -> Option<nat> {
    match depth {
        None => None,
        Some(d) => descend(d, segment),
    }
}

/// A depth as contracts count it.
pub open spec fn as_depth(depth: Option<usize>) -> Option<nat> {
    match depth {
        None => None,
        Some(d) => Some(d as nat),
    }
}

proof fn lemma_segments_last(s: Seq<char>)
    ensures
        segments(s).len() > 0,
        segments(s).last() == file_name(s),
        depth_after(segments(s)) == stepped(walked(s), file_name(s)),
        file_name(s) == s.subrange(name_start(s), s.len() as int),
        0 <= name_start(s) <= s.len(),
{
    crate::paths::lemma_file_name(s);
    assert(file_name(s) =~= s.subrange(name_start(s), s.len() as int));
}

proof fn lemma_walk_step(s: Seq<char>, c: char)
    ensures
        c == '/' ==> walked(s.push(c)) == stepped(walked(s), file_name(s)) && name_start(
            s.push(c),
        ) == s.len() + 1,
        c != '/' ==> walked(s.push(c)) == walked(s) && name_start(s.push(c)) == name_start(s),
{
    crate::paths::lemma_file_name(s);
    lemma_segments_last(s);
    let t = s.push(c);
    assert(t.drop_last() =~= s);
    if c == '/' {
        assert(name_start(t) == t.len());
        assert(t.take(t.len() - 1) =~= s);
        assert(segments(t) == segments(s).push(file_name(t)));
        assert(segments(t).drop_last() =~= segments(s));
    } else {
        let start = name_start(s);
        assert(name_start(t) == start);
        if start > 0 {
            assert(t.take(start - 1) =~= s.take(start - 1));
            assert(segments(t).drop_last() =~= segments(s.take(start - 1)));
            assert(segments(s).drop_last() =~= segments(s.take(start - 1)));
        } else {
            assert(segments(t).drop_last() =~= Seq::<Seq<char>>::empty());
            assert(segments(s).drop_last() =~= Seq::<Seq<char>>::empty());
        }
    }
}

fn step_down(depth: Option<usize>, chars: &Vec<char>, from: usize, to: usize) -> (next: Option<
    usize,
>)
    requires
        from <= to <= chars@.len(),
        depth matches Some(d) ==> d <= from,
    ensures
        next matches Some(d) ==> d <= to + 1,
        as_depth(next) == stepped(as_depth(depth), chars@.subrange(from as int, to as int)),
{
    let ghost segment = chars@.subrange(from as int, to as int);
    match depth {
        None => None,
        Some(d) => {
            let len = to - from;
            if len == 2 && chars[from] == '.' && chars[from + 1] == '.' {
                proof {
                    assert(segment =~= seq!['.', '.']);
                }
                if d == 0 {
                    None
                } else {
                    Some(d - 1)
                }
            } else if len == 0 {
                Some(d)
            } else if len == 1 && chars[from] == '.' {
                proof {
                    assert(segment =~= seq!['.']);
                }
                Some(d)
            } else {
                proof {
                    if segment == seq!['.', '.'] {
                        assert(segment.len() == 2);
                        assert(segment[0] == '.' && segment[1] == '.');
                    }
                    if segment == seq!['.'] {
                        assert(segment.len() == 1);
                        assert(segment[0] == '.');
                    }
                }
                Some(d + 1)
            }
        },
    }
}

/// Whether an archive entry named `path` may be written: whether it stays
/// inside the destination directory.
pub fn is_inside(path: &str) -> (inside: bool)
    ensures
        inside == stays_inside(path@),
{
    let chars = chars_of(path);
    let n = chars.len();
    if n > 0 && chars[0] == '/' {
        return false;
    }
    let mut depth: Option<usize> = Some(0);
    let mut from: usize = 0;
    let mut i: usize = 0;
    proof {
        assert(chars@.take(0) =~= Seq::<char>::empty());
        assert(segments(chars@.take(0)).drop_last() =~= Seq::<Seq<char>>::empty());
    }
    while i < n
        invariant
            n == chars@.len(),
            i <= n,
            from <= i,
            from == name_start(chars@.take(i as int)),
            depth matches Some(d) ==> d <= from,
            as_depth(depth) == walked(chars@.take(i as int)),
        decreases n - i,
    {
        proof {
            let s = chars@.take(i as int);
            assert(chars@.take(i + 1) =~= s.push(chars@[i as int]));
            lemma_walk_step(s, chars@[i as int]);
            lemma_segments_last(s);
            assert(s.subrange(from as int, i as int) =~= chars@.subrange(from as int, i as int));
        }
        if chars[i] == '/' {
            depth = step_down(depth, &chars, from, i);
            from = i + 1;
        }
        i += 1;
    }
    proof {
        assert(chars@.take(n as int) =~= chars@);
        lemma_segments_last(chars@);
    }
    let last = step_down(depth, &chars, from, n);
    last.is_some()
}

/// Checks the entry names of an archive before anything is written: every
/// entry must stay inside the destination, and the first that does not is
/// named in the error.
pub fn check_entries(paths: &Vec<String>) -> (result: Result<(), UnpackError>)
    ensures
        match result {
            Ok(_) => first_unsafe(texts(paths@), None),
            Err(UnpackError::UnsafePath { entry }) => first_unsafe(texts(paths@), Some(entry)),
            Err(_) => false,
        },
{
    let n = paths.len();
    let mut i: usize = 0;
    while i < n
        invariant
            n == paths@.len(),
            i <= n,
            forall|k: int| 0 <= k < i ==> stays_inside(#[trigger] texts(paths@)[k]),
        decreases n - i,
    {
        if !is_inside(paths[i].as_str()) {
            return Err(UnpackError::UnsafePath { entry: i });
        }
        i += 1;
    }
    Ok(())
}

} // verus!
