//! The control file of a package: its identity and what it depends on.

use vstd::prelude::*;
use crate::text::texts;

verus! {

/// The content of a control file.
#[derive(Debug, Clone, PartialEq, Eq)]
pub struct Control {
    pub package: Package,
    pub dependencies: Dependencies,
}

/// The identity of a package.
#[derive(Debug, Clone, PartialEq, Eq)]
pub struct Package {
    pub name: String,
    pub version: String,
    pub libc: String,
    pub architecture: String,
    pub description: String,
}

/// The packages that a package needs.
#[derive(Debug, Clone, PartialEq, Eq)]
pub struct Dependencies {
    pub runtime: Vec<String>,
}

/// A place in a control file.
#[derive(Clone, Copy, PartialEq, Eq, Debug, Structural)]
pub enum Key {
    Package,
    Name,
    Version,
    Libc,
    Architecture,
    Description,
    Dependencies,
    Runtime,
}

/// Why a text is no control file.
#[derive(Clone, Copy, PartialEq, Eq, Debug, Structural)]
pub enum ControlError {
    /// The text is not TOML.
    Syntax,
    /// The document lacks this table or key.
    Missing(Key),
    /// What stands at this place is not of the kind that belongs there.
    Mistyped(Key),
}

/// A TOML document, as far as a control file uses the format: texts, lists
/// and tables, and a mark for any other value.
#[derive(Debug, PartialEq, Eq)]
pub enum Node {
    Text(String),
    List(Vec<Node>),
    Table(Vec<(String, Node)>),
    Other,
}

/// A control file, as contracts see it.
pub struct ControlView {
    pub name: Seq<char>,
    pub version: Seq<char>,
    pub libc: Seq<char>,
    pub architecture: Seq<char>,
    pub description: Seq<char>,
    pub runtime: Seq<Seq<char>>,
}

impl View for Control {
    type V = ControlView;

    open spec fn view(&self) -> ControlView {
        ControlView {
            name: self.package.name@,
            version: self.package.version@,
            libc: self.package.libc@,
            architecture: self.package.architecture@,
            description: self.package.description@,
            runtime: texts(self.dependencies.runtime@),
        }
    }
}

/// What the first entry named `key` holds.
pub open spec fn lookup(entries: Seq<(String, Node)>, key: Seq<char>) -> Option<Node>
    decreases entries.len(),
{
    if entries.len() == 0 {
        None
    } else if entries[0].0@ == key {
        Some(entries[0].1)
    } else {
        lookup(entries.drop_first(), key)
    }
}

/// The table that `node` holds under `key`.
pub open spec fn table_at(node: Node, key: Seq<char>, place: Key) -> Result<Node, ControlError> {
    match node {
        Node::Table(entries) => match lookup(entries@, key) {
            None => Err(ControlError::Missing(place)),
            Some(Node::Table(inner)) => Ok(Node::Table(inner)),
            Some(_) => Err(ControlError::Mistyped(place)),
        },
        _ => Err(ControlError::Missing(place)),
    }
}

/// The text that the table `node` holds under `key`.
pub open spec fn text_at(node: Node, key: Seq<char>, place: Key) -> Result<
    Seq<char>,
    ControlError,
> {
    match node {
        Node::Table(entries) => match lookup(entries@, key) {
            None => Err(ControlError::Missing(place)),
            Some(Node::Text(text)) => Ok(text@),
            Some(_) => Err(ControlError::Mistyped(place)),
        },
        _ => Err(ControlError::Missing(place)),
    }
}

/// The texts of `items`, where each of them is a text.
pub open spec fn all_texts(items: Seq<Node>) -> Option<Seq<Seq<char>>>
    decreases items.len(),
{
    if items.len() == 0 {
        Some(seq![])
    } else {
        match (all_texts(items.drop_last()), items.last()) {
            (Some(texts), Node::Text(text)) => Some(texts.push(text@)),
            _ => None,
        }
    }
}

/// The list of texts that the table `node` holds under `key`.
pub open spec fn texts_at(node: Node, key: Seq<char>, place: Key) -> Result<
    Seq<Seq<char>>,
    ControlError,
> {
    match node {
        Node::Table(entries) => match lookup(entries@, key) {
            None => Err(ControlError::Missing(place)),
            Some(Node::List(items)) => match all_texts(items@) {
                Some(texts) => Ok(texts),
                None => Err(ControlError::Mistyped(place)),
            },
            Some(_) => Err(ControlError::Mistyped(place)),
        },
        _ => Err(ControlError::Missing(place)),
    }
}

/// The control file that a document is: the table `package` with the texts
/// `name`, `version`, `libc`, `architecture` and `description`, and the table
/// `dependencies` with the list of texts `runtime`. What else the document
/// holds is passed over. The first place that is missing or mistyped, in
/// the order just given, is the error.
pub open spec fn control_of(document: Node) -> Result<ControlView, ControlError> {
    match table_at(document, "package"@, Key::Package) {
        Err(e) => Err(e),
        Ok(package) => match text_at(package, "name"@, Key::Name) {
            Err(e) => Err(e),
            Ok(name) => match text_at(package, "version"@, Key::Version) {
                Err(e) => Err(e),
                Ok(version) => match text_at(package, "libc"@, Key::Libc) {
                    Err(e) => Err(e),
                    Ok(libc) => match text_at(package, "architecture"@, Key::Architecture) {
                        Err(e) => Err(e),
                        Ok(architecture) => match text_at(
                            package,
                            "description"@,
                            Key::Description,
                        ) {
                            Err(e) => Err(e),
                            Ok(description) => match table_at(
                                document,
                                "dependencies"@,
                                Key::Dependencies,
                            ) {
                                Err(e) => Err(e),
                                Ok(dependencies) => match texts_at(
                                    dependencies,
                                    "runtime"@,
                                    Key::Runtime,
                                ) {
                                    Err(e) => Err(e),
                                    Ok(runtime) => Ok(
                                        ControlView {
                                            name,
                                            version,
                                            libc,
                                            architecture,
                                            description,
                                            runtime,
                                        },
                                    ),
                                },
                            },
                        },
                    },
                },
            },
        },
    }
}

/// A value of the `toml` crate.
#[verifier::external_type_specification]
#[verifier::external_body]
pub struct ExTomlValue(toml::Value);

/// The value that `toml::from_str` reads from a document; `None` where the
/// text is not TOML.
pub uninterp spec fn parsed(text: Seq<char>) -> Option<toml::Value>;

/// What a value of the `toml` crate holds.
pub uninterp spec fn node_of(value: toml::Value) -> Node;

/// Calls `toml::from_str` for a `toml::Value`. The value is a function of the text.
#[verifier::external_body]
fn parse_value(text: &str) -> (value: Option<toml::Value>)
    ensures
        value == parsed(text@),
{
    match toml::from_str::<toml::Value>(text) {
        Ok(value) => Some(value),
        Err(_) => None,
    }
}

/// Takes a `toml::Value` apart: a string, an array and a table hand their
/// content over, each other value becomes `Node::Other`.
#[verifier::external_body]
fn node_from(value: toml::Value) -> (node: Node)
    ensures
        node == node_of(value),
{
    match value {
        toml::Value::String(text) => Node::Text(text),
        toml::Value::Array(items) => Node::List(items.into_iter().map(node_from).collect()),
        toml::Value::Table(table) => Node::Table(
            table.into_iter().map(|(key, value)| (key, node_from(value))).collect(),
        ),
        toml::Value::Integer(_) => Node::Other,
        toml::Value::Float(_) => Node::Other,
        toml::Value::Boolean(_) => Node::Other,
        toml::Value::Datetime(_) => Node::Other,
    }
}

fn find<'a>(entries: &'a Vec<(String, Node)>, key: &str) -> (found: Option<&'a Node>)
    ensures
        match found {
            Some(node) => lookup(entries@, key@) == Some(*node),
            None => lookup(entries@, key@) is None,
        },
{
    let wanted = key.to_owned();
    let n = entries.len();
    let mut i: usize = 0;
    proof {
        assert(entries@.skip(0) =~= entries@);
    }
    while i < n
        invariant
            n == entries@.len(),
            i <= n,
            wanted@ == key@,
            lookup(entries@, key@) == lookup(entries@.skip(i as int), key@),
        decreases n - i,
    {
        proof {
            assert(entries@.skip(i as int).drop_first() =~= entries@.skip(i + 1));
            assert(entries@.skip(i as int)[0] == entries@[i as int]);
        }
        if entries[i].0 == wanted {
            return Some(&entries[i].1);
        }
        i += 1;
    }
    None
}

fn table_in<'a>(node: &'a Node, key: &str, place: Key) -> (r: Result<&'a Node, ControlError>)
    ensures
        match r {
            Ok(inner) => table_at(*node, key@, place) == Ok::<Node, ControlError>(*inner),
            Err(e) => table_at(*node, key@, place) == Err::<Node, ControlError>(e),
        },
{
    match node {
        Node::Table(entries) => match find(entries, key) {
            None => Err(ControlError::Missing(place)),
            Some(inner) => match inner {
                Node::Table(_) => Ok(inner),
                _ => Err(ControlError::Mistyped(place)),
            },
        },
        _ => Err(ControlError::Missing(place)),
    }
}

fn text_in(node: &Node, key: &str, place: Key) -> (r: Result<String, ControlError>)
    ensures
        match r {
            Ok(text) => text_at(*node, key@, place) == Ok::<Seq<char>, ControlError>(text@),
            Err(e) => text_at(*node, key@, place) == Err::<Seq<char>, ControlError>(e),
        },
{
    match node {
        Node::Table(entries) => match find(entries, key) {
            None => Err(ControlError::Missing(place)),
            Some(inner) => match inner {
                Node::Text(text) => Ok(text.clone()),
                _ => Err(ControlError::Mistyped(place)),
            },
        },
        _ => Err(ControlError::Missing(place)),
    }
}

fn texts_of(items: &Vec<Node>) -> (r: Option<Vec<String>>)
    ensures
        match r {
            Some(list) => all_texts(items@) == Some(texts(list@)),
            None => all_texts(items@) is None,
        },
{
    let mut list: Vec<String> = Vec::new();
    let n = items.len();
    let mut i: usize = 0;
    while i < n
        invariant
            n == items@.len(),
            i <= n,
            all_texts(items@.take(i as int)) == Some(texts(list@)),
        decreases n - i,
    {
        proof {
            assert(items@.take(i + 1).drop_last() =~= items@.take(i as int));
        }
        match &items[i] {
            Node::Text(text) => {
                let ghost before = list@;
                list.push(text.clone());
                proof {
                    assert(texts(list@) =~= texts(before).push(text@));
                }
            },
            _ => {
                proof {
                    lemma_all_texts_prefix(items@, i + 1);
                }
                return None;
            },
        }
        i += 1;
    }
    proof {
        assert(items@.take(n as int) =~= items@);
    }
    Some(list)
}

/// A list with an item that is no text among its first `k` is no list of texts.
proof fn lemma_all_texts_prefix(items: Seq<Node>, k: int)
    requires
        0 <= k <= items.len(),
        all_texts(items.take(k)) is None,
    ensures
        all_texts(items) is None,
    decreases items.len() - k,
{
    if k < items.len() {
        assert(items.take(k + 1).drop_last() =~= items.take(k));
        lemma_all_texts_prefix(items, k + 1);
    } else {
        assert(items.take(k) =~= items);
    }
}

fn texts_in(node: &Node, key: &str, place: Key) -> (r: Result<Vec<String>, ControlError>)
    ensures
        match r {
            Ok(list) => texts_at(*node, key@, place) == Ok::<Seq<Seq<char>>, ControlError>(
                texts(list@),
            ),
            Err(e) => texts_at(*node, key@, place) == Err::<Seq<Seq<char>>, ControlError>(e),
        },
{
    match node {
        Node::Table(entries) => match find(entries, key) {
            None => Err(ControlError::Missing(place)),
            Some(inner) => match inner {
                Node::List(items) => match texts_of(items) {
                    Some(list) => Ok(list),
                    None => Err(ControlError::Mistyped(place)),
                },
                _ => Err(ControlError::Mistyped(place)),
            },
        },
        _ => Err(ControlError::Missing(place)),
    }
}

/// Reads a control file from a document.
pub fn control_from(document: &Node) -> (r: Result<Control, ControlError>)
    ensures
        match r {
            Ok(control) => control_of(*document) == Ok::<ControlView, ControlError>(control@),
            Err(e) => control_of(*document) == Err::<ControlView, ControlError>(e),
        },
{
    let package = match table_in(document, "package", Key::Package) {
        Ok(t) => t,
        Err(e) => {
            return Err(e);
        },
    };
    let name = match text_in(package, "name", Key::Name) {
        Ok(t) => t,
        Err(e) => {
            return Err(e);
        },
    };
    let version = match text_in(package, "version", Key::Version) {
        Ok(t) => t,
        Err(e) => {
            return Err(e);
        },
    };
    let libc = match text_in(package, "libc", Key::Libc) {
        Ok(t) => t,
        Err(e) => {
            return Err(e);
        },
    };
    let architecture = match text_in(package, "architecture", Key::Architecture) {
        Ok(t) => t,
        Err(e) => {
            return Err(e);
        },
    };
    let description = match text_in(package, "description", Key::Description) {
        Ok(t) => t,
        Err(e) => {
            return Err(e);
        },
    };
    let dependencies = match table_in(document, "dependencies", Key::Dependencies) {
        Ok(t) => t,
        Err(e) => {
            return Err(e);
        },
    };
    let runtime = match texts_in(dependencies, "runtime", Key::Runtime) {
        Ok(t) => t,
        Err(e) => {
            return Err(e);
        },
    };
    Ok(
        Control {
            package: Package { name, version, libc, architecture, description },
            dependencies: Dependencies { runtime },
        },
    )
}

/// What reading the text of a control file gives.
pub open spec fn control_in(text: Seq<char>) -> Result<ControlView, ControlError> {
    match parsed(text) {
        None => Err(ControlError::Syntax),
        Some(value) => control_of(node_of(value)),
    }
}

/// Reads the control file of a package from its text.
pub fn get_control(text: &str) -> (r: Result<Control, ControlError>)
    ensures
        match r {
            Ok(control) => control_in(text@) == Ok::<ControlView, ControlError>(control@),
            Err(e) => control_in(text@) == Err::<ControlView, ControlError>(e),
        },
{
    match parse_value(text) {
        None => Err(ControlError::Syntax),
        Some(value) => {
            let document = node_from(value);
            control_from(&document)
        },
    }
}

} // verus!
