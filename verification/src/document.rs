//! The documents in which packages are declared.
//!
//! A document is text in TOML. The `toml` crate reads it; everything after
//! that, from the shape of a package record to the sections of a manifest,
//! is decided here, on a tree of this crate's own.
use vstd::prelude::*;
use crate::package::{
    Dependency, DependencyView, LibGroup, LibGroupView, Libs, LibsView, PackageSpec,
    PackageSpecView,
};
use crate::text::same_text;

verus! {

/// A value of a document.
#[derive(Debug, PartialEq, Eq)]
pub enum Node {
    Text(String),
    Integer(i64),
    /// A number with a fraction, as it is printed.
    Real(String),
    Boolean(bool),
    /// A point in time, as it is printed.
    Datetime(String),
    List(Vec<Node>),
    /// Named values, in the order in which the document's reader gives them.
    Table(Vec<Entry>),
}

/// A named value of a table.
#[derive(Debug, PartialEq, Eq)]
pub struct Entry {
    pub key: String,
    pub value: Node,
}

/// A value of a document, as mathematics sees it.
pub enum Tree {
    Text(Seq<char>),
    Integer(i64),
    Real(Seq<char>),
    Boolean(bool),
    Datetime(Seq<char>),
    List(Seq<Tree>),
    Table(Seq<(Seq<char>, Tree)>),
}

impl Node {
    /// The value as mathematics sees it.
    pub open spec fn tree(self) -> Tree
        decreases self,
    {
        match self {
            Node::Text(text) => Tree::Text(text@),
            Node::Integer(number) => Tree::Integer(number),
            Node::Real(number) => Tree::Real(number@),
            Node::Boolean(flag) => Tree::Boolean(flag),
            Node::Datetime(moment) => Tree::Datetime(moment@),
            Node::List(items) => Tree::List(
                Seq::new(
                    items.len() as nat,
                    |i: int|
                        if 0 <= i < items.len() {
                            items[i].tree()
                        } else {
                            Tree::Boolean(false)
                        },
                ),
            ),
            Node::Table(entries) => Tree::Table(
                Seq::new(
                    entries.len() as nat,
                    |i: int|
                        if 0 <= i < entries.len() {
                            (entries[i].key@, entries[i].value.tree())
                        } else {
                            (Seq::empty(), Tree::Boolean(false))
                        },
                ),
            ),
        }
    }
}

impl DeepView for Node {
    type V = Tree;

    open spec fn deep_view(&self) -> Tree {
        self.tree()
    }
}

impl View for Node {
    type V = Tree;

    open spec fn view(&self) -> Tree {
        self.deep_view()
    }
}

/// The `toml` crate's own value of a document.
#[verifier::external_type_specification]
#[verifier::external_body]
pub struct ExTomlValue(toml::Value);

/// The `toml` crate's report of text that is no document.
#[verifier::external_type_specification]
#[verifier::external_body]
pub struct ExTomlError(toml::de::Error);

/// The document that `toml::from_str` reads from a text, or `None` where it
/// refuses the text.
pub uninterp spec fn toml_document(text: Seq<char>) -> Option<Tree>;

/// What a `toml::Value` holds.
pub uninterp spec fn content(value: toml::Value) -> Tree;

/// Calls `toml::from_str` to read a text as a `toml::Value`. Trusted: the
/// outcome depends on the text alone, so that it can be called
/// `toml_document` of the text; what it is for a given text is not stated.
#[verifier::external_body]
fn parse_toml(text: &str) -> (parsed: Result<toml::Value, toml::de::Error>)
    ensures
        match parsed {
            Ok(value) => toml_document(text@) == Some(content(value)),
            Err(_) => toml_document(text@) is None,
        },
{
    toml::from_str::<toml::Value>(text)
}

/// Moves what a `toml::Value` holds into a `Node`, variant by variant.
/// Trusted: the node holds what the value held. Numbers with a fraction and
/// points in time are kept as the `toml` crate prints them.
#[verifier::external_body]
fn node_of(value: toml::Value) -> (node: Node)
    ensures
        node@ == content(value),
{
    match value {
        toml::Value::String(text) => Node::Text(text),
        toml::Value::Integer(number) => Node::Integer(number),
        toml::Value::Float(number) => Node::Real(number.to_string()),
        toml::Value::Boolean(flag) => Node::Boolean(flag),
        toml::Value::Datetime(moment) => Node::Datetime(moment.to_string()),
        toml::Value::Array(items) => Node::List(items.into_iter().map(node_of).collect()),
        toml::Value::Table(entries) => Node::Table(
            entries.into_iter().map(|(key, item)| Entry { key, value: node_of(item) }).collect(),
        ),
    }
}

/// Calls `to_string` on the `toml` crate's error. Nothing is claimed of the
/// message.
#[verifier::external_body]
fn describe(error: &toml::de::Error) -> (message: String) {
    error.to_string()
}

/// A text that is no document, with the reader's complaint.
#[derive(Debug, PartialEq, Eq)]
pub struct ParseError {
    pub message: String,
}

/// Reads a text as a document.
pub fn parse_document(text: &str) -> (parsed: Result<Node, ParseError>)
    ensures
        match toml_document(text@) {
            Some(tree) => parsed matches Ok(node) && node@ == tree,
            None => parsed is Err,
        },
{
    match parse_toml(text) {
        Ok(value) => Ok(node_of(value)),
        Err(error) => Err(ParseError { message: describe(&error) }),
    }
}

/// The value of the first of the entries, from position `from` on, that is
/// named `key`.
pub open spec fn lookup(entries: Seq<(Seq<char>, Tree)>, key: Seq<char>, from: int) -> Option<Tree>
    decreases entries.len() - from,
{
    if from < 0 || from >= entries.len() {
        None
    } else if entries[from].0 == key {
        Some(entries[from].1)
    } else {
        lookup(entries, key, from + 1)
    }
}

impl Tree {
    /// The value named `key`, where this is a table that has one.
    pub open spec fn get(self, key: Seq<char>) -> Option<Tree> {
        match self {
            Tree::Table(entries) => lookup(entries, key, 0),
            _ => None,
        }
    }

    /// The texts of a list that holds nothing but texts.
    pub open spec fn texts(self) -> Option<Seq<Seq<char>>> {
        match self {
            Tree::List(items) => if forall|i: int| 0 <= i < items.len() ==> items[i] is Text {
                Some(Seq::new(items.len(), |i: int| items[i]->Text_0))
            } else {
                None
            },
            _ => None,
        }
    }
}

/// What a list of nodes is seen as.
pub proof fn lemma_list_view(items: Vec<Node>)
    ensures
        Node::List(items)@ matches Tree::List(trees) && trees.len() == items.len() && forall|
            j: int,
        |
            0 <= j < items.len() ==> trees[j] == items[j]@,
{
    let trees = Node::List(items).tree()->List_0;
    assert(trees.len() == items.len());
}

/// What a table of nodes is seen as.
pub proof fn lemma_table_view(entries: Vec<Entry>)
    ensures
        Node::Table(entries)@ matches Tree::Table(pairs) && pairs.len() == entries.len()
            && forall|j: int|
            0 <= j < entries.len() ==> pairs[j] == (entries[j].key@, entries[j].value@),
{
    let pairs = Node::Table(entries).tree()->Table_0;
    assert(pairs.len() == entries.len());
}

impl Node {
    /// The value named `key`, where this is a table that has one.
    pub fn get(&self, key: &str) -> (value: Option<&Node>)
        ensures
            value.deep_view() == self@.get(key@),
    {
        match self {
            Node::Table(entries) => {
                let ghost pairs = self@->Table_0;
                proof {
                    lemma_table_view(*entries);
                }
                let mut i: usize = 0;
                while i < entries.len()
                    invariant
                        i <= entries.len(),
                        self@ == Tree::Table(pairs),
                        pairs.len() == entries.len(),
                        forall|j: int|
                            0 <= j < entries.len() ==> pairs[j] == (
                                entries[j].key@,
                                entries[j].value@,
                            ),
                        lookup(pairs, key@, 0) == lookup(pairs, key@, i as int),
                    decreases entries.len() - i,
                {
                    if same_text(entries[i].key.as_str(), key) {
                        return Some(&entries[i].value);
                    }
                    i += 1;
                }
                None
            },
            _ => None,
        }
    }

    /// The texts of a list that holds nothing but texts.
    pub fn texts(&self) -> (texts: Option<Vec<String>>)
        ensures
            texts.deep_view() == self@.texts(),
    {
        match self {
            Node::List(items) => {
                let ghost trees = self@->List_0;
                proof {
                    lemma_list_view(*items);
                }
                let mut texts: Vec<String> = Vec::new();
                let mut i: usize = 0;
                while i < items.len()
                    invariant
                        i <= items.len(),
                        self@ == Tree::List(trees),
                        trees.len() == items.len(),
                        forall|j: int| 0 <= j < items.len() ==> trees[j] == items[j]@,
                        texts.len() == i,
                        forall|j: int| 0 <= j < i ==> trees[j] == Tree::Text(texts[j]@),
                    decreases items.len() - i,
                {
                    match &items[i] {
                        Node::Text(text) => {
                            texts.push(text.clone());
                        },
                        _ => {
                            assert(!(trees[i as int] is Text));
                            return None;
                        },
                    }
                    i += 1;
                }
                assert(texts.deep_view() =~= self@.texts()->Some_0);
                Some(texts)
            },
            _ => None,
        }
    }
}

/// The parts of a package record.
#[derive(Debug, Clone, Copy, PartialEq, Eq, Structural)]
pub enum Field {
    /// The record as a whole.
    Record,
    Headers,
    PcAlias,
    Exe,
    IncludeDir,
    Libs,
    LibsPrivate,
    Dependencies,
    HeaderDependencies,
}

/// What is wrong with a package record.
#[derive(Debug, Clone, Copy, PartialEq, Eq, Structural)]
pub enum RecordError {
    /// A part has another shape than the one it must have.
    Malformed(Field),
    /// A part that must be there is not.
    Missing(Field),
}

/// The texts of an optional list: none where the record has no value named
/// `key`.
pub open spec fn optional_texts(record: Tree, key: Seq<char>) -> Option<Seq<Seq<char>>> {
    match record.get(key) {
        None => Some(Seq::empty()),
        Some(list) => list.texts(),
    }
}

/// The groups that a table of libraries declares: each entry names a group
/// and lists its candidates.
pub open spec fn groups_of(entries: Seq<(Seq<char>, Tree)>) -> Option<Seq<LibGroupView>> {
    if forall|i: int| 0 <= i < entries.len() ==> (#[trigger] entries[i]).1.texts() is Some {
        Some(
            Seq::new(
                entries.len(),
                |i: int|
                    LibGroupView { name: entries[i].0, candidates: entries[i].1.texts()->Some_0 },
            ),
        )
    } else {
        None
    }
}

/// The libraries that a value declares: groups where it is a table, files
/// where it is a list.
pub open spec fn libs_of(tree: Tree) -> Option<LibsView> {
    match tree {
        Tree::Table(entries) => match groups_of(entries) {
            Some(groups) => Some(LibsView::Groups(groups)),
            None => None,
        },
        Tree::List(_) => match tree.texts() {
            Some(files) => Some(LibsView::Flat(files)),
            None => None,
        },
        _ => None,
    }
}

/// The libraries declared under `key`, which may be absent.
pub open spec fn optional_libs(record: Tree, key: Seq<char>) -> Option<Option<LibsView>> {
    match record.get(key) {
        None => Some(None),
        Some(tree) => match libs_of(tree) {
            Some(libs) => Some(Some(libs)),
            None => None,
        },
    }
}

/// The platform filter of a dependency that is declared by a table: the
/// text named `os`, if there is one.
pub open spec fn filter_of(tree: Tree) -> Option<Option<Seq<char>>> {
    match tree {
        Tree::Table(entries) => match lookup(entries, "os"@, 0) {
            None => Some(None),
            Some(Tree::Text(os)) => Some(Some(os)),
            Some(_) => None,
        },
        _ => None,
    }
}

/// The dependencies that a table declares: each entry names one and may
/// limit it to a platform.
pub open spec fn filtered_of(entries: Seq<(Seq<char>, Tree)>) -> Option<Seq<DependencyView>> {
    if forall|i: int| 0 <= i < entries.len() ==> filter_of((#[trigger] entries[i]).1) is Some {
        Some(
            Seq::new(
                entries.len(),
                |i: int| DependencyView { name: entries[i].0, os: filter_of(entries[i].1)->Some_0 },
            ),
        )
    } else {
        None
    }
}

/// The dependencies that a value declares: a list of names, or a table from
/// names to filters.
pub open spec fn dependencies_of(tree: Tree) -> Option<Seq<DependencyView>> {
    match tree {
        Tree::Table(entries) => filtered_of(entries),
        Tree::List(_) => match tree.texts() {
            Some(names) => Some(
                Seq::new(names.len(), |i: int| DependencyView { name: names[i], os: None }),
            ),
            None => None,
        },
        _ => None,
    }
}

/// The dependencies declared under `key`: none where the record has no
/// such value.
pub open spec fn optional_dependencies(
    record: Tree,
    key: Seq<char>,
) -> Option<Seq<DependencyView>> {
    match record.get(key) {
        None => Some(Seq::empty()),
        Some(tree) => dependencies_of(tree),
    }
}

/// The package record that a value of a document declares. The record is a
/// table. Its `headers` must be there; the other parts may be missing. The
/// first part that is wrong, in the order of the record's fields, is
/// reported.
pub open spec fn record_of(tree: Tree) -> Result<PackageSpecView, RecordError> {
    if !(tree is Table) {
        Err(RecordError::Malformed(Field::Record))
    } else if tree.get("headers"@) is None {
        Err(RecordError::Missing(Field::Headers))
    } else if tree.get("headers"@)->Some_0.texts() is None {
        Err(RecordError::Malformed(Field::Headers))
    } else if optional_texts(tree, "pc-alias"@) is None {
        Err(RecordError::Malformed(Field::PcAlias))
    } else if optional_texts(tree, "exe"@) is None {
        Err(RecordError::Malformed(Field::Exe))
    } else if optional_texts(tree, "includedir"@) is None {
        Err(RecordError::Malformed(Field::IncludeDir))
    } else if optional_libs(tree, "libs"@) is None {
        Err(RecordError::Malformed(Field::Libs))
    } else if optional_libs(tree, "libs-private"@) is None {
        Err(RecordError::Malformed(Field::LibsPrivate))
    } else if optional_dependencies(tree, "dependencies"@) is None {
        Err(RecordError::Malformed(Field::Dependencies))
    } else if optional_dependencies(tree, "header-dependencies"@) is None {
        Err(RecordError::Malformed(Field::HeaderDependencies))
    } else {
        Ok(
            PackageSpecView {
                headers: tree.get("headers"@)->Some_0.texts()->Some_0,
                pc_alias: optional_texts(tree, "pc-alias"@)->Some_0,
                exe: optional_texts(tree, "exe"@)->Some_0,
                includedir: optional_texts(tree, "includedir"@)->Some_0,
                libs: optional_libs(tree, "libs"@)->Some_0,
                libs_private: optional_libs(tree, "libs-private"@)->Some_0,
                dependencies: optional_dependencies(tree, "dependencies"@)->Some_0,
                header_dependencies: optional_dependencies(tree, "header-dependencies"@)->Some_0,
            },
        )
    }
}

fn texts_under(record: &Node, key: &str) -> (texts: Option<Vec<String>>)
    ensures
        texts.deep_view() == optional_texts(record@, key@),
{
    match record.get(key) {
        None => {
            let texts: Vec<String> = Vec::new();
            assert(texts.deep_view() =~= Seq::<Seq<char>>::empty());
            Some(texts)
        },
        Some(list) => list.texts(),
    }
}

fn groups_from(entries: &Vec<Entry>) -> (groups: Option<Vec<LibGroup>>)
    ensures
        groups.deep_view() == groups_of(Node::Table(*entries)@->Table_0),
{
    let ghost pairs = Node::Table(*entries)@->Table_0;
    proof {
        lemma_table_view(*entries);
    }
    let mut groups: Vec<LibGroup> = Vec::new();
    let mut i: usize = 0;
    while i < entries.len()
        invariant
            i <= entries.len(),
            pairs == Node::Table(*entries)@->Table_0,
            pairs.len() == entries.len(),
            forall|j: int|
                0 <= j < entries.len() ==> pairs[j] == (entries[j].key@, entries[j].value@),
            groups.len() == i,
            forall|j: int|
                0 <= j < i ==> (#[trigger] pairs[j]).1.texts() == Some(groups[j]@.candidates)
                    && groups[j]@.name == pairs[j].0,
        decreases entries.len() - i,
    {
        match entries[i].value.texts() {
            Some(candidates) => {
                groups.push(LibGroup { name: entries[i].key.clone(), candidates });
            },
            None => {
                assert(pairs[i as int].1.texts() is None);
                return None;
            },
        }
        i += 1;
    }
    assert(groups.deep_view() =~= groups_of(pairs)->Some_0);
    Some(groups)
}

fn libs_from(node: &Node) -> (libs: Option<Libs>)
    ensures
        libs.deep_view() == libs_of(node@),
{
    match node {
        Node::Table(entries) => match groups_from(entries) {
            Some(groups) => Some(Libs::Groups(groups)),
            None => None,
        },
        Node::List(_) => match node.texts() {
            Some(files) => Some(Libs::Flat(files)),
            None => None,
        },
        _ => None,
    }
}

fn libs_under(record: &Node, key: &str) -> (libs: Option<Option<Libs>>)
    ensures
        libs.deep_view() == optional_libs(record@, key@),
{
    match record.get(key) {
        None => Some(None),
        Some(node) => match libs_from(node) {
            Some(libs) => Some(Some(libs)),
            None => None,
        },
    }
}

fn filter_from(node: &Node) -> (filter: Option<Option<String>>)
    ensures
        filter.deep_view() == filter_of(node@),
{
    match node {
        Node::Table(_) => match node.get("os") {
            None => Some(None),
            Some(Node::Text(os)) => Some(Some(os.clone())),
            Some(_) => None,
        },
        _ => None,
    }
}

fn filtered_from(entries: &Vec<Entry>) -> (dependencies: Option<Vec<Dependency>>)
    ensures
        dependencies.deep_view() == filtered_of(Node::Table(*entries)@->Table_0),
{
    let ghost pairs = Node::Table(*entries)@->Table_0;
    proof {
        lemma_table_view(*entries);
    }
    let mut dependencies: Vec<Dependency> = Vec::new();
    let mut i: usize = 0;
    while i < entries.len()
        invariant
            i <= entries.len(),
            pairs == Node::Table(*entries)@->Table_0,
            pairs.len() == entries.len(),
            forall|j: int|
                0 <= j < entries.len() ==> pairs[j] == (entries[j].key@, entries[j].value@),
            dependencies.len() == i,
            forall|j: int|
                0 <= j < i ==> filter_of((#[trigger] pairs[j]).1) == Some(dependencies[j]@.os)
                    && dependencies[j]@.name == pairs[j].0,
        decreases entries.len() - i,
    {
        match filter_from(&entries[i].value) {
            Some(os) => {
                dependencies.push(Dependency { name: entries[i].key.clone(), os });
            },
            None => {
                assert(filter_of(pairs[i as int].1) is None);
                return None;
            },
        }
        i += 1;
    }
    assert(dependencies.deep_view() =~= filtered_of(pairs)->Some_0);
    Some(dependencies)
}

fn unfiltered(names: Vec<String>) -> (dependencies: Vec<Dependency>)
    ensures
        dependencies.deep_view() == Seq::new(
            names.len() as nat,
            |i: int| DependencyView { name: names[i]@, os: None },
        ),
{
    let mut dependencies: Vec<Dependency> = Vec::new();
    let mut i: usize = 0;
    while i < names.len()
        invariant
            i <= names.len(),
            dependencies.len() == i,
            forall|j: int|
                0 <= j < i ==> dependencies[j]@ == (DependencyView {
                    name: names[j]@,
                    os: None,
                }),
        decreases names.len() - i,
    {
        dependencies.push(Dependency { name: names[i].clone(), os: None });
        i += 1;
    }
    assert(dependencies.deep_view() =~= Seq::new(
        names.len() as nat,
        |i: int| DependencyView { name: names[i]@, os: None },
    ));
    dependencies
}

fn dependencies_from(node: &Node) -> (dependencies: Option<Vec<Dependency>>)
    ensures
        dependencies.deep_view() == dependencies_of(node@),
{
    match node {
        Node::Table(entries) => filtered_from(entries),
        Node::List(_) => match node.texts() {
            Some(names) => {
                let dependencies = unfiltered(names);
                assert(dependencies.deep_view() =~= dependencies_of(node@)->Some_0);
                Some(dependencies)
            },
            None => None,
        },
        _ => None,
    }
}

fn dependencies_under(record: &Node, key: &str) -> (dependencies: Option<Vec<Dependency>>)
    ensures
        dependencies.deep_view() == optional_dependencies(record@, key@),
{
    match record.get(key) {
        None => {
            let dependencies: Vec<Dependency> = Vec::new();
            assert(dependencies.deep_view() =~= Seq::<DependencyView>::empty());
            Some(dependencies)
        },
        Some(node) => dependencies_from(node),
    }
}

impl PackageSpec {
    /// Reads a package record from a value of a document.
    pub fn from_node(node: &Node) -> (record: Result<PackageSpec, RecordError>)
        ensures
            match record_of(node@) {
                Ok(spec) => record matches Ok(found) && found@ == spec,
                Err(error) => record == Err::<PackageSpec, RecordError>(error),
            },
    {
        match node {
            Node::Table(_) => {},
            _ => {
                return Err(RecordError::Malformed(Field::Record));
            },
        }
        let headers = match node.get("headers") {
            None => {
                return Err(RecordError::Missing(Field::Headers));
            },
            Some(list) => match list.texts() {
                None => {
                    return Err(RecordError::Malformed(Field::Headers));
                },
                Some(headers) => headers,
            },
        };
        let pc_alias = match texts_under(node, "pc-alias") {
            None => {
                return Err(RecordError::Malformed(Field::PcAlias));
            },
            Some(texts) => texts,
        };
        let exe = match texts_under(node, "exe") {
            None => {
                return Err(RecordError::Malformed(Field::Exe));
            },
            Some(texts) => texts,
        };
        let includedir = match texts_under(node, "includedir") {
            None => {
                return Err(RecordError::Malformed(Field::IncludeDir));
            },
            Some(texts) => texts,
        };
        let libs = match libs_under(node, "libs") {
            None => {
                return Err(RecordError::Malformed(Field::Libs));
            },
            Some(libs) => libs,
        };
        let libs_private = match libs_under(node, "libs-private") {
            None => {
                return Err(RecordError::Malformed(Field::LibsPrivate));
            },
            Some(libs) => libs,
        };
        let dependencies = match dependencies_under(node, "dependencies") {
            None => {
                return Err(RecordError::Malformed(Field::Dependencies));
            },
            Some(dependencies) => dependencies,
        };
        let header_dependencies = match dependencies_under(node, "header-dependencies") {
            None => {
                return Err(RecordError::Malformed(Field::HeaderDependencies));
            },
            Some(dependencies) => dependencies,
        };
        Ok(
            PackageSpec {
                headers,
                pc_alias,
                exe,
                includedir,
                libs,
                libs_private,
                dependencies,
                header_dependencies,
            },
        )
    }
}

} // verus!
