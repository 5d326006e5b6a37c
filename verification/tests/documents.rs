use clib::{
    clib_metadata, metabuild, parse_document, requested_packages, save_spec, Dependency, Entry,
    Field, LibGroup, Libs, Node, PackageSpec, RecordError, SpecError, SpecStore,
};

fn texts(items: &[&str]) -> Vec<String> {
    items.iter().map(|item| item.to_string()).collect()
}

fn text(value: &str) -> Node {
    Node::Text(value.to_string())
}

fn list(items: &[&str]) -> Node {
    Node::List(items.iter().map(|item| text(item)).collect())
}

fn table(entries: Vec<(&str, Node)>) -> Node {
    Node::Table(entries.into_iter().map(|(key, value)| Entry { key: key.to_string(), value }).collect())
}

fn parsed(document: &str) -> Node {
    parse_document(document).expect("the text is a document")
}

#[test]
fn a_document_is_read_into_a_tree() {
    let node = parsed("name = \"clib\"\ncount = 3\nflag = true\nlist = [\"a\", \"b\"]\n[inner]\nkey = \"v\"\n");
    assert_eq!(
        node,
        table(vec![
            ("count", Node::Integer(3)),
            ("flag", Node::Boolean(true)),
            ("inner", table(vec![("key", text("v"))])),
            ("list", list(&["a", "b"])),
            ("name", text("clib")),
        ])
    );
}

#[test]
fn fractions_and_times_are_kept_as_printed() {
    let node = parsed("ratio = 1.5\nwhen = 1979-05-27T07:32:00Z\n");
    assert_eq!(node.get("ratio"), Some(&Node::Real("1.5".to_string())));
    assert_eq!(node.get("when"), Some(&Node::Datetime("1979-05-27T07:32:00Z".to_string())));
}

#[test]
fn an_empty_text_is_an_empty_document() {
    assert_eq!(parsed(""), Node::Table(Vec::new()));
}

#[test]
fn text_that_is_no_document_is_refused() {
    let refused = parse_document("name = ").expect_err("a value is missing");
    assert!(!refused.message.is_empty());
    assert!(parse_document("[a\nb = 1").is_err());
    assert!(parse_document("a = 1\na = 2").is_err());
}

#[test]
fn get_finds_the_first_entry_of_a_name() {
    let node = table(vec![("a", text("1")), ("b", text("2")), ("a", text("3"))]);
    assert_eq!(node.get("a"), Some(&text("1")));
    assert_eq!(node.get("b"), Some(&text("2")));
    assert_eq!(node.get("c"), None);
    assert_eq!(text("a").get("a"), None);
    assert_eq!(list(&["a"]).get("a"), None);
}

#[test]
fn texts_are_read_from_a_list_of_texts_only() {
    assert_eq!(list(&["a", "b"]).texts(), Some(texts(&["a", "b"])));
    assert_eq!(list(&[]).texts(), Some(Vec::new()));
    assert_eq!(Node::List(vec![text("a"), Node::Integer(1)]).texts(), None);
    assert_eq!(text("a").texts(), None);
    assert_eq!(table(vec![]).texts(), None);
}

#[test]
fn a_record_with_every_part_is_read() {
    let document = r#"
headers = ["foo.h", "foo/bar.h"]
pc-alias = ["foo-2", "foo2"]
exe = ["foo-config"]
includedir = ["foo-2.0", "foo"]
libs-private = ["libm.so"]
header-dependencies = ["glib"]

[libs]
core = ["libfoo.so", "libfoo.a"]
extra = ["libfoox.so"]

[dependencies]
bar = {}
baz = { os = "linux" }
"#;
    let record = PackageSpec::from_node(&parsed(document)).expect("the record is well formed");
    assert_eq!(
        record,
        PackageSpec {
            headers: texts(&["foo.h", "foo/bar.h"]),
            pc_alias: texts(&["foo-2", "foo2"]),
            exe: texts(&["foo-config"]),
            includedir: texts(&["foo-2.0", "foo"]),
            libs: Some(Libs::Groups(vec![
                LibGroup { name: "core".to_string(), candidates: texts(&["libfoo.so", "libfoo.a"]) },
                LibGroup { name: "extra".to_string(), candidates: texts(&["libfoox.so"]) },
            ])),
            libs_private: Some(Libs::Flat(texts(&["libm.so"]))),
            dependencies: vec![
                Dependency { name: "bar".to_string(), os: None },
                Dependency { name: "baz".to_string(), os: Some("linux".to_string()) },
            ],
            header_dependencies: vec![Dependency { name: "glib".to_string(), os: None }],
        }
    );
}

#[test]
fn a_record_needs_only_its_headers() {
    let record = PackageSpec::from_node(&parsed("headers = []")).expect("the record is well formed");
    assert_eq!(
        record,
        PackageSpec {
            headers: Vec::new(),
            pc_alias: Vec::new(),
            exe: Vec::new(),
            includedir: Vec::new(),
            libs: None,
            libs_private: None,
            dependencies: Vec::new(),
            header_dependencies: Vec::new(),
        }
    );
    assert_eq!(
        PackageSpec::from_node(&parsed("exe = [\"a\"]")),
        Err(RecordError::Missing(Field::Headers))
    );
}

#[test]
fn each_part_of_a_record_must_have_its_shape() {
    let wrong = |document: &str| PackageSpec::from_node(&parsed(document)).expect_err("must be refused");
    assert_eq!(PackageSpec::from_node(&text("x")), Err(RecordError::Malformed(Field::Record)));
    assert_eq!(PackageSpec::from_node(&list(&["x"])), Err(RecordError::Malformed(Field::Record)));
    assert_eq!(wrong("headers = \"a.h\""), RecordError::Malformed(Field::Headers));
    assert_eq!(wrong("headers = [1]"), RecordError::Malformed(Field::Headers));
    assert_eq!(wrong("headers = []\npc-alias = \"a\""), RecordError::Malformed(Field::PcAlias));
    assert_eq!(wrong("headers = []\nexe = [[\"a\"]]"), RecordError::Malformed(Field::Exe));
    assert_eq!(wrong("headers = []\nincludedir = 1"), RecordError::Malformed(Field::IncludeDir));
    assert_eq!(wrong("headers = []\nlibs = \"a\""), RecordError::Malformed(Field::Libs));
    assert_eq!(wrong("headers = []\nlibs = { core = \"a\" }"), RecordError::Malformed(Field::Libs));
    assert_eq!(wrong("headers = []\nlibs = [1]"), RecordError::Malformed(Field::Libs));
    assert_eq!(wrong("headers = []\nlibs-private = true"), RecordError::Malformed(Field::LibsPrivate));
    assert_eq!(wrong("headers = []\ndependencies = \"a\""), RecordError::Malformed(Field::Dependencies));
    assert_eq!(wrong("headers = []\ndependencies = [1]"), RecordError::Malformed(Field::Dependencies));
    assert_eq!(
        wrong("headers = []\ndependencies = { a = \"linux\" }"),
        RecordError::Malformed(Field::Dependencies)
    );
    assert_eq!(
        wrong("headers = []\ndependencies = { a = { os = 1 } }"),
        RecordError::Malformed(Field::Dependencies)
    );
    assert_eq!(
        wrong("headers = []\nheader-dependencies = { a = [] }"),
        RecordError::Malformed(Field::HeaderDependencies)
    );
}

#[test]
fn the_first_wrong_part_is_reported() {
    let wrong = |document: &str| PackageSpec::from_node(&parsed(document)).expect_err("must be refused");
    assert_eq!(wrong("exe = 1\npc-alias = 1"), RecordError::Missing(Field::Headers));
    assert_eq!(wrong("headers = []\nexe = 1\npc-alias = 1"), RecordError::Malformed(Field::PcAlias));
    assert_eq!(
        wrong("headers = []\nheader-dependencies = 1\nlibs = 1"),
        RecordError::Malformed(Field::Libs)
    );
}

#[test]
fn dependencies_may_be_listed_or_filtered() {
    let listed = PackageSpec::from_node(&parsed("headers = []\ndependencies = [\"b\", \"a\"]")).unwrap();
    assert_eq!(
        listed.dependencies,
        vec![
            Dependency { name: "b".to_string(), os: None },
            Dependency { name: "a".to_string(), os: None },
        ]
    );
    let filtered = PackageSpec::from_node(&parsed(
        "headers = []\n[header-dependencies]\nx = { os = \"windows\" }\nw = { os = \"unix\", optional = true }\n",
    ))
    .unwrap();
    assert_eq!(
        filtered.header_dependencies,
        vec![
            Dependency { name: "w".to_string(), os: Some("unix".to_string()) },
            Dependency { name: "x".to_string(), os: Some("windows".to_string()) },
        ]
    );
}

const MANIFEST: &str = r#"
[package]
name = "demo"
version = "0.1.0"

[package.metadata.clib]
build-pkgs = ["zlib", "png"]

[package.metadata.clib.pkgs.zlib]
headers = ["zlib.h"]

[package.metadata.clib.pkgs.png]
headers = ["png.h"]
dependencies = ["zlib"]
"#;

#[test]
fn a_manifest_declares_records_and_requests() {
    let manifest = parsed(MANIFEST);
    let clib = clib_metadata(&manifest).expect("the manifest has a part for this crate");
    assert_eq!(requested_packages(clib.get("build-pkgs").unwrap()), Ok(texts(&["zlib", "png"])));

    let mut store = SpecStore::new();
    assert_eq!(metabuild(&manifest, &mut store), Ok(Some(texts(&["zlib", "png"]))));
    assert_eq!(store.len(), 2);
    assert_eq!(store.lookup("zlib").unwrap().headers, ["zlib.h"]);
    assert_eq!(
        store.lookup("png").unwrap().dependencies,
        vec![Dependency { name: "zlib".to_string(), os: None }]
    );

    assert_eq!(metabuild(&manifest, &mut store), Ok(Some(texts(&["zlib", "png"]))));
    assert_eq!(store.len(), 2);
}

#[test]
fn a_manifest_without_a_part_for_this_crate_asks_for_nothing() {
    let mut store = SpecStore::new();
    assert_eq!(metabuild(&parsed("[package]\nname = \"demo\"\n"), &mut store), Ok(None));
    assert_eq!(metabuild(&parsed(""), &mut store), Ok(None));
    assert_eq!(metabuild(&parsed("[package.metadata.other]\nx = 1\n"), &mut store), Ok(None));
    assert_eq!(metabuild(&parsed("[package.metadata.clib]\n"), &mut store), Ok(None));
    assert_eq!(store.len(), 0);
    assert!(clib_metadata(&parsed("[package]\nmetadata = 1\n")).is_none());
}

#[test]
fn a_manifest_may_declare_without_requesting() {
    let mut store = SpecStore::new();
    let manifest = parsed("[package.metadata.clib.pkgs.zlib]\nheaders = [\"zlib.h\"]\n");
    assert_eq!(metabuild(&manifest, &mut store), Ok(None));
    assert_eq!(store.len(), 1);
    let manifest = parsed("[package.metadata.clib]\nbuild-pkgs = []\n");
    assert_eq!(metabuild(&manifest, &mut store), Ok(Some(Vec::new())));
}

#[test]
fn records_must_come_as_a_table() {
    let mut store = SpecStore::new();
    assert_eq!(save_spec(&list(&["zlib"]), &mut store), Err(SpecError::NotATable));
    assert_eq!(save_spec(&text("zlib"), &mut store), Err(SpecError::NotATable));
    let manifest = parsed("[package.metadata.clib]\npkgs = [\"zlib\"]\n");
    assert_eq!(metabuild(&manifest, &mut store), Err(SpecError::NotATable));
}

#[test]
fn requests_must_come_as_a_list_of_names() {
    assert_eq!(requested_packages(&text("zlib")), Err(SpecError::NotAList));
    assert_eq!(requested_packages(&Node::List(vec![text("zlib"), Node::Integer(1)])), Err(SpecError::NotAList));
    let mut store = SpecStore::new();
    let manifest = parsed("[package.metadata.clib]\nbuild-pkgs = \"zlib\"\n");
    assert_eq!(metabuild(&manifest, &mut store), Err(SpecError::NotAList));
}

#[test]
fn a_malformed_record_is_reported_with_its_name() {
    let mut store = SpecStore::new();
    let pkgs = parsed("[a]\nheaders = []\n[b]\nexe = []\n[c]\nheaders = []\n");
    assert_eq!(
        save_spec(&pkgs, &mut store),
        Err(SpecError::Record("b".to_string(), RecordError::Missing(Field::Headers)))
    );
    assert_eq!(store.len(), 1);
    assert!(store.lookup("a").is_some());
    assert!(store.lookup("c").is_none());
}

#[test]
fn a_record_that_differs_from_the_stored_one_is_a_conflict() {
    let mut store = SpecStore::new();
    assert_eq!(save_spec(&parsed("[z]\nheaders = [\"z.h\"]\n"), &mut store), Ok(()));
    assert_eq!(save_spec(&parsed("[z]\nheaders = [\"z.h\"]\n"), &mut store), Ok(()));
    let refused = save_spec(&parsed("[y]\nheaders = []\n[z]\nheaders = [\"zlib.h\"]\n"), &mut store);
    match refused {
        Err(SpecError::Conflict(conflict)) => {
            assert_eq!(conflict.name, "z");
            assert_eq!(conflict.stored.headers, ["z.h"]);
            assert_eq!(conflict.incoming.headers, ["zlib.h"]);
        },
        other => panic!("a conflict was expected, not {:?}", other),
    }
    assert_eq!(store.lookup("z").unwrap().headers, ["z.h"]);
    assert!(store.lookup("y").is_some());
}
