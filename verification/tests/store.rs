use clib::{Dependency, LibGroup, Libs, PackageSpec, SpecStore};

fn texts(items: &[&str]) -> Vec<String> {
    items.iter().map(|item| item.to_string()).collect()
}

fn record(headers: &[&str]) -> PackageSpec {
    PackageSpec {
        headers: texts(headers),
        pc_alias: Vec::new(),
        exe: Vec::new(),
        includedir: Vec::new(),
        libs: None,
        libs_private: None,
        dependencies: Vec::new(),
        header_dependencies: Vec::new(),
    }
}

#[test]
fn lookup_finds_what_was_registered() {
    let mut store = SpecStore::new();
    assert_eq!(store.len(), 0);
    assert!(store.lookup("zlib").is_none());
    assert!(store.register("zlib".to_string(), record(&["zlib.h"])).is_ok());
    assert_eq!(store.lookup("zlib"), Some(&record(&["zlib.h"])));
    assert!(store.lookup("png").is_none());
    assert_eq!(store.len(), 1);
}

#[test]
fn registering_an_identical_record_changes_nothing() {
    let mut store = SpecStore::new();
    assert!(store.register("zlib".to_string(), record(&["zlib.h"])).is_ok());
    assert!(store.register("zlib".to_string(), record(&["zlib.h"])).is_ok());
    assert!(store.register("zlib".to_string(), record(&["zlib.h"])).is_ok());
    assert_eq!(store.len(), 1);
    assert_eq!(store.lookup("zlib"), Some(&record(&["zlib.h"])));
}

#[test]
fn registering_a_different_record_is_refused() {
    let mut store = SpecStore::new();
    assert!(store.register("zlib".to_string(), record(&["zlib.h"])).is_ok());
    let refused = store.register("zlib".to_string(), record(&["zconf.h"]));
    let conflict = refused.expect_err("a different record must be refused");
    assert_eq!(conflict.name, "zlib");
    assert_eq!(conflict.stored, record(&["zlib.h"]));
    assert_eq!(conflict.incoming, record(&["zconf.h"]));
    assert_eq!(store.len(), 1);
    assert_eq!(store.lookup("zlib"), Some(&record(&["zlib.h"])));
}

#[test]
fn records_under_different_names_do_not_conflict() {
    let mut store = SpecStore::new();
    assert!(store.register("zlib".to_string(), record(&["zlib.h"])).is_ok());
    assert!(store.register("png".to_string(), record(&["png.h"])).is_ok());
    assert_eq!(store.len(), 2);
    assert_eq!(store.lookup("png"), Some(&record(&["png.h"])));
    assert_eq!(store.lookup("zlib"), Some(&record(&["zlib.h"])));
}

#[test]
fn every_part_of_a_record_counts_when_records_are_compared() {
    let base = record(&["a.h"]);
    assert!(base.same(&record(&["a.h"])));
    assert!(base.same(&base.duplicate()));

    let mut other = record(&["a.h"]);
    other.pc_alias = texts(&["a-1.0"]);
    assert!(!base.same(&other));

    let mut other = record(&["a.h"]);
    other.exe = texts(&["a-config"]);
    assert!(!base.same(&other));

    let mut other = record(&["a.h"]);
    other.includedir = texts(&["a"]);
    assert!(!base.same(&other));

    let mut other = record(&["a.h"]);
    other.libs = Some(Libs::Flat(Vec::new()));
    assert!(!base.same(&other));

    let mut other = record(&["a.h"]);
    other.libs_private = Some(Libs::Groups(Vec::new()));
    assert!(!base.same(&other));

    let mut other = record(&["a.h"]);
    other.dependencies = vec![Dependency { name: "b".to_string(), os: None }];
    assert!(!base.same(&other));

    let mut other = record(&["a.h"]);
    other.header_dependencies = vec![Dependency { name: "b".to_string(), os: None }];
    assert!(!base.same(&other));
}

#[test]
fn records_differ_by_shape_order_and_filter() {
    let mut flat = record(&["a.h"]);
    flat.libs = Some(Libs::Flat(texts(&["liba.so"])));
    let mut grouped = record(&["a.h"]);
    grouped.libs = Some(Libs::Groups(vec![LibGroup {
        name: "a".to_string(),
        candidates: texts(&["liba.so"]),
    }]));
    assert!(!flat.same(&grouped));
    assert!(grouped.same(&grouped.duplicate()));
    assert_eq!(grouped.duplicate(), grouped);

    assert!(!record(&["a.h", "b.h"]).same(&record(&["b.h", "a.h"])));
    assert!(!record(&["a.h"]).same(&record(&["a.h", "a.h"])));

    let mut anywhere = record(&[]);
    anywhere.dependencies = vec![Dependency { name: "b".to_string(), os: None }];
    let mut on_linux = record(&[]);
    on_linux.dependencies = vec![Dependency { name: "b".to_string(), os: Some("linux".to_string()) }];
    assert!(!anywhere.same(&on_linux));
    assert!(on_linux.same(&on_linux.duplicate()));
}
