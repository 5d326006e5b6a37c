use clib::{emit_cargo_meta_for_libs, Directive, Failure, Halt, Host, LibGroup, Libs, Query};

fn texts(items: &[&str]) -> Vec<String> {
    items.iter().map(|item| item.to_string()).collect()
}

fn host_with_paths(paths: &[(&str, bool)]) -> Host {
    let mut host = Host::new();
    for (path, exists) in paths {
        host.record_path(path.to_string(), *exists);
    }
    host
}

fn group(name: &str, candidates: &[&str]) -> LibGroup {
    LibGroup { name: name.to_string(), candidates: texts(candidates) }
}

#[test]
fn a_group_links_the_only_candidate_that_is_installed() {
    let host = host_with_paths(&[("/usr/lib/libfoo.so", false), ("/usr/lib/libfoo.a", true)]);
    let libs = Libs::Groups(vec![group("core", &["libfoo.so", "libfoo.a"])]);
    let emitted = emit_cargo_meta_for_libs(&host, "/usr", &libs);
    assert_eq!(emitted, Ok(vec![Directive::LinkLib("foo".to_string())]));
}

#[test]
fn a_group_links_its_first_installed_candidate() {
    let host = host_with_paths(&[
        ("/usr/lib/libfoo_d.so", false),
        ("/usr/lib/libfoo.so", true),
        ("/usr/lib/libfoo.a", true),
    ]);
    let libs = Libs::Groups(vec![group("core", &["libfoo_d.so", "libfoo.so", "libfoo.a"])]);
    let emitted = emit_cargo_meta_for_libs(&host, "/usr", &libs);
    assert_eq!(emitted, Ok(vec![Directive::LinkLib("foo".to_string())]));
}

#[test]
fn a_candidate_after_the_first_installed_one_is_not_asked_for() {
    let host = host_with_paths(&[("/usr/lib/libfoo.so", true)]);
    let libs = Libs::Groups(vec![group("core", &["libfoo.so", "libfoo.a"])]);
    let emitted = emit_cargo_meta_for_libs(&host, "/usr", &libs);
    assert_eq!(emitted, Ok(vec![Directive::LinkLib("foo".to_string())]));
}

#[test]
fn every_group_gets_one_directive_in_order() {
    let host = host_with_paths(&[
        ("/opt/x/lib/libssl.so", true),
        ("/opt/x/lib/libcrypto.so", false),
        ("/opt/x/lib/libcrypto.a", true),
    ]);
    let libs = Libs::Groups(vec![
        group("ssl", &["libssl.so"]),
        group("crypto", &["libcrypto.so", "libcrypto.a"]),
    ]);
    let emitted = emit_cargo_meta_for_libs(&host, "/opt/x", &libs);
    assert_eq!(
        emitted,
        Ok(vec![Directive::LinkLib("ssl".to_string()), Directive::LinkLib("crypto".to_string())])
    );
}

#[test]
fn a_group_without_an_installed_candidate_fails() {
    let host = host_with_paths(&[("/usr/lib/libfoo.so", false), ("/usr/lib/libfoo.a", false)]);
    let libs = Libs::Groups(vec![group("core", &["libfoo.so", "libfoo.a"])]);
    let emitted = emit_cargo_meta_for_libs(&host, "/usr", &libs);
    assert_eq!(emitted, Err(Halt::Failed(Failure::MissingLibrary, "core".to_string())));
}

#[test]
fn a_group_without_candidates_fails() {
    let host = Host::new();
    let libs = Libs::Groups(vec![group("core", &[])]);
    let emitted = emit_cargo_meta_for_libs(&host, "/usr", &libs);
    assert_eq!(emitted, Err(Halt::Failed(Failure::MissingLibrary, "core".to_string())));
}

#[test]
fn a_flat_list_links_every_file() {
    let host = host_with_paths(&[("/usr/lib/libfoo.so", true), ("/usr/lib/bar.lib", true)]);
    let libs = Libs::Flat(texts(&["libfoo.so", "bar.lib"]));
    let emitted = emit_cargo_meta_for_libs(&host, "/usr", &libs);
    assert_eq!(
        emitted,
        Ok(vec![Directive::LinkLib("foo".to_string()), Directive::LinkLib("bar".to_string())])
    );
}

#[test]
fn a_flat_list_fails_on_a_file_that_is_absent() {
    let host = host_with_paths(&[("/usr/lib/libfoo.so", true), ("/usr/lib/libbar.so", false)]);
    let libs = Libs::Flat(texts(&["libfoo.so", "libbar.so"]));
    let emitted = emit_cargo_meta_for_libs(&host, "/usr", &libs);
    assert_eq!(emitted, Err(Halt::Failed(Failure::MissingLibrary, "libbar.so".to_string())));
}

#[test]
fn an_unknown_path_is_asked_for() {
    let host = host_with_paths(&[("/usr/lib/libfoo.so", false)]);
    let libs = Libs::Groups(vec![group("core", &["libfoo.so", "libfoo.a"])]);
    let emitted = emit_cargo_meta_for_libs(&host, "/usr", &libs);
    assert_eq!(emitted, Err(Halt::Needs(Query::Path("/usr/lib/libfoo.a".to_string()))));

    let libs = Libs::Flat(texts(&["libbar.so"]));
    let emitted = emit_cargo_meta_for_libs(&Host::new(), "/usr", &libs);
    assert_eq!(emitted, Err(Halt::Needs(Query::Path("/usr/lib/libbar.so".to_string()))));
}

#[test]
fn nothing_declared_emits_nothing() {
    let host = Host::new();
    assert_eq!(emit_cargo_meta_for_libs(&host, "/usr", &Libs::Flat(Vec::new())), Ok(Vec::new()));
    assert_eq!(emit_cargo_meta_for_libs(&host, "/usr", &Libs::Groups(Vec::new())), Ok(Vec::new()));
}

#[test]
fn directives_are_announced_as_cargo_lines() {
    assert_eq!(Directive::LinkLib("foo".to_string()).line(), "cargo:rustc-link-lib=foo");
    assert_eq!(
        Directive::LinkSearch("/opt/x/lib".to_string()).line(),
        "cargo:rustc-link-search=native=/opt/x/lib"
    );
}
