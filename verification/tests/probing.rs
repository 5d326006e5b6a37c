use clib::{
    get_includedir, probe_package, probe_via_pkgconf, probe_via_search, Directive, Failure, Halt,
    Host, LibInfo, Libs, Package, PackageSpec, ProbedEx, Query, SpecStore,
};

fn texts(items: &[&str]) -> Vec<String> {
    items.iter().map(|item| item.to_string()).collect()
}

fn record(exe: &[&str], aliases: &[&str]) -> PackageSpec {
    PackageSpec {
        headers: texts(&["a.h"]),
        pc_alias: texts(aliases),
        exe: texts(exe),
        includedir: Vec::new(),
        libs: Some(Libs::Flat(Vec::new())),
        libs_private: None,
        dependencies: Vec::new(),
        header_dependencies: Vec::new(),
    }
}

fn store_with(name: &str, spec: PackageSpec) -> SpecStore {
    let mut store = SpecStore::new();
    assert!(store.register(name.to_string(), spec).is_ok());
    store
}

fn package(link_paths: &[&str], include_paths: &[&str]) -> Package {
    Package { link_paths: texts(link_paths), include_paths: texts(include_paths) }
}

#[test]
fn the_registry_is_asked_for_the_name_first() {
    let store = store_with("A", record(&[], &["a-1"]));
    let host = Host::new();
    let mut info = LibInfo::new();
    let probed = probe_via_pkgconf(&store, &host, "A", false, &mut info);
    assert_eq!(probed, Err(Halt::Needs(Query::Package("A".to_string()))));
}

#[test]
fn the_registry_reports_paths_for_a_full_probe_only() {
    let store = SpecStore::new();
    let mut host = Host::new();
    host.record_package("A".to_string(), Some(package(&["/l1", "/l2"], &["/i1"])));

    let mut info = LibInfo::new();
    let probed = probe_via_pkgconf(&store, &host, "A", false, &mut info);
    assert_eq!(probed, Ok(Some("A".to_string())));
    assert_eq!(info.link_paths, ["/l1", "/l2"]);
    assert_eq!(info.include_paths, ["/i1"]);
    assert!(info.headers.is_empty());
    assert!(info.directives.is_empty());

    let mut info = LibInfo::new();
    let probed = probe_via_pkgconf(&store, &host, "A", true, &mut info);
    assert_eq!(probed, Ok(Some("A".to_string())));
    assert_eq!(info, LibInfo::new());
}

#[test]
fn the_registry_gives_up_when_it_knows_no_name() {
    let store = store_with("A", record(&[], &["a-1", "a-2"]));
    let mut host = Host::new();
    host.record_package("A".to_string(), None);
    host.record_package("a-1".to_string(), None);
    let mut info = LibInfo::new();
    let probed = probe_via_pkgconf(&store, &host, "A", false, &mut info);
    assert_eq!(probed, Err(Halt::Needs(Query::Package("a-2".to_string()))));
    host.record_package("a-2".to_string(), None);
    let probed = probe_via_pkgconf(&store, &host, "A", false, &mut info);
    assert_eq!(probed, Ok(None));
    assert_eq!(info, LibInfo::new());
}

#[test]
fn the_search_derives_the_prefix_from_the_executable() {
    let store = store_with("A", record(&["a-config"], &[]));
    let mut host = Host::new();
    host.record_executable("a-config".to_string(), Some("/opt/a/bin/a-config\n".to_string()));
    let mut info = LibInfo::new();
    let probed = probe_via_search(&store, &host, "A", false, &mut info);
    assert_eq!(probed, Ok("/opt/a/include".to_string()));
    assert_eq!(info.link_paths, ["/opt/a/lib"]);
    assert_eq!(info.directives, [Directive::LinkSearch("/opt/a/lib".to_string())]);
    assert!(info.include_paths.is_empty());

    let mut info = LibInfo::new();
    let probed = probe_via_search(&store, &host, "A", true, &mut info);
    assert_eq!(probed, Ok("/opt/a/include".to_string()));
    assert_eq!(info, LibInfo::new());
}

#[test]
fn the_search_skips_executables_that_print_nothing() {
    let store = store_with("A", record(&["a0-config", "a-config"], &[]));
    let mut host = Host::new();
    host.record_executable("a0-config".to_string(), Some(String::new()));
    let mut info = LibInfo::new();
    let probed = probe_via_search(&store, &host, "A", true, &mut info);
    assert_eq!(probed, Err(Halt::Needs(Query::Executable("a-config".to_string()))));
    host.record_executable("a-config".to_string(), Some("/usr/local/bin/a-config".to_string()));
    let probed = probe_via_search(&store, &host, "A", true, &mut info);
    assert_eq!(probed, Ok("/usr/local/include".to_string()));
}

#[test]
fn the_search_needs_a_record() {
    let store = SpecStore::new();
    let mut info = LibInfo::new();
    let probed = probe_via_search(&store, &Host::new(), "A", false, &mut info);
    assert_eq!(probed, Err(Halt::Failed(Failure::NotFound, "A".to_string())));
}

#[test]
fn an_executable_in_the_root_has_no_prefix() {
    let store = store_with("A", record(&["a-config"], &[]));
    let mut host = Host::new();
    host.record_executable("a-config".to_string(), Some("/bin/a-config\n".to_string()));
    let mut info = LibInfo::new();
    let probed = probe_via_search(&store, &host, "A", true, &mut info);
    assert_eq!(probed, Ok("/include".to_string()));

    let mut host = Host::new();
    host.record_executable("a-config".to_string(), Some("bin/a-config\n".to_string()));
    let probed = probe_via_search(&store, &host, "A", true, &mut info);
    assert_eq!(probed, Ok("include".to_string()));

    let mut host = Host::new();
    host.record_executable("a-config".to_string(), Some("a-config\n".to_string()));
    let probed = probe_via_search(&store, &host, "A", true, &mut info);
    assert_eq!(probed, Err(Halt::Failed(Failure::OutsideBin, "a-config".to_string())));

    let mut host = Host::new();
    host.record_executable("a-config".to_string(), Some("\n".to_string()));
    let probed = probe_via_search(&store, &host, "A", true, &mut info);
    assert_eq!(probed, Err(Halt::Failed(Failure::OutsideBin, String::new())));
}

#[test]
fn probing_falls_back_to_the_search() {
    let store = store_with("A", record(&["a-config"], &[]));
    let mut host = Host::new();
    host.record_package("A".to_string(), None);
    host.record_executable("a-config".to_string(), Some("/opt/a/bin/a-config\n".to_string()));
    let mut info = LibInfo::new();
    let probed = probe_package(&store, &host, "A", false, &mut info).expect("A is found");
    assert_eq!(probed, ProbedEx::IncDir("/opt/a/include".to_string()));
    assert!(!probed.pkgconf_ok());

    let mut host = Host::new();
    host.record_package("A".to_string(), Some(package(&[], &[])));
    let mut info = LibInfo::new();
    let probed = probe_package(&store, &host, "A", false, &mut info).expect("A is found");
    assert_eq!(probed, ProbedEx::PcName("A".to_string()));
    assert!(probed.pkgconf_ok());
}

#[test]
fn the_include_directory_comes_from_where_the_package_was_found() {
    let mut host = Host::new();
    let by_name = ProbedEx::PcName("a-1".to_string());
    assert_eq!(get_includedir(&host, &by_name), Err(Halt::Needs(Query::IncludeDir("a-1".to_string()))));
    host.record_include_dir("a-1".to_string(), Some("/usr/include/a-1\n".to_string()));
    assert_eq!(get_includedir(&host, &by_name), Ok("/usr/include/a-1".to_string()));

    let by_prefix = ProbedEx::IncDir("/opt/a/include".to_string());
    assert_eq!(
        get_includedir(&host, &by_prefix),
        Err(Halt::Needs(Query::Path("/opt/a/include".to_string())))
    );
    host.record_path("/opt/a/include".to_string(), true);
    assert_eq!(get_includedir(&host, &by_prefix), Ok("/opt/a/include".to_string()));
    host.record_path("/opt/a/include".to_string(), false);
    assert_eq!(
        get_includedir(&host, &by_prefix),
        Err(Halt::Failed(Failure::MissingDirectory, "/opt/a/include".to_string()))
    );
}

#[test]
fn a_later_answer_replaces_an_earlier_one() {
    let mut host = Host::new();
    assert!(!host.answers(&Query::Path("/p".to_string())));
    host.record_path("/p".to_string(), false);
    assert!(host.answers(&Query::Path("/p".to_string())));
    assert!(!host.answers(&Query::Path("/q".to_string())));
    assert!(!host.answers(&Query::Package("/p".to_string())));
    assert_eq!(host.path("/p"), Some(false));
    host.record_path("/p".to_string(), true);
    assert_eq!(host.path("/p"), Some(true));
    assert_eq!(host.path("/q"), None);
    host.record_executable("e".to_string(), None);
    assert_eq!(host.executable("e"), Some(&None));
    assert!(host.answers(&Query::Executable("e".to_string())));
    host.record_include_dir("i".to_string(), Some("x".to_string()));
    assert_eq!(host.include_dir("i"), Some(&Some("x".to_string())));
    assert!(host.answers(&Query::IncludeDir("i".to_string())));
    host.record_package("p".to_string(), Some(package(&["/l"], &[])));
    assert_eq!(host.package("p"), Some(&Some(package(&["/l"], &[]))));
    assert!(host.answers(&Query::Package("p".to_string())));
}
