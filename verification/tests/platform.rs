use clib::{active_dependencies, check_os, match_os, Dependency, Platform};

fn platform(os: &str, unix: bool) -> Platform {
    Platform { os: os.to_string(), unix }
}

fn dependency(name: &str, os: Option<&str>) -> Dependency {
    Dependency { name: name.to_string(), os: os.map(|os| os.to_string()) }
}

#[test]
fn each_known_system_matches_itself_only() {
    let known = [
        "android", "dragonfly", "freebsd", "ios", "linux", "macos", "netbsd", "openbsd", "windows",
    ];
    for target in known {
        for name in known {
            assert_eq!(match_os(name, &platform(target, target != "windows")), name == target);
        }
    }
}

#[test]
fn unix_names_the_family() {
    assert!(match_os("unix", &platform("linux", true)));
    assert!(match_os("unix", &platform("solaris", true)));
    assert!(!match_os("unix", &platform("windows", false)));
}

#[test]
fn an_unknown_name_matches_nothing() {
    assert!(!match_os("solaris", &platform("solaris", true)));
    assert!(!match_os("", &platform("", true)));
    assert!(!match_os("Linux", &platform("linux", true)));
    assert!(!match_os("posix", &platform("linux", true)));
}

#[test]
fn a_dependency_without_a_filter_is_always_probed() {
    assert!(check_os(&dependency("z", None), &platform("linux", true)));
    assert!(check_os(&dependency("z", None), &platform("windows", false)));
}

#[test]
fn a_dependency_is_probed_where_its_filter_matches() {
    assert!(check_os(&dependency("z", Some("linux")), &platform("linux", true)));
    assert!(check_os(&dependency("z", Some("unix")), &platform("linux", true)));
    assert!(!check_os(&dependency("z", Some("windows")), &platform("linux", true)));
    assert!(!check_os(&dependency("z", Some("beos")), &platform("linux", true)));
}

#[test]
fn active_dependencies_keep_the_declared_order() {
    let declared = vec![
        dependency("a", None),
        dependency("b", Some("windows")),
        dependency("c", Some("linux")),
        dependency("d", Some("unix")),
        dependency("e", Some("macos")),
        dependency("a", Some("linux")),
    ];
    assert_eq!(active_dependencies(&declared, &platform("linux", true)), ["a", "c", "d", "a"]);
    assert_eq!(active_dependencies(&declared, &platform("windows", false)), ["a", "b"]);
    assert_eq!(active_dependencies(&declared, &platform("macos", true)), ["a", "d", "e"]);
    assert!(active_dependencies(&Vec::new(), &platform("linux", true)).is_empty());
}

#[test]
fn a_dependency_for_another_platform_might_as_well_be_absent() {
    let declared = vec![
        dependency("a", None),
        dependency("w", Some("windows")),
        dependency("c", Some("linux")),
    ];
    let without = vec![dependency("a", None), dependency("c", Some("linux"))];
    let here = platform("linux", true);
    assert_eq!(active_dependencies(&declared, &here), active_dependencies(&without, &here));
    assert_eq!(active_dependencies(&declared, &here), ["a", "c"]);
}
