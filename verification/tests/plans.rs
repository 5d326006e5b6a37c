use clib::{plan, LibInfo, Plan};

fn texts(items: &[&str]) -> Vec<String> {
    items.iter().map(|item| item.to_string()).collect()
}

#[test]
fn without_headers_only_a_placeholder_is_generated() {
    assert_eq!(plan(&LibInfo::new()), Plan::Placeholder);
    let mut info = LibInfo::new();
    info.include_paths = texts(&["/usr/include"]);
    info.link_paths = texts(&["/usr/lib"]);
    assert_eq!(plan(&info), Plan::Placeholder);
}

#[test]
fn each_include_path_becomes_a_search_argument() {
    let mut info = LibInfo::new();
    info.headers = texts(&["/usr/include/a.h", "/opt/b/include/b.h"]);
    info.include_paths = texts(&["/usr/include/h", "/opt/x y/include", ""]);
    assert_eq!(
        plan(&info),
        Plan::Generate {
            headers: texts(&["/usr/include/a.h", "/opt/b/include/b.h"]),
            clang_args: texts(&["-I/usr/include/h", "-I/opt/x y/include", "-I"]),
        }
    );
}

#[test]
fn appending_keeps_what_was_there() {
    let mut all = LibInfo::default();
    assert_eq!(all, LibInfo::new());
    all.headers = texts(&["a.h"]);
    let mut more = LibInfo::new();
    more.headers = texts(&["b.h"]);
    more.link_paths = texts(&["/l"]);
    all.append(more);
    assert_eq!(all.headers, ["a.h", "b.h"]);
    assert_eq!(all.link_paths, ["/l"]);
    all.append(LibInfo::new());
    assert_eq!(all.headers, ["a.h", "b.h"]);
}
