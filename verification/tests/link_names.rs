use clib::get_link_name;

#[test]
fn link_name_drops_prefix_and_extension() {
    assert_eq!(get_link_name("libfoo.so"), "foo");
    assert_eq!(get_link_name("libfoo.a"), "foo");
}

#[test]
fn link_name_without_prefix_keeps_the_stem() {
    assert_eq!(get_link_name("foo.lib"), "foo");
    assert_eq!(get_link_name("z.dll"), "z");
}

#[test]
fn link_name_cuts_at_the_last_dot() {
    assert_eq!(get_link_name("libfoo.so.1"), "foo.so");
    assert_eq!(get_link_name("libfoo"), "foo");
    assert_eq!(get_link_name("lib.so"), "");
    assert_eq!(get_link_name(""), "");
    assert_eq!(get_link_name("li.b"), "li");
}
