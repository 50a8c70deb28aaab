use test_fork::fix_module_path;

#[test]
fn module_path_loses_its_crate_name() {
    assert_eq!(fix_module_path("my_crate::tests::works"), "tests::works");
}

#[test]
fn module_path_without_separator_is_kept() {
    assert_eq!(fix_module_path("works"), "works");
    assert_eq!(fix_module_path(""), "");
    assert_eq!(fix_module_path("a:b"), "a:b");
}

#[test]
fn module_path_is_cut_at_the_first_separator_only() {
    assert_eq!(fix_module_path("a::b::c"), "b::c");
    assert_eq!(fix_module_path("::b"), "b");
    assert_eq!(fix_module_path("a::"), "");
    assert_eq!(fix_module_path(":::"), ":");
    assert_eq!(fix_module_path("\u{e9}t\u{e9}::\u{fc}ber"), "\u{fc}ber");
}
