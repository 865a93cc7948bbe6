use rustfilelooper::stem::remove_extension;

#[test]
fn strip_extension_examples() {
    assert_eq!(remove_extension("file.tar.gz"), "file.tar");
    assert_eq!(remove_extension("noext"), "noext");
    assert_eq!(remove_extension(".hidden"), ".hidden");
}

#[test]
fn strip_extension_edge_names() {
    assert_eq!(remove_extension(""), "");
    assert_eq!(remove_extension("."), ".");
    assert_eq!(remove_extension(".."), "..");
    assert_eq!(remove_extension("..."), "..");
    assert_eq!(remove_extension("a."), "a");
    assert_eq!(remove_extension(".hidden.txt"), ".hidden");
    assert_eq!(remove_extension("report_v1.txt"), "report_v1");
}

#[test]
fn strip_extension_of_a_path_keeps_the_file_stem() {
    assert_eq!(remove_extension("dir/file.txt"), "file");
}

#[test]
fn strip_extension_of_plain_names_with_several_dots() {
    assert_eq!(remove_extension("..a"), ".");
    assert_eq!(remove_extension("a.b.c.d"), "a.b.c");
}
