use patch_gateway::text::{decimal_text, download_path, file_name, in_directory};

#[test]
fn numbers_are_written_in_decimal() {
    assert_eq!(decimal_text(0), "0");
    assert_eq!(decimal_text(7), "7");
    assert_eq!(decimal_text(10), "10");
    assert_eq!(decimal_text(99), "99");
    assert_eq!(decimal_text(100), "100");
    assert_eq!(decimal_text(1234), "1234");
    assert_eq!(decimal_text(32005), "32005");
    assert_eq!(decimal_text(65535), "65535");
}

#[test]
fn decimal_text_agrees_with_the_standard_library() {
    for n in 0..=65535u16 {
        assert_eq!(decimal_text(n), n.to_string());
    }
}

#[test]
fn file_name_is_what_follows_the_last_separator() {
    assert_eq!(file_name("a.txt"), "a.txt");
    assert_eq!(file_name("dir/b.txt"), "b.txt");
    assert_eq!(file_name("a/b/c"), "c");
    assert_eq!(file_name("/rooted"), "rooted");
    assert_eq!(file_name("dir/"), "");
    assert_eq!(file_name(""), "");
    assert_eq!(file_name("über/straße.txt"), "straße.txt");
}

#[test]
fn a_path_with_a_separator_names_a_directory() {
    assert!(!in_directory("a.txt"));
    assert!(in_directory("dir/b.txt"));
    assert!(in_directory("a/b/c"));
    assert!(in_directory("/rooted"));
    assert!(in_directory("dir/"));
    assert!(!in_directory(""));
    assert!(!in_directory("back\\slash"));
}

#[test]
fn download_path_joins_base_version_and_file() {
    assert_eq!(download_path("", 3, "a.txt"), "/3/a.txt");
    assert_eq!(download_path("/patches", 12, "dir/b.txt"), "/patches/12/dir/b.txt");
    assert_eq!(download_path("base", 0, ""), "base/0/");
    assert_eq!(download_path("x/", 65535, "y"), "x//65535/y");
}
