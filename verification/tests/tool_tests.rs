use booru_dl::tool::{file_name, normalize_tags, path_join, set_file_stem, u64_to_string,
    with_extension};

#[test]
fn test_set_file_stem() {
    let path = set_file_stem("/tmp/test.txt", "test2");
    assert_eq!(path, "/tmp/test2.txt");

    let path = set_file_stem("test.txt", "test2");
    assert_eq!(path, "test2.txt");
}

#[test]
fn set_file_stem_without_extension() {
    assert_eq!(set_file_stem("/tmp/name", "12"), "/tmp/12");
    assert_eq!(set_file_stem(".hidden", "12"), "12");
}

#[test]
fn with_extension_replaces_or_appends() {
    assert_eq!(with_extension("/dl/1234.jpg", "txt"), "/dl/1234.txt");
    assert_eq!(with_extension("/dl/1234", "txt"), "/dl/1234.txt");
    assert_eq!(with_extension("a.b/c", "txt"), "a.b/c.txt");
}

#[test]
fn path_join_inserts_one_separator() {
    assert_eq!(path_join("/dl", "1234.jpg"), "/dl/1234.jpg");
    assert_eq!(path_join("/dl/", "1234.jpg"), "/dl/1234.jpg");
    assert_eq!(path_join("", "1234.jpg"), "1234.jpg");
}

#[test]
fn file_name_is_last_component() {
    assert_eq!(file_name("/tmp/test.txt"), "test.txt");
    assert_eq!(file_name("test.txt"), "test.txt");
    assert_eq!(file_name("a/b/c"), "c");
}

#[test]
fn normalize_tags_spaces_become_comma_space() {
    assert_eq!(normalize_tags("a b"), "a, b");
    assert_eq!(normalize_tags("foo bar baz"), "foo, bar, baz");
    assert_eq!(normalize_tags("single"), "single");
    assert_eq!(normalize_tags(""), "");
}

#[test]
fn u64_to_string_renders_decimal() {
    assert_eq!(u64_to_string(0), "0");
    assert_eq!(u64_to_string(7), "7");
    assert_eq!(u64_to_string(100), "100");
    assert_eq!(u64_to_string(12345), "12345");
    assert_eq!(u64_to_string(u64::MAX), "18446744073709551615");
}
