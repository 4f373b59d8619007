use cargo_member::{
    absolute_from, ensure_absolute, file_name_of, join, relative_to_root, same_location_exec,
    segments_of, trim_leading_dots,
};

#[test]
fn leading_dots_are_trimmed() {
    assert_eq!(trim_leading_dots("./a"), "a");
    assert_eq!(trim_leading_dots("././a/b"), "a/b");
    assert_eq!(trim_leading_dots("."), "");
    assert_eq!(trim_leading_dots(".hidden"), ".hidden");
    assert_eq!(trim_leading_dots("../a"), "../a");
    assert_eq!(trim_leading_dots("a/./b"), "a/./b");
    assert_eq!(trim_leading_dots("/./a"), "/./a");
}

#[test]
fn typed_paths_become_absolute() {
    assert_eq!(absolute_from("/home/u/ws", "./b"), "/home/u/ws/b");
    assert_eq!(absolute_from("/home/u/ws/", "b"), "/home/u/ws/b");
    assert_eq!(absolute_from("/home/u/ws", "/tmp/x"), "/tmp/x");
    assert_eq!(join("/a", "b/c"), "/a/b/c");
}

#[test]
fn absolute_paths() {
    assert!(ensure_absolute("/a").is_ok());
    assert!(ensure_absolute("a").is_err());
    assert!(ensure_absolute("").is_err());
}

#[test]
fn segments_drop_empty_and_dot_pieces() {
    let segs = segments_of("/a//./b/../c/");
    let expected: Vec<Vec<char>> = vec![vec!['a'], vec!['b'], vec!['.', '.'], vec!['c']];
    assert_eq!(segs, expected);
}

#[test]
fn locations_compare_by_segments() {
    assert!(same_location_exec("/ws", "a", "./a"));
    assert!(same_location_exec("/ws", "a/", "/ws/a"));
    assert!(!same_location_exec("/ws", "a", "b"));
    assert!(!same_location_exec("/ws", "a/../b", "b"));
}

#[test]
fn paths_relative_to_the_root() {
    assert_eq!(relative_to_root("/ws", "/ws/a/b"), "a/b");
    assert_eq!(relative_to_root("/ws/", "/ws//a/./b/"), "a/b");
    assert_eq!(relative_to_root("/ws", "/other/a"), "/other/a");
    assert_eq!(relative_to_root("/ws", "/wsx/a"), "/wsx/a");
}

#[test]
fn file_names() {
    assert_eq!(file_name_of("/ws/b").as_deref(), Some("b"));
    assert_eq!(file_name_of("/ws/b/").as_deref(), Some("b"));
    assert_eq!(file_name_of("/ws/.."), None);
    assert_eq!(file_name_of("/"), None);
}
