use crabmake::paths::{join, strip_prefix, with_extension};
use crabmake::text::{chars_of, concat2, concat3, push_all, str_eq, string_of};

#[test]
fn join_adds_one_separator() {
    assert_eq!(join("/proj", "build"), "/proj/build");
    assert_eq!(join("/proj/", "build"), "/proj/build");
}

#[test]
fn join_with_absolute_path_replaces() {
    assert_eq!(join("/proj", "/usr/include/stdio.h"), "/usr/include/stdio.h");
}

#[test]
fn join_with_empty_path() {
    assert_eq!(join("/proj", ""), "/proj/");
}

#[test]
fn strip_prefix_by_components() {
    assert_eq!(strip_prefix("/proj/src/main.c", "/proj"), Some("src/main.c".to_string()));
    assert_eq!(strip_prefix("/proj", "/proj"), Some(String::new()));
    assert_eq!(strip_prefix("/projects/main.c", "/proj"), None);
    assert_eq!(strip_prefix("/other/main.c", "/proj"), None);
}

#[test]
fn with_extension_replaces_extension() {
    assert_eq!(with_extension("/b/src/main.c", "o"), "/b/src/main.o");
    assert_eq!(with_extension("/b/src/main", "d"), "/b/src/main.d");
    assert_eq!(with_extension("/b/src/lib.tar.gz", "o"), "/b/src/lib.tar.o");
}

#[test]
fn text_helpers() {
    assert_eq!(chars_of("héllo"), vec!['h', 'é', 'l', 'l', 'o']);
    assert_eq!(string_of(&vec!['a', 'b']), "ab");
    assert!(str_eq("c++", "c++"));
    assert!(!str_eq("c", "c++"));
    assert!(!str_eq("cpp", "c++"));
    assert_eq!(concat2("-std=", "c17"), "-std=c17");
    assert_eq!(concat3("a", "b", "c"), "abc");
    let mut v = vec!["x".to_string()];
    push_all(&mut v, &vec!["y".to_string(), "z".to_string()]);
    assert_eq!(v, vec!["x", "y", "z"]);
}
