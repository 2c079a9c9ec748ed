use guarded_fs::either::Either::{Left, Right};
use guarded_fs::paths::{path_parse_relative_path, path_remove_ancestor, path_to_native_path};

#[test]
fn strip_ancestor_no_ancestor() {
    assert_eq!(
        path_remove_ancestor("/bar".to_string(), "/foo/test.txt".to_string()),
        Ok(Left("Could not strip ancestor directory".to_string()))
    );
}

#[test]
fn strip_ancestor_ok() {
    assert_eq!(
        path_remove_ancestor("/foo".to_string(), "/foo/test.txt".to_string()),
        Ok(Right("./test.txt".to_string()))
    );
}

#[test]
fn strip_ancestor_whole_path() {
    // the ancestor is the whole path: the empty remainder joins to "./"
    assert_eq!(
        path_remove_ancestor("/foo".to_string(), "/foo".to_string()),
        Ok(Right("./".to_string()))
    );
}

#[test]
fn strip_ancestor_multi_level() {
    assert_eq!(
        path_remove_ancestor("/a/b".to_string(), "/a/b/c/d.txt".to_string()),
        Ok(Right("./c/d.txt".to_string()))
    );
}

#[test]
fn empty_list() {
    assert_eq!(path_to_native_path(vec![]), Ok("".to_string()));
}

#[test]
fn colon() {
    assert_eq!(path_to_native_path(vec![":".to_string()]), Ok(":".to_string()));
}

#[test]
fn empty_string() {
    assert_eq!(path_to_native_path(vec!["".to_string()]), Ok("".to_string()));
}

#[test]
fn empty_string_and_legal_name() {
    assert_eq!(
        path_to_native_path(vec!["".to_string(), ".git".to_string()]),
        Ok(".git".to_string())
    );
}

#[test]
fn space() {
    assert_eq!(path_to_native_path(vec![" ".to_string()]), Ok(" ".to_string()));
}

#[test]
fn slash() {
    assert_eq!(path_to_native_path(vec!["/".to_string()]), Ok("/".to_string()));
}

#[test]
fn double_absolute() {
    let elems: Vec<String> = ["/", "etc", "/", "var"].iter().map(|s| s.to_string()).collect();
    assert_eq!(path_to_native_path(elems), Ok("/var".to_string()));
}

#[test]
fn parse_absolute_collapses_separators() {
    assert_eq!(
        path_parse_relative_path("/a//b/./c".to_string()),
        Ok(vec!["/".to_string(), "a".to_string(), "b".to_string(), "c".to_string()])
    );
}

#[test]
fn parse_relative_keeps_leading_cur_dir() {
    assert_eq!(
        path_parse_relative_path("./x/y".to_string()),
        Ok(vec![".".to_string(), "x".to_string(), "y".to_string()])
    );
}

#[test]
fn parse_empty_path() {
    assert_eq!(path_parse_relative_path("".to_string()), Ok(vec![]));
}
