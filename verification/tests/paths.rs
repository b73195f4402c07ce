//! Paths: splitting, normalizing and joining.

use android_ext4::utils::{
    is_dot, is_dot_dot, join_path, path_names, split_segments, Error, Lead, NormalizePath,
};

fn chars(text: &str) -> Vec<char> {
    text.chars().collect()
}

fn reason_of(path: &str) -> &'static str {
    match path.normalize() {
        Err(Error::InvalidPath { path: named, reason }) => {
            assert_eq!(named, path);
            reason
        }
        other => panic!("{} gave {:?}", path, other),
    }
}

#[test]
fn paths_are_split_at_their_separators() {
    let parts = split_segments(&chars("/a//bc/./d/"));
    assert_eq!(parts, vec![chars("a"), chars("bc"), chars("."), chars("d")]);
    assert!(split_segments(&chars("")).is_empty());
    assert!(split_segments(&chars("///")).is_empty());
    assert_eq!(split_segments(&chars("x")), vec![chars("x")]);
    assert!(is_dot(&chars(".")));
    assert!(!is_dot(&chars("..")));
    assert!(!is_dot(&chars("a")));
    assert!(!is_dot(&chars("")));
    assert!(is_dot_dot(&chars("..")));
    assert!(!is_dot_dot(&chars(".")));
    assert!(!is_dot_dot(&chars("...")));
    assert!(!is_dot_dot(&chars(".a")));
}

#[test]
fn normal_forms() {
    let cases = [
        ("", ""),
        ("/", "/"),
        ("//", "/"),
        ("/a/b", "/a/b"),
        ("/a/b/", "/a/b"),
        ("a//b/", "a/b"),
        ("a", "a"),
        (".", "."),
        ("./", "."),
        ("./a", "./a"),
        ("./a/./b", "./a/b"),
        ("/.", "/"),
        ("/./a", "/a"),
        ("a/./b", "a/b"),
        ("a/.", "a"),
        ("/a/./b/../c", "/a/c"),
        ("/a/..", "/"),
        ("a/..", ""),
        ("./a/..", "."),
        ("a/b/../../c", "c"),
        ("/a/b/c/../../d", "/a/d"),
        ("/...", "/..."),
        ("/.a/..b", "/.a/..b"),
        ("/système/é", "/système/é"),
        ("C:", "C:"),
        ("a/C:/b", "a/C:/b"),
        ("/a/C:/../b", "/a/b"),
        ("C:\\a\\..", "C:\\a\\.."),
    ];
    for (path, normal) in cases {
        assert_eq!(path.normalize().unwrap(), normal, "for {:?}", path);
    }
}

#[test]
fn paths_that_leave_their_start_are_refused() {
    assert_eq!(reason_of(".."), "path cannot start with parent directory reference");
    assert_eq!(reason_of("../a"), "path cannot start with parent directory reference");
    assert_eq!(reason_of("/.."), "parent directory reference goes above root");
    assert_eq!(reason_of("/../a"), "parent directory reference goes above root");
    assert_eq!(reason_of("./.."), "parent directory reference goes above root");
    assert_eq!(reason_of("a/../.."), "parent directory reference goes above root");
    assert_eq!(reason_of("/a/b/../../../c"), "parent directory reference goes above root");
}

#[test]
fn normalizing_twice_changes_nothing() {
    for path in ["", "/", ".", "./a/../b", "/a/./b/../c", "a//b/", "x/y/../../z", "/.a/"] {
        let once = path.normalize().unwrap();
        let twice = once.as_str().normalize().unwrap();
        assert_eq!(twice, once, "for {:?}", path);
    }
}

#[test]
fn the_names_of_a_path_come_with_its_lead() {
    let (lead, names) = path_names("/a/./b/../c").unwrap();
    assert_eq!(lead, Lead::Root);
    assert_eq!(names, vec![chars("a"), chars("c")]);
    let (lead, names) = path_names("./x").unwrap();
    assert_eq!(lead, Lead::Current);
    assert_eq!(names, vec![chars("x")]);
    let (lead, names) = path_names("x/y").unwrap();
    assert_eq!(lead, Lead::Bare);
    assert_eq!(names, vec![chars("x"), chars("y")]);
    assert!(matches!(path_names("x/../.."), Err(Error::InvalidPath { .. })));
}

#[test]
fn a_name_is_joined_to_a_directory_by_one_separator() {
    assert_eq!(join_path("/", "a"), "/a");
    assert_eq!(join_path("/a", "b"), "/a/b");
    assert_eq!(join_path("/a/", "b"), "/a/b");
    assert_eq!(join_path("", "b"), "/b");
    assert_eq!(join_path("/a", ""), "/a/");
    assert_eq!(join_path("/é", "ü"), "/é/ü");
}
