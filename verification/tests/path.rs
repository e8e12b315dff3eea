use rslint_staged::path::{join, relativize};
use rslint_staged::text::{chars_of, copy_texts};

#[test]
fn join_puts_a_separator_between() {
    assert_eq!(join("/repo", "src/a.js"), "/repo/src/a.js");
}

#[test]
fn join_adds_no_second_separator() {
    assert_eq!(join("/repo/", "a.js"), "/repo/a.js");
    assert_eq!(join("/", "a.js"), "/a.js");
}

#[test]
fn join_under_an_empty_root_is_the_path() {
    assert_eq!(join("", "a.js"), "a.js");
}

#[test]
fn join_of_an_absolute_path_is_the_path() {
    assert_eq!(join("/repo", "/etc/passwd"), "/etc/passwd");
}

#[test]
fn join_of_an_empty_path_ends_in_a_separator() {
    assert_eq!(join("/repo", ""), "/repo/");
}

#[test]
fn join_agrees_with_std() {
    for (root, path) in
        [("/repo", "a"), ("/repo/", "a/b"), ("", "a"), ("rel", "x.md"), ("/r", "/abs"), ("/r", "")]
    {
        let expected = std::path::Path::new(root).join(path);
        assert_eq!(join(root, path), expected.to_str().unwrap());
    }
}

#[test]
fn relativize_strips_the_base() {
    assert_eq!(relativize("/repo/src/a.js", "/repo"), "src/a.js");
    assert_eq!(relativize("/repo/src/a.js", "/repo/"), "src/a.js");
}

#[test]
fn relativize_leaves_a_path_outside_the_base() {
    assert_eq!(relativize("/other/a.js", "/repo"), "/other/a.js");
    assert_eq!(relativize("/repository/a.js", "/repo"), "/repository/a.js");
    assert_eq!(relativize("/repo", "/repo"), "/repo");
}

#[test]
fn relativize_from_an_empty_base_is_the_path() {
    assert_eq!(relativize("a/b.js", ""), "a/b.js");
}

#[test]
fn relativize_undoes_join() {
    for (root, path) in [("/repo", "a.js"), ("/repo/", "x/y.md"), ("", "a"), ("w", "\u{e9}.txt")] {
        assert_eq!(relativize(&join(root, path), root), path);
    }
}

#[test]
fn chars_of_lists_the_characters() {
    assert_eq!(chars_of("a\u{e9}/"), vec!['a', '\u{e9}', '/']);
    assert_eq!(chars_of(""), Vec::<char>::new());
}

#[test]
fn copy_texts_copies_each_text() {
    let texts = vec!["a".to_string(), "".to_string(), "b c".to_string()];
    assert_eq!(copy_texts(&texts), texts);
}
