use rslint_staged::repo::{Delta, DiffBase, HeadState, Repo};

fn delta(old: Option<&str>, new: Option<&str>) -> Delta {
    Delta { old_path: old.map(|s| s.to_string()), new_path: new.map(|s| s.to_string()) }
}

fn repo(root: &str, deltas: Vec<Delta>) -> Repo {
    Repo { root: root.to_string(), deltas }
}

#[test]
fn a_path_on_both_sides_is_listed_once() {
    let files = repo("/repo", vec![delta(Some("a.js"), Some("a.js"))]).staged_files();
    assert_eq!(files, vec!["/repo/a.js".to_string()]);
}

#[test]
fn a_rename_lists_the_old_path_and_then_the_new_one() {
    let files = repo("/repo", vec![delta(Some("old.js"), Some("new.js"))]).staged_files();
    assert_eq!(files, vec!["/repo/old.js".to_string(), "/repo/new.js".to_string()]);
}

#[test]
fn additions_and_deletions_have_one_side() {
    let files =
        repo("/repo", vec![delta(None, Some("added.md")), delta(Some("gone.md"), None)])
            .staged_files();
    assert_eq!(files, vec!["/repo/added.md".to_string(), "/repo/gone.md".to_string()]);
}

#[test]
fn a_path_named_again_later_stays_where_it_was_first() {
    let files = repo(
        "/r",
        vec![
            delta(Some("a"), Some("b")),
            delta(Some("c"), Some("c")),
            delta(Some("b"), Some("a")),
            delta(None, Some("d")),
        ],
    )
    .staged_files();
    assert_eq!(
        files,
        vec!["/r/a".to_string(), "/r/b".to_string(), "/r/c".to_string(), "/r/d".to_string()]
    );
}

#[test]
fn no_delta_gives_no_staged_file() {
    assert_eq!(repo("/repo", Vec::new()).staged_files(), Vec::<String>::new());
    assert_eq!(repo("/repo", vec![delta(None, None)]).staged_files(), Vec::<String>::new());
}

#[test]
fn a_repository_without_a_commit_is_compared_with_the_empty_tree() {
    assert_eq!(HeadState::Unborn.diff_base(), DiffBase::EmptyTree);
    assert_eq!(HeadState::Born.diff_base(), DiffBase::HeadTree);
}

#[test]
fn every_entry_of_the_index_of_a_fresh_repository_is_staged() {
    let index = ["README.md", "src/main.rs", "src/lib.rs"];
    let deltas = index.iter().map(|p| delta(Some(p), Some(p))).collect();
    let files = repo("/fresh", deltas).staged_files();
    assert_eq!(
        files,
        vec![
            "/fresh/README.md".to_string(),
            "/fresh/src/main.rs".to_string(),
            "/fresh/src/lib.rs".to_string()
        ]
    );
}
