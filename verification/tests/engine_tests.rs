use syncy::event::Event;
use syncy::fixtures::workdir_path::create_glob_single;
use syncy::fixtures::workdir_path::create_glob_single_with_exclude;
use syncy::fixtures::workdir_path::create_workdir_path;
use syncy::git_tree::EngineError;
use syncy::git_tree::Node;
use syncy::git_tree::Tree;
use syncy::transform::CustomRegex;
use syncy::transform::MoveArgs;
use syncy::transform::ReplaceArgs;
use syncy::transform::Transformation;

fn node(path: &str, content: Option<&str>, sha: &str) -> Node {
    Node {
        path: path.to_string(),
        content: content.map(|c| c.to_string()),
        git_url: "".to_string(),
        sha: sha.to_string(),
    }
}

fn tree_of(entries: &[(&str, Option<&str>, &str)]) -> Tree {
    let mut tree = Tree::new();
    for (path, content, sha) in entries {
        tree.insert(path.to_string(), node(path, *content, sha));
    }
    tree
}

fn move_rule(before: &str, after: &str) -> Transformation {
    Transformation::Move {
        args: MoveArgs {
            before: before.to_string(),
            after: after.to_string(),
        },
    }
}

fn replace_rule(before: &str, after: &str) -> Transformation {
    Transformation::Replace {
        args: ReplaceArgs {
            before: CustomRegex(before.to_string()),
            after: after.to_string(),
        },
    }
}

#[test]
fn git_tree_test_success() {
    let mut tree = Tree::new();

    tree.insert(
        "folder/file1".to_string(),
        Node {
            path: "folder/file1".to_string(),
            content: Some("".to_string()),
            git_url: "".to_string(),
            sha: "x132".to_string(),
        },
    );
    tree.insert(
        "folder/folder2/file2".to_string(),
        Node {
            path: "folder/folder2/file2".to_string(),
            content: Some("".to_string()),
            git_url: "".to_string(),
            sha: "x132".to_string(),
        },
    );
    tree.insert(
        "folder/file3".to_string(),
        Node {
            path: "folder/file3".to_string(),
            content: Some("".to_string()),
            git_url: "".to_string(),
            sha: "x132".to_string(),
        },
    );

    let glob = create_glob_single("folder/folder2/**");

    let new_tree = tree.transform_tree(&glob, "").unwrap();

    let mut expected_tree = Tree::new();
    expected_tree.insert(
        "folder/folder2/file2".to_string(),
        Node {
            path: "folder/folder2/file2".to_string(),
            content: Some("".to_string()),
            git_url: "".to_string(),
            sha: "x132".to_string(),
        },
    );

    assert_eq!(new_tree, expected_tree);
}

#[test]
fn path_selector_is_identity() {
    let tree = tree_of(&[("a/x", Some("1"), "s1"), ("b/y", Some("2"), "s2")]);
    let expected = tree_of(&[("a/x", Some("1"), "s1"), ("b/y", Some("2"), "s2")]);
    let filtered = tree.transform_tree(&create_workdir_path("anything"), "root").unwrap();
    assert_eq!(filtered, expected);
}

#[test]
fn filter_strips_root_prefix_once() {
    let tree = tree_of(&[("base/docs/readme", Some("c"), "s")]);
    let filtered = tree
        .transform_tree(&create_glob_single("base/**"), "base")
        .unwrap();
    let mut expected = Tree::new();
    expected.insert("docs/readme".to_string(), node("base/docs/readme", Some("c"), "s"));
    assert_eq!(filtered, expected);
}

#[test]
fn filter_reports_duplicate_key_after_strip() {
    let tree = tree_of(&[("x", Some("outer"), "s1"), ("a/x", Some("inner"), "s2")]);
    let result = tree.transform_tree(&create_glob_single("*x"), "a");
    assert_eq!(result, Err(EngineError::DuplicateKey("x".to_string())));
}

#[test]
fn filter_rejects_invalid_glob_pattern() {
    let tree = tree_of(&[("a", Some("c"), "s")]);
    let glob = create_glob_single("a[");
    let result = tree.transform_tree(&glob, "");
    assert_eq!(result, Err(EngineError::InvalidGlobPattern("a[".to_string())));
}

#[test]
fn exclude_removes_matches_and_keeps_the_rest() {
    let tree = tree_of(&[
        ("readme", Some("r"), "s1"),
        ("a", Some("a"), "s2"),
        ("folder/b", Some("b"), "s3"),
    ]);
    let glob = create_glob_single_with_exclude("**", "readme");
    let filtered = tree.transform_tree(&glob, "").unwrap();
    let expected = tree_of(&[("a", Some("a"), "s2"), ("folder/b", Some("b"), "s3")]);
    assert_eq!(filtered, expected);
}

#[test]
fn move_rewrites_on_segment_boundary_only() {
    let tree = tree_of(&[("a/x", Some("1"), "s1"), ("ax", Some("2"), "s2")]);
    let rules = Some(vec![move_rule("a", "b")]);
    let moved = tree.apply_transformations(&rules).unwrap();
    let mut expected = Tree::new();
    expected.insert("b/x".to_string(), node("a/x", Some("1"), "s1"));
    expected.insert("ax".to_string(), node("ax", Some("2"), "s2"));
    assert_eq!(moved, expected);
}

#[test]
fn later_move_wins_and_rewrites_from_the_original_path() {
    let tree = tree_of(&[("a/x", Some("1"), "s1")]);
    let rules = Some(vec![move_rule("a", "b"), move_rule("a", "c")]);
    let moved = tree.apply_transformations(&rules).unwrap();
    let mut expected = Tree::new();
    expected.insert("c/x".to_string(), node("a/x", Some("1"), "s1"));
    assert_eq!(moved, expected);
}

#[test]
fn absent_transformations_leave_the_tree_alone() {
    let tree = tree_of(&[("a/x", Some("1"), "s1")]);
    let expected = tree_of(&[("a/x", Some("1"), "s1")]);
    assert_eq!(tree.apply_transformations(&None).unwrap(), expected);
}

#[test]
fn move_collision_is_reported_not_overwritten() {
    let tree = tree_of(&[("a/x", Some("1"), "s1"), ("b/x", Some("2"), "s2")]);
    let rules = Some(vec![move_rule("a", "b")]);
    let result = tree.apply_transformations(&rules);
    assert_eq!(result, Err(EngineError::DuplicateKey("b/x".to_string())));
}

#[test]
fn replace_substitutes_every_match_with_the_literal() {
    let tree = tree_of(&[("a", Some("kekw kek"), "s1"), ("b", None, "s2")]);
    let rules = Some(vec![replace_rule("kek", "lol")]);
    let replaced = tree.apply_transformations(&rules).unwrap();
    let expected = tree_of(&[("a", Some("lolw lol"), "s1"), ("b", None, "s2")]);
    assert_eq!(replaced, expected);
}

#[test]
fn replace_replacement_is_literal_not_expanded() {
    let tree = tree_of(&[("a", Some("one two"), "s1")]);
    let rules = Some(vec![replace_rule("(one) (two)", "$2 $1")]);
    let replaced = tree.apply_transformations(&rules).unwrap();
    let expected = tree_of(&[("a", Some("$2 $1"), "s1")]);
    assert_eq!(replaced, expected);
}

#[test]
fn invalid_replace_regex_is_reported() {
    let tree = tree_of(&[("a", Some("c"), "s1")]);
    let rules = Some(vec![replace_rule("(", "x")]);
    let result = tree.apply_transformations(&rules);
    assert_eq!(
        result,
        Err(EngineError::InvalidRegexPattern("(".to_string()))
    );
}

#[test]
fn insert_replaces_the_entry_with_the_same_key() {
    let mut tree = Tree::new();
    tree.insert("a".to_string(), node("a", Some("old"), "s1"));
    tree.insert("a".to_string(), node("a", Some("new"), "s2"));
    assert_eq!(tree.len(), 1);
    assert_eq!(tree.get("a"), Some(&node("a", Some("new"), "s2")));
    assert_eq!(tree.get("missing"), None);
}

#[test]
fn diff_of_identical_trees_is_one_update_per_key() {
    let tree = tree_of(&[("a", Some("1"), "r1"), ("b/c", Some("2"), "r2")]);
    let same = tree_of(&[("a", Some("1"), "r1"), ("b/c", Some("2"), "r2")]);
    let events = tree.generate_events(&same);
    assert_eq!(
        events,
        vec![
            Event::Update {
                path: "a".to_string(),
                content: Some("1".to_string()),
                sha: "r1".to_string(),
            },
            Event::Update {
                path: "b/c".to_string(),
                content: Some("2".to_string()),
                sha: "r2".to_string(),
            },
        ]
    );
}

#[test]
fn end_to_end_filter_move_diff() {
    let source = tree_of(&[
        ("folder/test2", Some("c2"), "s2"),
        ("folder/test3", Some("c3"), "s3"),
        ("test1", Some("c1"), "s1"),
    ]);

    let filtered = source
        .transform_tree(&create_glob_single("folder/**"), "")
        .unwrap();
    let transformed = filtered
        .apply_transformations(&Some(vec![move_rule("", "repo_one_folder")]))
        .unwrap();

    let mut transformed_keys: Vec<String> = Vec::new();
    for i in 0..transformed.len() {
        transformed_keys.push(transformed.entry_at(i).key.clone());
    }
    transformed_keys.sort();
    assert_eq!(
        transformed_keys,
        vec![
            "repo_one_folder/folder/test2".to_string(),
            "repo_one_folder/folder/test3".to_string(),
        ]
    );

    let destination = tree_of(&[
        ("repo_one_folder/test1", Some("d1"), "r1"),
        ("repo_one_folder/folder/test2", Some("d2"), "r2"),
        ("repo_one_folder/folder/test4", Some("d3"), "r3"),
    ]);

    let mut events = transformed.generate_events(&destination);
    events.sort();

    let expected = vec![
        Event::Create {
            path: "repo_one_folder/folder/test3".to_string(),
            content: Some("c3".to_string()),
        },
        Event::Update {
            path: "repo_one_folder/folder/test2".to_string(),
            content: Some("c2".to_string()),
            sha: "r2".to_string(),
        },
        Event::Delete {
            path: "repo_one_folder/folder/test4".to_string(),
            sha: "r3".to_string(),
        },
        Event::Delete {
            path: "repo_one_folder/test1".to_string(),
            sha: "r1".to_string(),
        },
    ];
    assert_eq!(events, expected);
}
