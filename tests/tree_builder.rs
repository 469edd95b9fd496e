use git_chest::error::AppError;
use git_chest::tree::{build_tree, GitHubAPIRepoTreeItem, TreeBuilder};

fn entry(path: &str, kind: &str) -> GitHubAPIRepoTreeItem {
    GitHubAPIRepoTreeItem {
        path: path.to_string(),
        mode: if kind == "tree" { "040000".to_string() } else { "100644".to_string() },
        sha: format!("sha-{path}"),
        kind: kind.to_string(),
        size: if kind == "tree" { None } else { Some(12) },
    }
}

#[test]
fn end_to_end_three_entries() {
    let entries = vec![entry("a", "tree"), entry("a/b", "blob"), entry("c", "blob")];
    let items = build_tree(&entries, 1).unwrap();
    assert_eq!(items.len(), 3);
    assert_eq!(items[0].path, "a");
    assert_eq!(items[0].parent_id, None);
    assert_eq!(items[2].path, "c");
    assert_eq!(items[2].parent_id, None);
    assert_eq!(items[1].path, "a/b");
    assert_eq!(items[1].parent_id, Some(items[0].id));
    assert_eq!(items[0].id, 1);
    assert_eq!(items[1].id, 2);
    assert_eq!(items[2].id, 3);
    assert_eq!(items[1].sha, "sha-a/b");
    assert_eq!(items[1].size, Some(12));
}

#[test]
fn colliding_basenames_resolve_to_last_registered() {
    let entries = vec![
        entry("src", "tree"),
        entry("src/utils", "tree"),
        entry("lib", "tree"),
        entry("lib/utils", "tree"),
        entry("src/utils/a.rs", "blob"),
    ];
    let items = build_tree(&entries, 10).unwrap();
    assert_eq!(items.len(), 5);
    // `src/utils/a.rs` resolves through the basename `utils`, which the
    // later directory `lib/utils` (id 13) took over from `src/utils` (id 11).
    assert_eq!(items[4].parent_id, Some(13));
    assert_eq!(items[1].parent_id, Some(10));
    assert_eq!(items[3].parent_id, Some(12));
}

#[test]
fn directories_first_gives_one_item_per_entry() {
    let entries = vec![
        entry("docs", "tree"),
        entry("docs/guide", "tree"),
        entry("docs/guide/intro.md", "blob"),
        entry("README.md", "blob"),
        entry("docs/index.md", "blob"),
    ];
    let items = build_tree(&entries, 100).unwrap();
    assert_eq!(items.len(), entries.len());
    for item in &items {
        match item.parent_id {
            None => assert!(!item.path.contains('/')),
            Some(p) => {
                let parent = items.iter().find(|i| i.id == p).unwrap();
                assert_eq!(parent.kind, "tree");
                let segs: Vec<&str> = item.path.split('/').collect();
                let parent_last = parent.path.split('/').last().unwrap();
                assert_eq!(parent_last, segs[segs.len() - 2]);
            }
        }
    }
    assert_eq!(items[2].parent_id, Some(101));
    assert_eq!(items[4].parent_id, Some(100));
}

#[test]
fn child_before_directory_is_parent_not_found() {
    let entries = vec![entry("a/b", "blob"), entry("a", "tree")];
    match build_tree(&entries, 1) {
        Err(AppError::ParentNotFound(p)) => assert_eq!(p, "a/b"),
        other => panic!("unexpected: {:?}", other),
    }
}

#[test]
fn blob_does_not_register_as_parent() {
    let entries = vec![entry("a", "blob"), entry("a/b", "blob")];
    assert!(matches!(build_tree(&entries, 1), Err(AppError::ParentNotFound(_))));
}

#[test]
fn empty_listing_gives_no_items() {
    let entries: Vec<GitHubAPIRepoTreeItem> = Vec::new();
    assert_eq!(build_tree(&entries, 1).unwrap().len(), 0);
}

#[test]
fn incremental_builder_with_external_ids() {
    let mut b = TreeBuilder::new();
    assert_eq!(b.parent_of("top").unwrap(), None);
    b.record("top", "tree", 42);
    assert_eq!(b.lookup("top"), Some(42));
    assert_eq!(b.parent_of("top/file.txt").unwrap(), Some(42));
    b.record("top/file.txt", "blob", 43);
    assert_eq!(b.lookup("file.txt"), None);
    assert!(b.parent_of("other/x").is_err());
    b.record("x/top", "tree", 50);
    assert_eq!(b.parent_of("x/top/y").unwrap(), Some(50));
}
