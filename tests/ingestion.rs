use git_chest::error::AppError;
use git_chest::pipeline::{find_readme, IngestAction, IngestEvent, Ingestion};
use git_chest::progress::AddRepoProgress;
use git_chest::tree::{build_tree, GitHubAPIRepoTreeItem, RepoTreeItem};

fn entry(path: &str, kind: &str) -> GitHubAPIRepoTreeItem {
    GitHubAPIRepoTreeItem {
        path: path.to_string(),
        mode: "100644".to_string(),
        sha: "0".to_string(),
        kind: kind.to_string(),
        size: None,
    }
}

fn is_network(a: IngestAction) -> bool {
    matches!(
        a,
        IngestAction::FetchMetadata
            | IngestAction::FetchTree
            | IngestAction::FetchReadme
            | IngestAction::StoreReadme
            | IngestAction::InsertOwner
    )
}

#[test]
fn duplicate_repository_fails_before_any_network_call() {
    let mut run = Ingestion::new("github", "octo", "hello");
    assert_eq!(run.action(), IngestAction::CheckRepoExists);
    run.step(IngestEvent::RepoExists(Ok(true)));
    assert_eq!(run.action(), IngestAction::Finish);
    assert!(!is_network(run.action()));
    assert!(matches!(run.outcome(), Some(Err(AppError::Validation(_)))));
    assert!(run.progress().events().is_empty());
    run.step(IngestEvent::MetadataStored(Ok("main".to_string())));
    assert_eq!(run.action(), IngestAction::Finish);
    assert!(matches!(run.outcome(), Some(Err(AppError::Validation(_)))));
}

#[test]
fn full_run_with_readme() {
    let mut run = Ingestion::new("github", "octo", "hello");
    run.step(IngestEvent::RepoExists(Ok(false)));
    assert_eq!(run.action(), IngestAction::InsertRepo);
    run.step(IngestEvent::RepoInserted(Ok(9)));
    assert_eq!(run.action(), IngestAction::FetchMetadata);
    run.step(IngestEvent::MetadataStored(Ok("main".to_string())));
    assert_eq!(run.branch(), "main");
    assert_eq!(run.action(), IngestAction::FetchTree);
    let entries = vec![entry("a", "tree"), entry("a/b", "blob"), entry("ReadMe.md", "blob")];
    run.step(IngestEvent::TreeFetched(Ok(entries.len())));
    assert_eq!(run.action(), IngestAction::InsertTree);
    let items = build_tree(&entries, 1).unwrap();
    for _ in &items {
        run.step_done();
    }
    run.step(IngestEvent::TreeInserted(Ok(items)));
    assert_eq!(run.readme_path().as_deref(), Some("ReadMe.md"));
    assert_eq!(run.action(), IngestAction::FetchReadme);
    run.step(IngestEvent::ReadmeFetched(Ok(1)));
    assert_eq!(run.action(), IngestAction::StoreReadme);
    run.step_done();
    run.step(IngestEvent::ReadmeStored(Ok(())));
    assert_eq!(run.action(), IngestAction::CheckOwnerExists);
    run.step(IngestEvent::OwnerExists(Ok(false)));
    assert_eq!(run.action(), IngestAction::InsertOwner);
    run.step_done();
    run.step(IngestEvent::OwnerInserted(Ok(())));
    assert_eq!(run.action(), IngestAction::Finish);
    assert!(matches!(run.outcome(), Some(Ok(9))));
    assert_eq!(run.repo_id(), 9);

    let events = run.progress().events();
    let stages = [
        AddRepoProgress::Metadata,
        AddRepoProgress::FetchTree,
        AddRepoProgress::InsertTree,
        AddRepoProgress::Readme,
        AddRepoProgress::Owner,
    ];
    for w in events.windows(2) {
        if w[0].task_id == w[1].task_id {
            assert!(w[0].percentage <= w[1].percentage);
        } else {
            assert_eq!(w[0].percentage, 100);
            let a = stages.iter().position(|s| *s == w[0].task_id).unwrap();
            let b = stages.iter().position(|s| *s == w[1].task_id).unwrap();
            assert!(a < b);
        }
    }
    assert_eq!(events.last().unwrap().task_id, AddRepoProgress::Owner);
    assert_eq!(events.last().unwrap().percentage, 100);
    let readme_first = events.iter().find(|e| e.task_id == AddRepoProgress::Readme).unwrap();
    assert_eq!(readme_first.total_steps, 3);
}

#[test]
fn run_without_readme_and_known_owner() {
    let mut run = Ingestion::new("github", "octo", "hello");
    run.step(IngestEvent::RepoExists(Ok(false)));
    run.step(IngestEvent::RepoInserted(Ok(1)));
    run.step(IngestEvent::MetadataStored(Ok("dev".to_string())));
    run.step(IngestEvent::TreeFetched(Ok(1)));
    let items = build_tree(&vec![entry("docs", "tree")], 5).unwrap();
    run.step(IngestEvent::TreeInserted(Ok(items)));
    assert_eq!(run.action(), IngestAction::CheckOwnerExists);
    assert!(run
        .progress()
        .events()
        .iter()
        .any(|e| e.task_id == AddRepoProgress::Readme && e.percentage == 100));
    run.step(IngestEvent::OwnerExists(Ok(true)));
    assert!(matches!(run.outcome(), Some(Ok(1))));
}

#[test]
fn failure_aborts_the_run() {
    let mut run = Ingestion::new("github", "octo", "hello");
    run.step(IngestEvent::RepoExists(Ok(false)));
    run.step(IngestEvent::RepoInserted(Ok(1)));
    run.step(IngestEvent::MetadataStored(Err(AppError::RateLimited("core".to_string()))));
    assert_eq!(run.action(), IngestAction::Finish);
    assert!(matches!(run.outcome(), Some(Err(AppError::RateLimited(_)))));
}

#[test]
fn event_out_of_turn_aborts_the_run() {
    let mut run = Ingestion::new("github", "octo", "hello");
    run.step(IngestEvent::TreeFetched(Ok(3)));
    assert_eq!(run.action(), IngestAction::Finish);
    assert!(matches!(run.outcome(), Some(Err(AppError::Custom(_)))));
}

#[test]
fn readme_must_sit_at_the_root() {
    let mk = |id: i64, parent: Option<i64>, path: &str| RepoTreeItem {
        id,
        parent_id: parent,
        path: path.to_string(),
        mode: String::new(),
        kind: "blob".to_string(),
        sha: String::new(),
        size: None,
    };
    let items = vec![mk(1, Some(9), "docs/README.md"), mk(2, None, "LICENSE"), mk(3, None, "readme.txt")];
    assert_eq!(find_readme(&items).as_deref(), Some("readme.txt"));
    assert_eq!(find_readme(&vec![mk(1, None, "READ.md")]), None);
    assert_eq!(find_readme(&vec![mk(1, None, "xREADMEx")]).as_deref(), Some("xREADMEx"));
}

#[test]
fn failure_is_passed_on_unchanged() {
    let mut run = Ingestion::new("github", "octo", "hello");
    run.step(IngestEvent::RepoExists(Ok(false)));
    run.step(IngestEvent::RepoInserted(Ok(4)));
    run.step(IngestEvent::MetadataStored(Ok("main".to_string())));
    let before = run.progress().events().len();
    run.step(IngestEvent::TreeFetched(Err(AppError::Upstream("boom".to_string()))));
    match run.outcome() {
        Some(Err(AppError::Upstream(b))) => assert_eq!(b, "boom"),
        other => panic!("unexpected: {:?}", other),
    }
    assert_eq!(run.progress().events().len(), before);
    assert_eq!(run.action(), IngestAction::Finish);
}

fn stage_steps(run: &Ingestion, stage: AddRepoProgress) -> Vec<(u64, u64, u8)> {
    run.progress()
        .events()
        .iter()
        .filter(|e| e.task_id == stage)
        .map(|e| (e.step, e.total_steps, e.percentage))
        .collect()
}

#[test]
fn emitted_events_per_stage() {
    let mut run = Ingestion::new("github", "octo", "hello");
    run.step(IngestEvent::RepoExists(Ok(false)));
    run.step(IngestEvent::RepoInserted(Ok(1)));
    run.step(IngestEvent::MetadataStored(Ok("main".to_string())));
    run.step(IngestEvent::TreeFetched(Ok(2)));
    let items = build_tree(&vec![entry("readme", "blob"), entry("x", "blob")], 1).unwrap();
    run.step_done();
    run.step_done();
    run.step(IngestEvent::TreeInserted(Ok(items)));
    run.step(IngestEvent::ReadmeFetched(Ok(2)));
    run.step_done();
    run.step_done();
    run.step(IngestEvent::ReadmeStored(Ok(())));
    run.step(IngestEvent::OwnerExists(Ok(true)));
    assert_eq!(stage_steps(&run, AddRepoProgress::Metadata), vec![(0, 2, 0), (2, 2, 100)]);
    assert_eq!(stage_steps(&run, AddRepoProgress::FetchTree), vec![(0, 1, 0), (1, 1, 100)]);
    assert_eq!(
        stage_steps(&run, AddRepoProgress::InsertTree),
        vec![(0, 2, 0), (1, 2, 50), (2, 2, 100), (2, 2, 100)]
    );
    assert_eq!(
        stage_steps(&run, AddRepoProgress::Readme),
        vec![(0, 4, 0), (1, 4, 25), (2, 4, 50), (3, 4, 75), (4, 4, 100), (4, 4, 100)]
    );
    assert_eq!(stage_steps(&run, AddRepoProgress::Owner), vec![(0, 1, 0), (1, 1, 100)]);
}

#[test]
fn skipped_readme_is_marked_complete() {
    let mut run = Ingestion::new("github", "octo", "hello");
    run.step(IngestEvent::RepoExists(Ok(false)));
    run.step(IngestEvent::RepoInserted(Ok(1)));
    run.step(IngestEvent::MetadataStored(Ok("main".to_string())));
    run.step(IngestEvent::TreeFetched(Ok(0)));
    run.step(IngestEvent::TreeInserted(Ok(Vec::new())));
    assert_eq!(stage_steps(&run, AddRepoProgress::Readme), vec![(0, 2, 0), (2, 2, 100)]);
    run.step(IngestEvent::OwnerExists(Ok(false)));
    run.step_done();
    run.step(IngestEvent::OwnerInserted(Ok(())));
    assert_eq!(
        stage_steps(&run, AddRepoProgress::Owner),
        vec![(0, 5, 0), (1, 5, 20), (2, 5, 40), (5, 5, 100)]
    );
}
