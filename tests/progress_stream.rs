use git_chest::progress::{progress_percentage, AddRepoProgress, ProgressReporter};

#[test]
fn five_step_stage_reaches_exactly_100_before_next_stage() {
    let mut r = ProgressReporter::new("github", "octo", "hello");
    r.begin(AddRepoProgress::InsertTree, 5);
    for _ in 0..5 {
        r.advance();
    }
    let stage_events: Vec<_> =
        r.events().iter().filter(|e| e.task_id == AddRepoProgress::InsertTree).cloned().collect();
    let pcts: Vec<u8> = stage_events.iter().map(|e| e.percentage).collect();
    assert_eq!(pcts, vec![0, 20, 40, 60, 80, 100]);
    let n_before = r.events().len();
    r.begin(AddRepoProgress::Readme, 2);
    let events = r.events();
    assert_eq!(events.len(), n_before + 1);
    assert_eq!(events[n_before - 1].percentage, 100);
    assert_eq!(events[n_before - 1].task_id, AddRepoProgress::InsertTree);
    assert_eq!(events[n_before].task_id, AddRepoProgress::Readme);
    assert_eq!(events[n_before].step, 0);
    assert_eq!(events[n_before].total_steps, 2);
    for e in events {
        assert_eq!(e.platform, "github");
        assert_eq!(e.user, "octo");
        assert_eq!(e.repo, "hello");
    }
}

#[test]
fn begin_completes_unfinished_stage() {
    let mut r = ProgressReporter::new("github", "o", "r");
    r.begin(AddRepoProgress::Metadata, 2);
    r.advance();
    r.begin(AddRepoProgress::FetchTree, 1);
    let e = r.events();
    let pairs: Vec<(AddRepoProgress, u64, u64, u8)> =
        e.iter().map(|x| (x.task_id, x.step, x.total_steps, x.percentage)).collect();
    assert_eq!(
        pairs,
        vec![
            (AddRepoProgress::Metadata, 0, 2, 0),
            (AddRepoProgress::Metadata, 1, 2, 50),
            (AddRepoProgress::Metadata, 2, 2, 100),
            (AddRepoProgress::FetchTree, 0, 1, 0),
        ]
    );
}

#[test]
fn advance_stops_at_total_and_finish_gives_100() {
    let mut r = ProgressReporter::new("github", "o", "r");
    r.begin(AddRepoProgress::Owner, 1);
    r.advance();
    r.advance();
    let last = r.events().last().unwrap();
    assert_eq!((last.step, last.percentage), (1, 100));
    r.finish();
    assert_eq!(r.events().last().unwrap().percentage, 100);
}

#[test]
fn percentages() {
    assert_eq!(progress_percentage(0, 0), 100);
    assert_eq!(progress_percentage(0, 3), 0);
    assert_eq!(progress_percentage(1, 3), 33);
    assert_eq!(progress_percentage(2, 3), 66);
    assert_eq!(progress_percentage(3, 3), 100);
    assert_eq!(progress_percentage(u64::MAX - 1, u64::MAX), 99);
    assert_eq!(AddRepoProgress::InsertTree.name(), "insert_tree");
}
