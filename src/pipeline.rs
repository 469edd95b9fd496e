use vstd::prelude::*;

use crate::error::AppError;
use crate::progress::{AddRepoProgress, AddRepoProgressData, ProgressReporter, next_step, stage_rank};
use crate::text::chars_of;
use crate::tree::RepoTreeItem;

verus! {

/// Where an add-repository run stands.
#[derive(PartialEq, Eq, Structural, Debug, Clone, Copy)]
pub enum IngestPhase {
    /// Waiting to learn whether the repository is already stored.
    CheckExists,
    /// Waiting for the basic repository record.
    InsertRepo,
    /// Waiting for the metadata to be fetched and stored.
    Metadata,
    /// Waiting for the recursive tree listing.
    Tree,
    /// Waiting for the tree items to be inserted.
    InsertTree,
    /// Waiting for the README text.
    Readme,
    /// Waiting for the README assets and content to be stored.
    ReadmeStore,
    /// Waiting to learn whether the owner is already stored.
    OwnerCheck,
    /// Waiting for the owner to be fetched and stored.
    OwnerInsert,
    /// Finished, successfully or not.
    Done,
}

/// The outside work that a phase asks for.
#[derive(PartialEq, Eq, Structural, Debug, Clone, Copy)]
pub enum IngestAction {
    /// Look the repository up by owner and name.
    CheckRepoExists,
    /// Insert the basic repository record.
    InsertRepo,
    /// Fetch the metadata (a network call) and store it.
    FetchMetadata,
    /// Fetch the recursive tree listing of the default branch (a network call).
    FetchTree,
    /// Insert the listed items through a `TreeBuilder`.
    InsertTree,
    /// Fetch the README file (a network call).
    FetchReadme,
    /// Download the README's images (network calls), store them and the
    /// rewritten README.
    StoreReadme,
    /// Look the owner up among stored platform users.
    CheckOwnerExists,
    /// Fetch the owner (a network call) and store it.
    InsertOwner,
    /// Report the outcome.
    Finish,
}

/// What the outside work reported.
#[derive(Debug)]
pub enum IngestEvent {
    RepoExists(Result<bool, AppError>),
    RepoInserted(Result<i64, AppError>),
    /// The default branch of the stored metadata.
    MetadataStored(Result<String, AppError>),
    /// The number of listed entries.
    TreeFetched(Result<usize, AppError>),
    TreeInserted(Result<Vec<RepoTreeItem>, AppError>),
    /// The number of images of the README to download.
    ReadmeFetched(Result<usize, AppError>),
    ReadmeStored(Result<(), AppError>),
    OwnerExists(Result<bool, AppError>),
    OwnerInserted(Result<(), AppError>),
}

/// The outside work that a phase asks for.
pub open spec fn action_of(p: IngestPhase) -> IngestAction {
    match p {
        IngestPhase::CheckExists => IngestAction::CheckRepoExists,
        IngestPhase::InsertRepo => IngestAction::InsertRepo,
        IngestPhase::Metadata => IngestAction::FetchMetadata,
        IngestPhase::Tree => IngestAction::FetchTree,
        IngestPhase::InsertTree => IngestAction::InsertTree,
        IngestPhase::Readme => IngestAction::FetchReadme,
        IngestPhase::ReadmeStore => IngestAction::StoreReadme,
        IngestPhase::OwnerCheck => IngestAction::CheckOwnerExists,
        IngestPhase::OwnerInsert => IngestAction::InsertOwner,
        IngestPhase::Done => IngestAction::Finish,
    }
}

/// Whether an action calls the hosting platform.
pub open spec fn is_network(a: IngestAction) -> bool {
    a == IngestAction::FetchMetadata || a == IngestAction::FetchTree || a == IngestAction::FetchReadme
        || a == IngestAction::StoreReadme || a == IngestAction::InsertOwner
}

pub open spec fn ascii_lower(c: char) -> char {
    if 'A' <= c <= 'Z' {
        ((c as u8) + 32) as char
    } else {
        c
    }
}

/// Whether `readme` stands at position `i` of a path, ignoring ASCII case.
pub open spec fn readme_at(path: Seq<char>, i: int) -> bool {
    forall|m: int| 0 <= m < 6 ==> ascii_lower(#[trigger] path[i + m]) == "readme"@[m]
}

/// Whether a path contains `readme`, ignoring ASCII case.
pub open spec fn mentions_readme(path: Seq<char>) -> bool {
    exists|i: int| 0 <= i && i + 6 <= path.len() && #[trigger] readme_at(path, i)
}

/// The first of the first `n` items that sits at the root and whose path
/// mentions `readme`.
pub open spec fn first_readme(items: Seq<RepoTreeItem>, n: nat) -> Option<RepoTreeItem>
    decreases n,
{
    if n == 0 {
        None
    } else {
        match first_readme(items, (n - 1) as nat) {
            Some(it) => Some(it),
            None => if items[n - 1].parent_id is None && mentions_readme(items[n - 1].path@) {
                Some(items[n - 1])
            } else {
                None
            },
        }
    }
}

/// The phase that follows `p` when `e` is reported; a failure, or an event
/// that does not answer the phase's action, ends the run.
pub open spec fn next_phase(p: IngestPhase, e: IngestEvent) -> IngestPhase {
    match (p, e) {
        (IngestPhase::CheckExists, IngestEvent::RepoExists(Ok(false))) => IngestPhase::InsertRepo,
        (IngestPhase::InsertRepo, IngestEvent::RepoInserted(Ok(_))) => IngestPhase::Metadata,
        (IngestPhase::Metadata, IngestEvent::MetadataStored(Ok(_))) => IngestPhase::Tree,
        (IngestPhase::Tree, IngestEvent::TreeFetched(Ok(_))) => IngestPhase::InsertTree,
        (IngestPhase::InsertTree, IngestEvent::TreeInserted(Ok(items))) => if first_readme(
            items@,
            items@.len(),
        ) is Some {
            IngestPhase::Readme
        } else {
            IngestPhase::OwnerCheck
        },
        (IngestPhase::Readme, IngestEvent::ReadmeFetched(Ok(_))) => IngestPhase::ReadmeStore,
        (IngestPhase::ReadmeStore, IngestEvent::ReadmeStored(Ok(_))) => IngestPhase::OwnerCheck,
        (IngestPhase::OwnerCheck, IngestEvent::OwnerExists(Ok(false))) => IngestPhase::OwnerInsert,
        _ => IngestPhase::Done,
    }
}

/// Whether an event reports success of the work it answers.
pub open spec fn succeeds(p: IngestPhase, e: IngestEvent) -> bool {
    match (p, e) {
        (IngestPhase::CheckExists, IngestEvent::RepoExists(Ok(false))) => true,
        (IngestPhase::InsertRepo, IngestEvent::RepoInserted(Ok(_))) => true,
        (IngestPhase::Metadata, IngestEvent::MetadataStored(Ok(_))) => true,
        (IngestPhase::Tree, IngestEvent::TreeFetched(Ok(_))) => true,
        (IngestPhase::InsertTree, IngestEvent::TreeInserted(Ok(_))) => true,
        (IngestPhase::Readme, IngestEvent::ReadmeFetched(Ok(_))) => true,
        (IngestPhase::ReadmeStore, IngestEvent::ReadmeStored(Ok(_))) => true,
        (IngestPhase::OwnerCheck, IngestEvent::OwnerExists(Ok(_))) => true,
        (IngestPhase::OwnerInsert, IngestEvent::OwnerInserted(Ok(_))) => true,
        _ => false,
    }
}

/// The actions that a run starting in phase `p` asks for, one before each
/// of the events `evs` and one after the last.
pub open spec fn run_actions(p: IngestPhase, evs: Seq<IngestEvent>) -> Seq<IngestAction>
    decreases evs.len(),
{
    if evs.len() == 0 {
        seq![action_of(p)]
    } else {
        seq![action_of(p)] + run_actions(next_phase(p, evs[0]), evs.drop_first())
    }
}

/// Whether an event reports on the action that phase `p` asks for.
pub open spec fn answers(p: IngestPhase, e: IngestEvent) -> bool {
    match (p, e) {
        (IngestPhase::CheckExists, IngestEvent::RepoExists(_)) => true,
        (IngestPhase::InsertRepo, IngestEvent::RepoInserted(_)) => true,
        (IngestPhase::Metadata, IngestEvent::MetadataStored(_)) => true,
        (IngestPhase::Tree, IngestEvent::TreeFetched(_)) => true,
        (IngestPhase::InsertTree, IngestEvent::TreeInserted(_)) => true,
        (IngestPhase::Readme, IngestEvent::ReadmeFetched(_)) => true,
        (IngestPhase::ReadmeStore, IngestEvent::ReadmeStored(_)) => true,
        (IngestPhase::OwnerCheck, IngestEvent::OwnerExists(_)) => true,
        (IngestPhase::OwnerInsert, IngestEvent::OwnerInserted(_)) => true,
        _ => false,
    }
}

/// The failure that an event reports, if any.
pub open spec fn event_error(e: IngestEvent) -> Option<AppError> {
    match e {
        IngestEvent::RepoExists(Err(x)) => Some(x),
        IngestEvent::RepoInserted(Err(x)) => Some(x),
        IngestEvent::MetadataStored(Err(x)) => Some(x),
        IngestEvent::TreeFetched(Err(x)) => Some(x),
        IngestEvent::TreeInserted(Err(x)) => Some(x),
        IngestEvent::ReadmeFetched(Err(x)) => Some(x),
        IngestEvent::ReadmeStored(Err(x)) => Some(x),
        IngestEvent::OwnerExists(Err(x)) => Some(x),
        IngestEvent::OwnerInserted(Err(x)) => Some(x),
        _ => None,
    }
}

/// The steps of the README stage: one per image to download, plus fetching
/// and parsing the README.
pub open spec fn readme_total(assets: usize) -> u64 {
    if (assets as u64) < u64::MAX - 2 {
        (assets as u64 + 2) as u64
    } else {
        u64::MAX
    }
}

/// The progress events that phase `p` emits when `e` is reported, given
/// the reporter `r` before: the completion of the running stage and the
/// start of the next one on success; nothing on a failure.
pub open spec fn emitted(p: IngestPhase, e: IngestEvent, r: ProgressReporter) -> Seq<AddRepoProgressData> {
    let last = r@.last();
    let fin = seq![r.event_of(last.task_id, last.total_steps, last.total_steps)];
    match (p, e) {
        (IngestPhase::InsertRepo, IngestEvent::RepoInserted(Ok(_))) => seq![
            r.event_of(AddRepoProgress::Metadata, 0, 2),
        ],
        (IngestPhase::Metadata, IngestEvent::MetadataStored(Ok(_))) => fin + seq![
            r.event_of(AddRepoProgress::FetchTree, 0, 1),
        ],
        (IngestPhase::Tree, IngestEvent::TreeFetched(Ok(n))) => fin + seq![
            r.event_of(AddRepoProgress::InsertTree, 0, n as u64),
        ],
        (IngestPhase::InsertTree, IngestEvent::TreeInserted(Ok(items))) => if first_readme(
            items@,
            items@.len(),
        ) is Some {
            fin
        } else {
            fin + seq![
                r.event_of(AddRepoProgress::Readme, 0, 2),
                r.event_of(AddRepoProgress::Readme, 2, 2),
            ]
        },
        (IngestPhase::Readme, IngestEvent::ReadmeFetched(Ok(k))) => seq![
            r.event_of(AddRepoProgress::Readme, 0, readme_total(k)),
            r.event_of(AddRepoProgress::Readme, 1, readme_total(k)),
            r.event_of(AddRepoProgress::Readme, 2, readme_total(k)),
        ],
        (IngestPhase::ReadmeStore, IngestEvent::ReadmeStored(Ok(_))) => fin,
        (IngestPhase::OwnerCheck, IngestEvent::OwnerExists(Ok(true))) => seq![
            r.event_of(AddRepoProgress::Owner, 0, 1),
            r.event_of(AddRepoProgress::Owner, 1, 1),
        ],
        (IngestPhase::OwnerCheck, IngestEvent::OwnerExists(Ok(false))) => seq![
            r.event_of(AddRepoProgress::Owner, 0, 5),
            r.event_of(AddRepoProgress::Owner, 1, 5),
        ],
        (IngestPhase::OwnerInsert, IngestEvent::OwnerInserted(Ok(_))) => fin,
        _ => Seq::empty(),
    }
}

/// Whether a stage is running in phase `p`, so that its steps can complete.
pub open spec fn has_running_stage(p: IngestPhase) -> bool {
    p == IngestPhase::Metadata || p == IngestPhase::Tree || p == IngestPhase::InsertTree || p
        == IngestPhase::ReadmeStore || p == IngestPhase::OwnerInsert
}

/// The rank of the progress stage that a phase has reached.
pub open spec fn phase_stage(p: IngestPhase) -> Option<int> {
    match p {
        IngestPhase::CheckExists => None,
        IngestPhase::InsertRepo => None,
        IngestPhase::Metadata => Some(0),
        IngestPhase::Tree => Some(1),
        IngestPhase::InsertTree => Some(2),
        IngestPhase::Readme => Some(2),
        IngestPhase::ReadmeStore => Some(3),
        IngestPhase::OwnerCheck => Some(3),
        IngestPhase::OwnerInsert => Some(4),
        IngestPhase::Done => None,
    }
}

/// One add-repository run: the decisions of the pipeline, with the outside
/// work left to the caller. The caller performs `action()` and reports the
/// result with `step`, until the action is `Finish`.
pub struct Ingestion {
    phase: IngestPhase,
    repo_id: i64,
    branch: String,
    readme_path: Option<String>,
    outcome: Option<Result<i64, AppError>>,
    progress: ProgressReporter,
}

impl Ingestion {
    pub closed spec fn phase(&self) -> IngestPhase {
        self.phase
    }

    pub closed spec fn outcome_spec(&self) -> Option<Result<i64, AppError>> {
        self.outcome
    }

    pub closed spec fn repo_id_spec(&self) -> i64 {
        self.repo_id
    }

    pub closed spec fn branch_spec(&self) -> String {
        self.branch
    }

    pub closed spec fn readme_path_spec(&self) -> Option<String> {
        self.readme_path
    }

    pub closed spec fn progress_spec(&self) -> ProgressReporter {
        self.progress
    }

    pub closed spec fn wf(&self) -> bool {
        &&& self.progress.wf()
        &&& (self.phase == IngestPhase::Done <==> self.outcome is Some)
        &&& match phase_stage(self.phase) {
            Some(r) => self.progress.current() matches Some(s) && stage_rank(s) == r,
            None => self.phase != IngestPhase::Done ==> self.progress.current() is None,
        }
        &&& (self.phase == IngestPhase::Readme || self.phase == IngestPhase::OwnerCheck)
            ==> self.progress@.last().percentage == 100
    }

    /// A run for (platform, owner, repo), about to check for a duplicate.
    pub fn new(platform: &str, user: &str, repo: &str) -> (r: Ingestion)
        ensures
            r.wf(),
            r.phase() == IngestPhase::CheckExists,
    {
        Ingestion {
            phase: IngestPhase::CheckExists,
            repo_id: 0,
            branch: String::new(),
            readme_path: None,
            outcome: None,
            progress: ProgressReporter::new(platform, user, repo),
        }
    }

    /// The outside work to do next.
    pub fn action(&self) -> (r: IngestAction)
        ensures
            r == action_of(self.phase()),
    {
        match self.phase {
            IngestPhase::CheckExists => IngestAction::CheckRepoExists,
            IngestPhase::InsertRepo => IngestAction::InsertRepo,
            IngestPhase::Metadata => IngestAction::FetchMetadata,
            IngestPhase::Tree => IngestAction::FetchTree,
            IngestPhase::InsertTree => IngestAction::InsertTree,
            IngestPhase::Readme => IngestAction::FetchReadme,
            IngestPhase::ReadmeStore => IngestAction::StoreReadme,
            IngestPhase::OwnerCheck => IngestAction::CheckOwnerExists,
            IngestPhase::OwnerInsert => IngestAction::InsertOwner,
            IngestPhase::Done => IngestAction::Finish,
        }
    }

    /// The id of the inserted repository record (0 before it exists).
    pub fn repo_id(&self) -> (r: i64)
        ensures
            r == self.repo_id_spec(),
    {
        self.repo_id
    }

    /// The default branch reported by the metadata.
    pub fn branch(&self) -> (r: &String)
        ensures
            *r == self.branch_spec(),
    {
        &self.branch
    }

    /// The README path chosen among the root-level tree items, if any.
    pub fn readme_path(&self) -> (r: &Option<String>)
        ensures
            *r == self.readme_path_spec(),
    {
        &self.readme_path
    }

    /// The outcome, once the run is done.
    pub fn outcome(&self) -> (r: &Option<Result<i64, AppError>>)
        ensures
            *r == self.outcome_spec(),
    {
        &self.outcome
    }

    /// The progress emitted so far.
    pub fn progress(&self) -> (r: &ProgressReporter)
        ensures
            *r == self.progress_spec(),
            self.wf() ==> r.wf(),
    {
        &self.progress
    }

    fn fail(&mut self, e: AppError)
        requires
            old(self).progress.wf(),
        ensures
            final(self).wf(),
            final(self).phase() == IngestPhase::Done,
            final(self).outcome_spec() == Some(Err::<i64, AppError>(e)),
            final(self).repo_id_spec() == old(self).repo_id_spec(),
            final(self).progress_spec() == old(self).progress_spec(),
    {
        self.phase = IngestPhase::Done;
        self.outcome = Some(Err(e));
    }

    /// Applies what the outside work reported and moves to the next phase.
    pub fn step(&mut self, event: IngestEvent)
        requires
            old(self).wf(),
        ensures
            final(self).wf(),
            old(self).phase() == IngestPhase::Done ==> final(self).phase() == IngestPhase::Done
                && final(self).outcome_spec() == old(self).outcome_spec(),
            old(self).phase() != IngestPhase::Done ==> final(self).phase() == next_phase(old(self).phase(), event),
            old(self).phase() == IngestPhase::CheckExists && (event matches IngestEvent::RepoExists(Ok(true)))
                ==> (final(self).outcome_spec() matches Some(Err(AppError::Validation(_)))),
            old(self).phase() != IngestPhase::Done && !succeeds(old(self).phase(), event)
                ==> (final(self).outcome_spec() matches Some(Err(_))),
            old(self).phase() != IngestPhase::Done && answers(old(self).phase(), event) ==> (event_error(event) matches Some(
                err,
            ) ==> final(self).outcome_spec() == Some(Err::<i64, AppError>(err))),
            old(self).phase() != IngestPhase::Done ==> final(self).progress_spec()@ == old(self).progress_spec()@
                + emitted(old(self).phase(), event, old(self).progress_spec()),
            old(self).phase() == IngestPhase::Done ==> final(self).progress_spec() == old(self).progress_spec(),
            old(self).phase() != IngestPhase::Done && succeeds(old(self).phase(), event) && final(self).phase()
                == IngestPhase::Done ==> final(self).outcome_spec() == Some(Ok::<i64, AppError>(old(self).repo_id_spec())),
            old(self).phase() == IngestPhase::InsertRepo ==> (event matches IngestEvent::RepoInserted(Ok(id))
                ==> final(self).repo_id_spec() == id),
            old(self).phase() != IngestPhase::InsertRepo ==> final(self).repo_id_spec() == old(self).repo_id_spec(),
            old(self).phase() == IngestPhase::Metadata ==> (event matches IngestEvent::MetadataStored(Ok(b))
                ==> final(self).branch_spec() == b),
            old(self).phase() == IngestPhase::InsertTree ==> (event matches IngestEvent::TreeInserted(Ok(items))
                ==> match first_readme(items@, items@.len()) {
                    Some(it) => final(self).readme_path_spec() == Some(it.path),
                    None => true,
                }),
    {
        let ghost ev = event;
        let ghost r0 = self.progress;
        match self.phase {
            IngestPhase::Done => {},
            IngestPhase::CheckExists => match event {
                IngestEvent::RepoExists(Ok(false)) => {
                    self.phase = IngestPhase::InsertRepo;
                },
                IngestEvent::RepoExists(Ok(true)) => {
                    self.fail(AppError::Validation("Repository already exists.".to_owned()));
                },
                IngestEvent::RepoExists(Err(e)) => self.fail(e),
                _ => self.fail(unexpected()),
            },
            IngestPhase::InsertRepo => match event {
                IngestEvent::RepoInserted(Ok(id)) => {
                    self.repo_id = id;
                    self.progress.begin(AddRepoProgress::Metadata, 2);
                    self.phase = IngestPhase::Metadata;
                    assert(self.progress@ =~= r0@ + emitted(IngestPhase::InsertRepo, ev, r0));
                },
                IngestEvent::RepoInserted(Err(e)) => self.fail(e),
                _ => self.fail(unexpected()),
            },
            IngestPhase::Metadata => match event {
                IngestEvent::MetadataStored(Ok(branch)) => {
                    self.branch = branch;
                    self.progress.finish();
                    self.progress.begin(AddRepoProgress::FetchTree, 1);
                    self.phase = IngestPhase::Tree;
                    assert(self.progress@ =~= r0@ + emitted(IngestPhase::Metadata, ev, r0));
                },
                IngestEvent::MetadataStored(Err(e)) => self.fail(e),
                _ => self.fail(unexpected()),
            },
            IngestPhase::Tree => match event {
                IngestEvent::TreeFetched(Ok(n)) => {
                    self.progress.finish();
                    self.progress.begin(AddRepoProgress::InsertTree, n as u64);
                    self.phase = IngestPhase::InsertTree;
                    assert(self.progress@ =~= r0@ + emitted(IngestPhase::Tree, ev, r0));
                },
                IngestEvent::TreeFetched(Err(e)) => self.fail(e),
                _ => self.fail(unexpected()),
            },
            IngestPhase::InsertTree => match event {
                IngestEvent::TreeInserted(Ok(items)) => {
                    self.progress.finish();
                    match find_readme(&items) {
                        Some(path) => {
                            self.readme_path = Some(path);
                            self.phase = IngestPhase::Readme;
                        },
                        None => {
                            self.progress.begin(AddRepoProgress::Readme, 2);
                            self.progress.finish();
                            self.phase = IngestPhase::OwnerCheck;
                        },
                    }
                    assert(self.progress@ =~= r0@ + emitted(IngestPhase::InsertTree, ev, r0));
                },
                IngestEvent::TreeInserted(Err(e)) => self.fail(e),
                _ => self.fail(unexpected()),
            },
            IngestPhase::Readme => match event {
                IngestEvent::ReadmeFetched(Ok(assets)) => {
                    let a = assets as u64;
                    let total: u64 = if a < u64::MAX - 2 { a + 2 } else { u64::MAX };
                    self.progress.begin(AddRepoProgress::Readme, total);
                    self.progress.advance();
                    self.progress.advance();
                    self.phase = IngestPhase::ReadmeStore;
                    assert(self.progress@ =~= r0@ + emitted(IngestPhase::Readme, ev, r0));
                },
                IngestEvent::ReadmeFetched(Err(e)) => self.fail(e),
                _ => self.fail(unexpected()),
            },
            IngestPhase::ReadmeStore => match event {
                IngestEvent::ReadmeStored(Ok(())) => {
                    self.progress.finish();
                    self.phase = IngestPhase::OwnerCheck;
                    assert(self.progress@ =~= r0@ + emitted(IngestPhase::ReadmeStore, ev, r0));
                },
                IngestEvent::ReadmeStored(Err(e)) => self.fail(e),
                _ => self.fail(unexpected()),
            },
            IngestPhase::OwnerCheck => match event {
                IngestEvent::OwnerExists(Ok(true)) => {
                    self.progress.begin(AddRepoProgress::Owner, 1);
                    self.progress.finish();
                    self.phase = IngestPhase::Done;
                    self.outcome = Some(Ok(self.repo_id));
                    assert(self.progress@ =~= r0@ + emitted(IngestPhase::OwnerCheck, ev, r0));
                },
                IngestEvent::OwnerExists(Ok(false)) => {
                    self.progress.begin(AddRepoProgress::Owner, 5);
                    self.progress.advance();
                    self.phase = IngestPhase::OwnerInsert;
                    assert(self.progress@ =~= r0@ + emitted(IngestPhase::OwnerCheck, ev, r0));
                },
                IngestEvent::OwnerExists(Err(e)) => self.fail(e),
                _ => self.fail(unexpected()),
            },
            IngestPhase::OwnerInsert => match event {
                IngestEvent::OwnerInserted(Ok(())) => {
                    self.progress.finish();
                    self.phase = IngestPhase::Done;
                    self.outcome = Some(Ok(self.repo_id));
                    assert(self.progress@ =~= r0@ + emitted(IngestPhase::OwnerInsert, ev, r0));
                },
                IngestEvent::OwnerInserted(Err(e)) => self.fail(e),
                _ => self.fail(unexpected()),
            },
        }
    }

    /// Records one more completed step of the running stage (a tree item
    /// inserted, an asset stored, a part of the owner stored); nothing in a
    /// phase without a running stage.
    pub fn step_done(&mut self)
        requires
            old(self).wf(),
        ensures
            final(self).wf(),
            final(self).phase() == old(self).phase(),
            final(self).outcome_spec() == old(self).outcome_spec(),
            final(self).repo_id_spec() == old(self).repo_id_spec(),
            has_running_stage(old(self).phase()) ==> {
                let r = old(self).progress_spec();
                final(self).progress_spec()@ == r@.push(
                    r.event_of(r@.last().task_id, next_step(r@.last()), r@.last().total_steps),
                )
            },
            !has_running_stage(old(self).phase()) ==> final(self).progress_spec() == old(self).progress_spec(),
    {
        match self.phase {
            IngestPhase::Metadata | IngestPhase::Tree | IngestPhase::InsertTree | IngestPhase::ReadmeStore
            | IngestPhase::OwnerInsert => {
                self.progress.advance();
            },
            _ => {},
        }
    }
}

fn unexpected() -> AppError {
    AppError::Custom("event does not answer the pending action".to_owned())
}

fn lower_ascii(c: char) -> (r: char)
    ensures
        r == ascii_lower(c),
{
    if 'A' <= c && c <= 'Z' {
        ((c as u8) + 32) as char
    } else {
        c
    }
}

fn mentions_readme_exec(path: &String) -> (r: bool)
    ensures
        r == mentions_readme(path@),
{
    let p = chars_of(path.as_str());
    let word = chars_of("readme");
    proof {
        reveal_strlit("readme");
    }
    let n: usize = p.len();
    if n < 6 {
        return false;
    }
    let mut i: usize = 0;
    while i <= n - 6
        invariant
            p@ == path@,
            n == p@.len(),
            n >= 6,
            word@ == "readme"@,
            word@.len() == 6,
            forall|k: int| 0 <= k < i && k + 6 <= n ==> !#[trigger] readme_at(path@, k),
        decreases n - i,
    {
        let mut j: usize = 0;
        let mut same = true;
        while j < 6
            invariant
                i + 6 <= n,
                n == p@.len(),
                word@.len() == 6,
                j <= 6,
                same == forall|m: int| 0 <= m < j ==> ascii_lower(p@[i + m]) == word@[m],
            decreases 6 - j,
        {
            if lower_ascii(p[i + j]) != word[j] {
                same = false;
            }
            j = j + 1;
        }
        if same {
            assert(readme_at(path@, i as int));
            return true;
        } else {
            assert(!readme_at(path@, i as int)) by {
                let m = choose|m: int| 0 <= m < 6 && ascii_lower(p@[i + m]) != word@[m];
                assert(ascii_lower(path@[i + m]) != "readme"@[m]);
            }
        }
        i = i + 1;
    }
    false
}

proof fn lemma_first_readme_stays(items: Seq<RepoTreeItem>, n: nat, m: nat)
    requires
        n <= m,
        first_readme(items, n) is Some,
    ensures
        first_readme(items, m) == first_readme(items, n),
    decreases m - n,
{
    if n < m {
        lemma_first_readme_stays(items, n, (m - 1) as nat);
    }
}

/// The path of the first root-level item whose path mentions `readme`,
/// ignoring ASCII case.
pub fn find_readme(items: &Vec<RepoTreeItem>) -> (r: Option<String>)
    ensures
        match r {
            Some(p) => first_readme(items@, items@.len()) matches Some(it) && it.path == p,
            None => first_readme(items@, items@.len()) is None,
        },
{
    let mut k: usize = 0;
    while k < items.len()
        invariant
            k <= items@.len(),
            first_readme(items@, k as nat) is None,
        decreases items@.len() - k,
    {
        if items[k].parent_id.is_none() && mentions_readme_exec(&items[k].path) {
            proof {
                lemma_first_readme_stays(items@, (k + 1) as nat, items@.len());
            }
            return Some(items[k].path.clone());
        }
        k = k + 1;
    }
    None
}

proof fn lemma_done_only_finishes(evs: Seq<IngestEvent>)
    ensures
        forall|i: int|
            0 <= i < run_actions(IngestPhase::Done, evs).len() ==> #[trigger] run_actions(
                IngestPhase::Done,
                evs,
            )[i] == IngestAction::Finish,
    decreases evs.len(),
{
    if evs.len() > 0 {
        lemma_done_only_finishes(evs.drop_first());
        let rest = run_actions(IngestPhase::Done, evs.drop_first());
        assert forall|i: int|
            0 <= i < run_actions(IngestPhase::Done, evs).len() implies #[trigger] run_actions(
            IngestPhase::Done,
            evs,
        )[i] == IngestAction::Finish by {
            if i > 0 {
                assert(run_actions(IngestPhase::Done, evs)[i] == rest[i - 1]);
            }
        }
    }
}

/// Duplicate law: when the duplicate check reports that the repository is
/// already stored, the run asks for no network call, whatever is reported
/// afterwards, and its next action is to finish (with a validation error,
/// as `step` states).
pub proof fn lemma_duplicate_stops_before_network(evs: Seq<IngestEvent>)
    requires
        evs.len() > 0,
        evs[0] matches IngestEvent::RepoExists(Ok(true)),
    ensures
        run_actions(IngestPhase::CheckExists, evs)[0] == IngestAction::CheckRepoExists,
        run_actions(IngestPhase::CheckExists, evs)[1] == IngestAction::Finish,
        forall|i: int|
            0 <= i < run_actions(IngestPhase::CheckExists, evs).len() ==> !is_network(
                #[trigger] run_actions(IngestPhase::CheckExists, evs)[i],
            ),
{
    let rest = evs.drop_first();
    assert(next_phase(IngestPhase::CheckExists, evs[0]) == IngestPhase::Done);
    lemma_done_only_finishes(rest);
    let all = run_actions(IngestPhase::CheckExists, evs);
    assert(all == seq![IngestAction::CheckRepoExists] + run_actions(IngestPhase::Done, rest));
    assert(run_actions(IngestPhase::Done, rest).len() > 0);
    assert forall|i: int| 0 <= i < all.len() implies !is_network(#[trigger] all[i]) by {
        if i > 0 {
            assert(all[i] == run_actions(IngestPhase::Done, rest)[i - 1]);
        }
    }
}

} // verus!
