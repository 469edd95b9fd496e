use vstd::prelude::*;

use vstd::arithmetic::div_mod::{lemma_div_by_multiple, lemma_div_is_ordered};

verus! {

/// The stages of adding a repository, in the order in which they run.
#[derive(PartialEq, Eq, Structural, Debug, Clone, Copy)]
pub enum AddRepoProgress {
    Metadata,
    FetchTree,
    InsertTree,
    Readme,
    Owner,
}

/// The position of a stage in the fixed order.
pub open spec fn stage_rank(s: AddRepoProgress) -> int {
    match s {
        AddRepoProgress::Metadata => 0,
        AddRepoProgress::FetchTree => 1,
        AddRepoProgress::InsertTree => 2,
        AddRepoProgress::Readme => 3,
        AddRepoProgress::Owner => 4,
    }
}

impl AddRepoProgress {
    /// The stage's name on the event stream.
    pub fn name(&self) -> (r: &'static str)
        ensures
            r@ == match self {
                AddRepoProgress::Metadata => "metadata"@,
                AddRepoProgress::FetchTree => "fetch_tree"@,
                AddRepoProgress::InsertTree => "insert_tree"@,
                AddRepoProgress::Readme => "readme"@,
                AddRepoProgress::Owner => "owner"@,
            },
    {
        match self {
            AddRepoProgress::Metadata => "metadata",
            AddRepoProgress::FetchTree => "fetch_tree",
            AddRepoProgress::InsertTree => "insert_tree",
            AddRepoProgress::Readme => "readme",
            AddRepoProgress::Owner => "owner",
        }
    }
}

/// One progress emission: the identifying triple, the stage, the raw step
/// pair and the percentage it gives.
#[derive(Debug, Clone)]
pub struct AddRepoProgressData {
    pub platform: String,
    pub user: String,
    pub repo: String,
    pub percentage: u8,
    pub task_id: AddRepoProgress,
    pub step: u64,
    pub total_steps: u64,
}

/// Completed share of a stage in whole percent, rounded down; a stage
/// without steps is complete.
pub open spec fn percentage_of(step: int, total: int) -> int {
    if total == 0 {
        100
    } else {
        step * 100 / total
    }
}

proof fn lemma_percentage(step: int, next: int, total: int)
    requires
        0 <= step <= next <= total,
    ensures
        0 <= percentage_of(step, total) <= percentage_of(next, total) <= 100,
        percentage_of(total, total) == 100,
{
    if total > 0 {
        lemma_div_is_ordered(step * 100, next * 100, total);
        lemma_div_is_ordered(0, step * 100, total);
        lemma_div_is_ordered(next * 100, total * 100, total);
        lemma_div_by_multiple(100, total);
        assert(total * 100 == 100 * total);
    }
}

/// Completed share of a stage in whole percent.
pub fn progress_percentage(step: u64, total: u64) -> (r: u8)
    requires
        step <= total,
    ensures
        r == percentage_of(step as int, total as int),
{
    proof {
        lemma_percentage(step as int, step as int, total as int);
    }
    if total == 0 {
        100
    } else {
        let p: u128 = (step as u128) * 100 / (total as u128);
        p as u8
    }
}

/// The step after the one of `e`, up to its total.
pub open spec fn next_step(e: AddRepoProgressData) -> u64 {
    if e.step < e.total_steps {
        (e.step + 1) as u64
    } else {
        e.step
    }
}

/// Whether event `b` may directly follow event `a`: within a stage the
/// percentage does not go down; a new stage comes later in the fixed order,
/// and only after the previous one reached 100%.
pub open spec fn may_follow(a: AddRepoProgressData, b: AddRepoProgressData) -> bool {
    if a.task_id == b.task_id {
        a.percentage <= b.percentage
    } else {
        a.percentage == 100 && stage_rank(a.task_id) < stage_rank(b.task_id)
    }
}

/// The emission order of a progress stream.
pub open spec fn well_ordered(events: Seq<AddRepoProgressData>) -> bool {
    forall|i: int| 0 <= i < events.len() - 1 ==> may_follow(#[trigger] events[i], events[i + 1])
}

/// Whether an event is consistent: its percentage is the one its step pair
/// gives.
pub open spec fn consistent(e: AddRepoProgressData) -> bool {
    e.step <= e.total_steps && e.percentage == percentage_of(e.step as int, e.total_steps as int)
}

/// Emits the ordered, weighted progress of one add-repository run for one
/// (platform, owner, repo).
pub struct ProgressReporter {
    platform: String,
    user: String,
    repo: String,
    events: Vec<AddRepoProgressData>,
}

impl ProgressReporter {
    /// Every event emitted so far, in order.
    pub closed spec fn view(&self) -> Seq<AddRepoProgressData> {
        self.events@
    }

    pub closed spec fn wf(&self) -> bool {
        &&& well_ordered(self.events@)
        &&& forall|i: int|
            0 <= i < self.events@.len() ==> consistent(#[trigger] self.events@[i])
                && self.events@[i].platform == self.platform && self.events@[i].user == self.user
                && self.events@[i].repo == self.repo
    }

    /// The identifying triple of the run.
    pub closed spec fn ident(&self) -> (String, String, String) {
        (self.platform, self.user, self.repo)
    }

    /// The event this reporter emits for `stage` at `step` of `total`.
    pub open spec fn event_of(&self, stage: AddRepoProgress, step: u64, total: u64) -> AddRepoProgressData {
        AddRepoProgressData {
            platform: self.ident().0,
            user: self.ident().1,
            repo: self.ident().2,
            percentage: percentage_of(step as int, total as int) as u8,
            task_id: stage,
            step,
            total_steps: total,
        }
    }

    /// The event by which `begin` completes an unfinished previous stage.
    pub open spec fn closing(&self) -> Seq<AddRepoProgressData> {
        if self@.len() > 0 && self@.last().percentage < 100 {
            seq![self.event_of(self@.last().task_id, self@.last().total_steps, self@.last().total_steps)]
        } else {
            Seq::empty()
        }
    }

    /// The stage of the last emission, if any.
    pub open spec fn current(&self) -> Option<AddRepoProgress> {
        if self@.len() == 0 {
            None
        } else {
            Some(self@.last().task_id)
        }
    }

    /// A reporter that has emitted nothing.
    pub fn new(platform: &str, user: &str, repo: &str) -> (r: ProgressReporter)
        ensures
            r.wf(),
            r@ == Seq::<AddRepoProgressData>::empty(),
            r.ident().0@ == platform@ && r.ident().1@ == user@ && r.ident().2@ == repo@,
    {
        ProgressReporter {
            platform: platform.to_owned(),
            user: user.to_owned(),
            repo: repo.to_owned(),
            events: Vec::new(),
        }
    }

    /// The events emitted so far.
    pub fn events(&self) -> (r: &Vec<AddRepoProgressData>)
        ensures
            r@ == self@,
    {
        &self.events
    }

    fn emit(&mut self, stage: AddRepoProgress, step: u64, total: u64)
        requires
            old(self).wf(),
            step <= total,
            old(self)@.len() > 0 ==> may_follow(
                old(self)@.last(),
                AddRepoProgressData {
                    platform: old(self).platform,
                    user: old(self).user,
                    repo: old(self).repo,
                    percentage: percentage_of(step as int, total as int) as u8,
                    task_id: stage,
                    step,
                    total_steps: total,
                },
            ),
        ensures
            final(self).wf(),
            final(self).ident() == old(self).ident(),
            final(self)@ == old(self)@.push(
                AddRepoProgressData {
                    platform: old(self).platform,
                    user: old(self).user,
                    repo: old(self).repo,
                    percentage: percentage_of(step as int, total as int) as u8,
                    task_id: stage,
                    step,
                    total_steps: total,
                },
            ),
    {
        let percentage = progress_percentage(step, total);
        proof {
            lemma_percentage(step as int, step as int, total as int);
        }
        let e = AddRepoProgressData {
            platform: self.platform.clone(),
            user: self.user.clone(),
            repo: self.repo.clone(),
            percentage,
            task_id: stage,
            step,
            total_steps: total,
        };
        let ghost before = self.events@;
        self.events.push(e);
        assert forall|i: int| 0 <= i < self.events@.len() - 1 implies may_follow(
            #[trigger] self.events@[i],
            self.events@[i + 1],
        ) by {
            if i < before.len() - 1 {
                assert(self.events@[i] == before[i]);
                assert(self.events@[i + 1] == before[i + 1]);
            }
        }
    }

    /// Starts `stage` with `total_steps` steps: completes the previous stage
    /// at 100% if it is not yet there, then emits the stage's first event at
    /// step 0.
    pub fn begin(&mut self, stage: AddRepoProgress, total_steps: u64)
        requires
            old(self).wf(),
            old(self).current() matches Some(s) ==> stage_rank(s) < stage_rank(stage),
        ensures
            final(self).wf(),
            final(self).ident() == old(self).ident(),
            final(self).current() == Some(stage),
            final(self)@ == old(self)@ + old(self).closing() + seq![old(self).event_of(stage, 0, total_steps)],
            final(self)@.subrange(0, old(self)@.len() as int) == old(self)@,
            final(self)@.len() == old(self)@.len() + 1 + (if old(self)@.len() > 0 && old(self)@.last().percentage
                < 100 {
                1int
            } else {
                0int
            }),
            old(self)@.len() > 0 && old(self)@.last().percentage < 100 ==> {
                let done = final(self)@[old(self)@.len() as int];
                &&& done.task_id == old(self)@.last().task_id
                &&& done.step == old(self)@.last().total_steps
                &&& done.total_steps == old(self)@.last().total_steps
                &&& done.percentage == 100
            },
            final(self)@.last().step == 0 && final(self)@.last().total_steps == total_steps,
            consistent(final(self)@.last()),
    {
        let n = self.events.len();
        if n > 0 {
            let last_stage = self.events[n - 1].task_id;
            let last_total = self.events[n - 1].total_steps;
            proof {
                assert(consistent(self.events@[n - 1]));
                lemma_percentage(self.events@[n - 1].step as int, last_total as int, last_total as int);
            }
            if self.events[n - 1].percentage < 100 {
                proof {
                    lemma_percentage(self.events@[n - 1].step as int, last_total as int, last_total as int);
                }
                self.emit(last_stage, last_total, last_total);
            }
            assert(self.events@.last().percentage == 100);
            assert(self.events@.last().task_id == last_stage);
        }
        proof {
            lemma_percentage(0, 0, total_steps as int);
        }
        self.emit(stage, 0, total_steps);
    }

    /// Completes one more step of the current stage, up to its total.
    pub fn advance(&mut self)
        requires
            old(self).wf(),
            old(self)@.len() > 0,
        ensures
            final(self).wf(),
            final(self).ident() == old(self).ident(),
            final(self)@.len() == old(self)@.len() + 1,
            final(self)@.subrange(0, old(self)@.len() as int) == old(self)@,
            final(self)@.last().task_id == old(self)@.last().task_id,
            final(self)@.last().total_steps == old(self)@.last().total_steps,
            final(self)@.last().step == if old(self)@.last().step < old(self)@.last().total_steps {
                old(self)@.last().step + 1
            } else {
                old(self)@.last().step as int
            },
            consistent(final(self)@.last()),
            final(self)@ == old(self)@.push(
                old(self).event_of(old(self)@.last().task_id, next_step(old(self)@.last()), old(self)@.last().total_steps),
            ),
    {
        let n = self.events.len();
        let stage = self.events[n - 1].task_id;
        let total = self.events[n - 1].total_steps;
        let step = self.events[n - 1].step;
        let next = if step < total { step + 1 } else { step };
        proof {
            lemma_percentage(step as int, next as int, total as int);
        }
        self.emit(stage, next, total);
    }

    /// Completes the current stage: emits its 100% event.
    pub fn finish(&mut self)
        requires
            old(self).wf(),
            old(self)@.len() > 0,
        ensures
            final(self).wf(),
            final(self).ident() == old(self).ident(),
            final(self)@.len() == old(self)@.len() + 1,
            final(self)@.subrange(0, old(self)@.len() as int) == old(self)@,
            final(self)@.last().task_id == old(self)@.last().task_id,
            final(self)@.last().step == old(self)@.last().total_steps,
            final(self)@.last().total_steps == old(self)@.last().total_steps,
            final(self)@.last().percentage == 100,
            final(self)@ == old(self)@.push(
                old(self).event_of(old(self)@.last().task_id, old(self)@.last().total_steps, old(self)@.last().total_steps),
            ),
    {
        let n = self.events.len();
        let stage = self.events[n - 1].task_id;
        let total = self.events[n - 1].total_steps;
        proof {
            lemma_percentage(self.events@[n - 1].step as int, total as int, total as int);
        }
        self.emit(stage, total, total);
    }
}

/// Progress law: whatever sequence of calls produced it, a reporter's
/// stream is well ordered (percentages never go down within a stage, each
/// stage reaches 100% before the next begins, stages come in the fixed
/// order), and every event's percentage is the one its step pair gives.
pub proof fn lemma_progress_ordered(r: ProgressReporter)
    requires
        r.wf(),
    ensures
        well_ordered(r@),
        forall|i: int| 0 <= i < r@.len() ==> consistent(#[trigger] r@[i]),
{
}

} // verus!
