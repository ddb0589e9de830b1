use vstd::prelude::*;
use crate::error::PipelineError;

verus! {

/// The stages of one run. `Done` and `Failed` are terminal.
#[derive(Debug)]
pub enum Stage {
    Idle,
    Fetching,
    Extracting,
    Overlaying,
    Rewriting,
    Done,
    Failed(PipelineError),
}

/// How the work of the current stage ended.
#[derive(Debug)]
pub enum Outcome {
    Succeeded,
    Failed(PipelineError),
}

/// The state of one run of the pipeline.
#[derive(Debug)]
pub struct Pipeline {
    pub stage: Stage,
}

/// `Done` and `Failed` end a run.
pub open spec fn is_terminal(s: Stage) -> bool {
    s is Done || s is Failed
}

/// The temporary archive file is held from the start of the fetch until the
/// extraction has ended.
pub open spec fn holds_temp(s: Stage) -> bool {
    s is Fetching || s is Extracting
}

/// The stage after `s` when its work ended with `o`. A terminal stage stays.
pub open spec fn next_stage(s: Stage, o: Outcome) -> Stage {
    if is_terminal(s) {
        s
    } else {
        match o {
            Outcome::Failed(e) => Stage::Failed(e),
            Outcome::Succeeded => match s {
                Stage::Idle => Stage::Fetching,
                Stage::Fetching => Stage::Extracting,
                Stage::Extracting => Stage::Overlaying,
                Stage::Overlaying => Stage::Rewriting,
                _ => Stage::Done,
            },
        }
    }
}

/// The step from `s` on `o` takes the temporary archive.
pub open spec fn acquires(s: Stage, o: Outcome) -> bool {
    !holds_temp(s) && holds_temp(next_stage(s, o))
}

/// The step from `s` on `o` gives the temporary archive up.
pub open spec fn releases(s: Stage, o: Outcome) -> bool {
    holds_temp(s) && !holds_temp(next_stage(s, o))
}

/// The stage reached from `s` after the outcomes `os`, in order.
pub open spec fn run_from(s: Stage, os: Seq<Outcome>) -> Stage
    decreases os.len(),
{
    if os.len() == 0 {
        s
    } else {
        run_from(next_stage(s, os[0]), os.drop_first())
    }
}

/// How many steps of the run from `s` over `os` take the temporary archive.
pub open spec fn acquisitions(s: Stage, os: Seq<Outcome>) -> int
    decreases os.len(),
{
    if os.len() == 0 {
        0
    } else {
        (if acquires(s, os[0]) {
            1int
        } else {
            0int
        }) + acquisitions(next_stage(s, os[0]), os.drop_first())
    }
}

/// How many steps of the run from `s` over `os` give the temporary archive up.
pub open spec fn releases_count(s: Stage, os: Seq<Outcome>) -> int
    decreases os.len(),
{
    if os.len() == 0 {
        0
    } else {
        (if releases(s, os[0]) {
            1int
        } else {
            0int
        }) + releases_count(next_stage(s, os[0]), os.drop_first())
    }
}

/// One while the temporary archive is held, zero otherwise.
pub open spec fn held_count(s: Stage) -> int {
    if holds_temp(s) {
        1
    } else {
        0
    }
}

/// Over any run, takings and givings-up of the temporary archive differ by
/// whether it is held at the end and whether it was held at the start.
pub proof fn lemma_temp_balance(s: Stage, os: Seq<Outcome>)
    ensures
        acquisitions(s, os) - releases_count(s, os) == held_count(run_from(s, os)) - held_count(s),
    decreases os.len(),
{
    if os.len() > 0 {
        lemma_temp_balance(next_stage(s, os[0]), os.drop_first());
    }
}

/// A run that starts idle and reaches `Done` or `Failed` has given up the
/// temporary archive as often as it took it, and holds it no more.
pub proof fn lemma_terminal_run_releases_temp(os: Seq<Outcome>)
    requires
        is_terminal(run_from(Stage::Idle, os)),
    ensures
        !holds_temp(run_from(Stage::Idle, os)),
        acquisitions(Stage::Idle, os) == releases_count(Stage::Idle, os),
{
    lemma_temp_balance(Stage::Idle, os);
}

impl Pipeline {
    /// A run that has not started.
    pub fn new() -> (r: Pipeline)
        ensures
            r.stage is Idle,
    {
        Pipeline { stage: Stage::Idle }
    }

    /// Whether the run has ended, in `Done` or `Failed`.
    pub fn is_finished(&self) -> (r: bool)
        ensures
            r == is_terminal(self.stage),
    {
        match self.stage {
            Stage::Done | Stage::Failed(_) => true,
            _ => false,
        }
    }

    /// Whether the temporary archive is held in the current stage.
    pub fn holds_temp_archive(&self) -> (r: bool)
        ensures
            r == holds_temp(self.stage),
    {
        match self.stage {
            Stage::Fetching | Stage::Extracting => true,
            _ => false,
        }
    }

    /// Moves the run on after the current stage's work ended with `outcome`.
    /// The result says whether the temporary archive must be removed now.
    pub fn step(&mut self, outcome: Outcome) -> (release_temp: bool)
        ensures
            final(self).stage == next_stage(old(self).stage, outcome),
            release_temp == releases(old(self).stage, outcome),
    {
        let mut current = Stage::Idle;
        core::mem::swap(&mut current, &mut self.stage);
        let held = match current {
            Stage::Fetching | Stage::Extracting => true,
            _ => false,
        };
        let next = match current {
            Stage::Done => Stage::Done,
            Stage::Failed(e) => Stage::Failed(e),
            _ => match outcome {
                Outcome::Failed(e) => Stage::Failed(e),
                Outcome::Succeeded => match current {
                    Stage::Idle => Stage::Fetching,
                    Stage::Fetching => Stage::Extracting,
                    Stage::Extracting => Stage::Overlaying,
                    Stage::Overlaying => Stage::Rewriting,
                    _ => Stage::Done,
                },
            },
        };
        let held_next = match next {
            Stage::Fetching | Stage::Extracting => true,
            _ => false,
        };
        self.stage = next;
        held && !held_next
    }
}

} // verus!
