//! The order of the stages of one run.
//!
//! A run moves along `Start`, `Fetched`, `Extracted`, `Customized`,
//! `StylingIntegrated` (only where styling is requested) and `Done`, never
//! back. The first stage that fails ends the run in `Failed`, which holds
//! the stage and the cause. Nothing is undone: what was written stays.

use vstd::prelude::*;
use crate::extract::ExtractError;
use crate::fetch::FetchError;
use crate::manifest::TransformError;

verus! {

/// A stage of a run: the work that leads from one state to the next.
#[derive(Clone, Copy, Debug, PartialEq, Eq, Structural)]
pub enum Stage {
    /// Fetch the archive.
    Fetch,
    /// Extract the archive into the destination.
    Extract,
    /// Clear and customize the project.
    Customize,
    /// Integrate the stylesheet build.
    Styling,
}

/// Why a stage failed.
#[derive(Clone, Copy, Debug, PartialEq, Eq, Structural)]
pub enum Cause {
    /// The destination exists already; nothing was fetched or written.
    DestinationExists,
    Fetch(FetchError),
    Extract(ExtractError),
    Transform(TransformError),
}

/// The state of a run.
#[derive(Clone, Copy, Debug, PartialEq, Eq, Structural)]
pub enum RunState {
    Start,
    Fetched,
    Extracted,
    Customized,
    StylingIntegrated,
    Done,
    Failed { stage: Stage, cause: Cause },
}

/// How a stage ended.
#[derive(Clone, Copy, Debug, PartialEq, Eq, Structural)]
pub enum Outcome {
    Succeeded,
    Failed(Cause),
}

/// A run is over: it is `Done` or `Failed`.
pub open spec fn is_over(state: RunState) -> bool {
    state is Done || state is Failed
}

/// The stage to perform in a state, if any. `Customized` asks for the
/// styling stage exactly where styling is requested.
pub open spec fn pending(state: RunState, styling: bool) -> Option<Stage> {
    match state {
        RunState::Start => Some(Stage::Fetch),
        RunState::Fetched => Some(Stage::Extract),
        RunState::Extracted => Some(Stage::Customize),
        RunState::Customized => if styling {
            Some(Stage::Styling)
        } else {
            None
        },
        _ => None,
    }
}

/// The state that a stage leads to when it succeeds.
pub open spec fn reached(stage: Stage) -> RunState {
    match stage {
        Stage::Fetch => RunState::Fetched,
        Stage::Extract => RunState::Extracted,
        Stage::Customize => RunState::Customized,
        Stage::Styling => RunState::StylingIntegrated,
    }
}

/// The state after one move. Where a stage is pending, its outcome decides:
/// success leads on, failure ends the run with stage and cause. Where none
/// is pending, a run that is not over is done; a run that is over stays as
/// it is.
pub open spec fn moved(state: RunState, styling: bool, outcome: Outcome) -> RunState {
    match pending(state, styling) {
        Some(stage) => match outcome {
            Outcome::Succeeded => reached(stage),
            Outcome::Failed(cause) => RunState::Failed { stage, cause },
        },
        None => if is_over(state) {
            state
        } else {
            RunState::Done
        },
    }
}

/// How far a run has come.
pub open spec fn progress(state: RunState) -> nat {
    match state {
        RunState::Start => 0,
        RunState::Fetched => 1,
        RunState::Extracted => 2,
        RunState::Customized => 3,
        RunState::StylingIntegrated => 4,
        RunState::Done => 5,
        RunState::Failed { .. } => 5,
    }
}

/// The state after a sequence of moves.
pub open spec fn moved_all(state: RunState, styling: bool, outcomes: Seq<Outcome>) -> RunState
    decreases outcomes.len(),
{
    if outcomes.len() == 0 {
        state
    } else {
        moved(moved_all(state, styling, outcomes.drop_last()), styling, outcomes.last())
    }
}

/// The state in which a run begins: `Start`, unless the destination exists
/// already, which fails the run before anything is fetched or written.
pub fn begin(destination_exists: bool) -> (state: RunState)
    ensures
        state == if destination_exists {
            RunState::Failed { stage: Stage::Extract, cause: Cause::DestinationExists }
        } else {
            RunState::Start
        },
{
    if destination_exists {
        RunState::Failed { stage: Stage::Extract, cause: Cause::DestinationExists }
    } else {
        RunState::Start
    }
}

/// Tells whether a run is over.
pub fn finished(state: RunState) -> (over: bool)
    ensures
        over == is_over(state),
{
    match state {
        RunState::Done => true,
        RunState::Failed { .. } => true,
        _ => false,
    }
}

/// The stage to perform next, if any.
pub fn next_stage(state: RunState, styling: bool) -> (stage: Option<Stage>)
    ensures
        stage == pending(state, styling),
{
    match state {
        RunState::Start => Some(Stage::Fetch),
        RunState::Fetched => Some(Stage::Extract),
        RunState::Extracted => Some(Stage::Customize),
        RunState::Customized => if styling {
            Some(Stage::Styling)
        } else {
            None
        },
        _ => None,
    }
}

/// Moves a run on by one state. `outcome` is how the pending stage ended;
/// where no stage is pending it is not looked at.
pub fn advance(state: RunState, styling: bool, outcome: Outcome) -> (next: RunState)
    ensures
        next == moved(state, styling, outcome),
{
    match next_stage(state, styling) {
        Some(stage) => match outcome {
            Outcome::Succeeded => match stage {
                Stage::Fetch => RunState::Fetched,
                Stage::Extract => RunState::Extracted,
                Stage::Customize => RunState::Customized,
                Stage::Styling => RunState::StylingIntegrated,
            },
            Outcome::Failed(cause) => RunState::Failed { stage, cause },
        },
        None => if finished(state) {
            state
        } else {
            RunState::Done
        },
    }
}

/// A run that is over stays as it is, whatever is reported: the first
/// failure is the one that is kept, and no stage follows it.
pub proof fn lemma_over_stays(state: RunState, styling: bool, outcomes: Seq<Outcome>)
    requires
        is_over(state),
    ensures
        pending(state, styling) is None,
        moved_all(state, styling, outcomes) == state,
    decreases outcomes.len(),
{
    if outcomes.len() > 0 {
        lemma_over_stays(state, styling, outcomes.drop_last());
    }
}

/// A run never moves back: each move of a run that is not over takes it
/// further.
pub proof fn lemma_moves_forward(state: RunState, styling: bool, outcome: Outcome)
    ensures
        !is_over(state) ==> progress(moved(state, styling, outcome)) > progress(state),
        is_over(state) ==> moved(state, styling, outcome) == state,
{
}

/// A stage that fails ends the run at once, with that stage and its cause.
pub proof fn lemma_failure_surfaces(state: RunState, styling: bool, cause: Cause)
    requires
        pending(state, styling) is Some,
    ensures
        moved(state, styling, Outcome::Failed(cause)) == (RunState::Failed {
            stage: pending(state, styling)->0,
            cause,
        }),
{
}

/// The stages of a run in which nothing fails, in order: fetch, extract,
/// customize, and styling exactly where it is requested. After them the run
/// is done.
pub proof fn lemma_run_completes(styling: bool)
    ensures
        pending(RunState::Start, styling) == Some(Stage::Fetch),
        pending(RunState::Fetched, styling) == Some(Stage::Extract),
        pending(RunState::Extracted, styling) == Some(Stage::Customize),
        pending(RunState::Customized, styling) == if styling {
            Some(Stage::Styling)
        } else {
            None::<Stage>
        },
        moved_all(
            RunState::Start,
            styling,
            Seq::new(if styling { 5nat } else { 4nat }, |i: int| Outcome::Succeeded),
        ) == RunState::Done,
{
    let ok = Outcome::Succeeded;
    let all = Seq::new(if styling { 5nat } else { 4nat }, |i: int| Outcome::Succeeded);
    let three = seq![ok, ok, ok];
    assert(three.drop_last() =~= seq![ok, ok]);
    assert(seq![ok, ok].drop_last() =~= seq![ok]);
    assert(seq![ok].drop_last() =~= Seq::<Outcome>::empty());
    reveal_with_fuel(moved_all, 4);
    assert(moved_all(RunState::Start, styling, three) == RunState::Customized);
    let four = seq![ok, ok, ok, ok];
    assert(four.drop_last() =~= three);
    if styling {
        assert(all.drop_last() =~= four);
        assert(moved_all(RunState::Start, styling, four) == RunState::StylingIntegrated);
    } else {
        assert(all =~= four);
    }
}

} // verus!
