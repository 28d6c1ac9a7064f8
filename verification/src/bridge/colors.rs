//! The plain pipeline: a frame of the screen is summed up, and the LEDs are handed what
//! came out.

use vstd::prelude::*;

use crate::gpu::compute::ComputeModel;
use crate::gpu::{ComputeError, ComputeOutput};

verus! {

/// What becomes of a frame.
#[derive(Debug, Clone, Copy, PartialEq, Eq, Structural)]
pub enum FrameOutcome {
    /// Its result is waited for.
    Await,
    /// The frame before it is still being worked on.
    Skipped,
    /// There is no buffer to read.
    NoBuffer,
    /// The buffer is empty.
    EmptyBuffer,
    Failed,
}

/// What becomes of a frame, by why a run on it was refused.
pub open spec fn outcome_of(refused: Option<ComputeError>) -> FrameOutcome {
    match refused {
        None => FrameOutcome::Await,
        Some(ComputeError::DispatchInFlight) => FrameOutcome::Skipped,
        Some(ComputeError::NoDmabuf) => FrameOutcome::NoBuffer,
        Some(ComputeError::EmptyDmabuf) => FrameOutcome::EmptyBuffer,
        Some(_) => FrameOutcome::Failed,
    }
}

/// What becomes of a frame once a run on it was asked for.
pub fn frame_ready(refused: Option<&ComputeError>) -> (outcome: FrameOutcome)
    ensures
        outcome == (match refused {
            None => outcome_of(None),
            Some(error) => outcome_of(Some(*error)),
        }),
{
    match refused {
        None => FrameOutcome::Await,
        Some(ComputeError::DispatchInFlight) => FrameOutcome::Skipped,
        Some(ComputeError::NoDmabuf) => FrameOutcome::NoBuffer,
        Some(ComputeError::EmptyDmabuf) => FrameOutcome::EmptyBuffer,
        Some(_) => FrameOutcome::Failed,
    }
}

/// What is done with a result.
#[derive(Debug, Clone, Copy, PartialEq, Eq, Structural)]
pub enum ColorAction {
    /// The LEDs are handed the sums.
    HandleColors(ComputeOutput),
    /// The next frame is asked for.
    ComputeDone,
}

/// The actions for a result, in this order. Where the result got lost there are none,
/// and no further frame is asked for.
pub open spec fn color_actions(result: Option<ComputeOutput>) -> Seq<ColorAction> {
    match result {
        Some(output) => seq![ColorAction::HandleColors(output), ColorAction::ComputeDone],
        None => Seq::empty(),
    }
}

/// What is done with the result of a run.
pub fn compute_done(result: Option<ComputeOutput>) -> (actions: Vec<ColorAction>)
    ensures
        actions@ == color_actions(result),
{
    let actions = match result {
        Some(output) => vec![ColorAction::HandleColors(output), ColorAction::ComputeDone],
        None => Vec::new(),
    };
    assert(actions@ =~= color_actions(result));
    actions
}

/// A frame is waited for just if its run could start on the device as it is: while another
/// run is in flight it is skipped, and without a buffer there is nothing to run on.
pub proof fn frame_is_awaited_if_its_run_starts(compute: ComputeModel)
    ensures
        outcome_of(compute.refusal()) == FrameOutcome::Await <==> !compute.in_flight
            && compute.input is Some,
        outcome_of(compute.refusal()) == FrameOutcome::Skipped <==> compute.in_flight,
        outcome_of(compute.refusal()) == FrameOutcome::NoBuffer <==> !compute.in_flight
            && compute.input is None,
{
}

/// A result is shown before the next frame is asked for, and is shown unchanged. A lost one
/// is not followed by another frame.
pub proof fn result_is_shown_before_next_frame(output: ComputeOutput)
    ensures
        color_actions(Some(output)).len() == 2,
        color_actions(Some(output))[0] == ColorAction::HandleColors(output),
        color_actions(Some(output))[1] == ColorAction::ComputeDone,
        color_actions(None).len() == 0,
{
}

} // verus!
