//! The polling loop's state machine. The loop itself suspends at exactly
//! two points -- the fixed-interval timer and the external cancellation
//! wait -- and hands whichever event fired first to `step`, which decides
//! the next state and what, if anything, to emit. Keeping the decisions
//! here leaves the waits to the embedding process and lets cancellation
//! take effect only at tick boundaries, never inside a computation.

use vstd::prelude::*;

use crate::rate::spec_compute;
use crate::rate::compute;
use crate::rate::RateOutcome;
use crate::snapshot::Snapshot;

verus! {

/// Where the polling loop stands.
#[derive(Clone, Copy, Debug, PartialEq, Eq, Structural)]
pub enum PollState {
    /// Exactly one snapshot taken; nothing to diff against yet.
    Warmup { last: Snapshot },
    /// Every tick diffs the new snapshot against `last`, which it then
    /// supersedes.
    Steady { last: Snapshot },
    /// Cancelled; no further tick produces anything.
    Stopped,
}

/// What ended one wait: the interval timer, with a fresh snapshot, or the
/// external cancellation signal.
#[derive(Clone, Copy, Debug, PartialEq, Eq, Structural)]
pub enum PollEvent {
    Tick(Snapshot),
    Cancel,
}

/// The transition relation of the polling loop.
pub open spec fn spec_step(st: PollState, ev: PollEvent) -> (PollState, Option<RateOutcome>) {
    match ev {
        PollEvent::Cancel => (PollState::Stopped, None),
        PollEvent::Tick(snap) => match st {
            PollState::Warmup { last } => (
                PollState::Steady { last: snap },
                Some(spec_compute(snap, last)),
            ),
            PollState::Steady { last } => (
                PollState::Steady { last: snap },
                Some(spec_compute(snap, last)),
            ),
            PollState::Stopped => (PollState::Stopped, None),
        },
    }
}

/// Process one event. A tick in warmup or steady state runs the rate
/// engine on (new, last) and retains the new snapshot as the next
/// previous; cancellation stops the loop at once, emitting nothing, so no
/// partial report can be produced.
pub fn step(st: PollState, ev: PollEvent) -> (r: (PollState, Option<RateOutcome>))
    ensures
        r == spec_step(st, ev),
{
    match ev {
        PollEvent::Cancel => (PollState::Stopped, None),
        PollEvent::Tick(snap) => match st {
            PollState::Warmup { last } => {
                let out = compute(&snap, &last);
                (PollState::Steady { last: snap }, Some(out))
            },
            PollState::Steady { last } => {
                let out = compute(&snap, &last);
                (PollState::Steady { last: snap }, Some(out))
            },
            PollState::Stopped => (PollState::Stopped, None),
        },
    }
}

/// Cancellation is clean from every state: the loop stops and emits
/// nothing, so an in-flight tick can never leave a partial report behind.
pub proof fn lemma_cancel_emits_nothing(st: PollState)
    ensures
        spec_step(st, PollEvent::Cancel) == (PollState::Stopped, None::<RateOutcome>),
{
}

} // verus!
