use vstd::prelude::*;
use crate::engine::LivingHash;
use crate::lanes::{xor_lanes, zero_state};

verus! {

/// Which kind of call a step records.
#[derive(Clone, Copy, Debug, PartialEq, Eq, Structural)]
pub enum SpongePhase {
    Absorb,
    Squeeze,
}

/// The record of one call: the sponge as it stood when the call returned.
#[derive(Debug)]
pub struct SpongeState {
    /// Position of the step in the trace, counted from zero.
    pub step_index: usize,
    /// The kind of call.
    pub phase: SpongePhase,
    /// For an absorb, the padded input; for a squeeze, the output.
    pub input: Vec<u8>,
    /// The 25 lanes after the call.
    pub state: [u64; 25],
    /// Lane by lane, the XOR of the lanes before the call and after it.
    pub diffs: [u64; 25],
}

/// What a [`SpongeState`] holds, as mathematical values.
#[verifier::ext_equal]
pub struct StepRecord {
    pub step_index: nat,
    pub phase: SpongePhase,
    pub input: Seq<u8>,
    pub state: Seq<u64>,
    pub diffs: Seq<u64>,
}

impl View for SpongeState {
    type V = StepRecord;

    open spec fn view(&self) -> StepRecord {
        StepRecord {
            step_index: self.step_index as nat,
            phase: self.phase,
            input: self.input@,
            state: self.state@,
            diffs: self.diffs@,
        }
    }
}

impl SpongeState {
    /// The record of the call at position `step_index` that took the lanes
    /// from `before` to `after`.
    pub fn record(
        step_index: usize,
        phase: SpongePhase,
        input: Vec<u8>,
        before: &[u64; 25],
        after: [u64; 25],
    ) -> (step: Self)
        ensures
            step@ == (StepRecord {
                step_index: step_index as nat,
                phase,
                input: input@,
                state: after@,
                diffs: xor_lanes(before@, after@),
            }),
    {
        let diffs: [u64; 25] = LivingHash::calculate_diffs(before, &after);
        SpongeState { step_index, phase, input, state: after, diffs }
    }
}

impl Clone for SpongeState {
    /// A copy that holds the same values.
    fn clone(&self) -> (copy: Self)
        ensures
            copy@ == self@,
    {
        SpongeState {
            step_index: self.step_index,
            phase: self.phase,
            input: self.input.clone(),
            state: self.state,
            diffs: self.diffs,
        }
    }
}

/// The views of the records of a trace, in order.
pub open spec fn trace_view(trace: Seq<SpongeState>) -> Seq<StepRecord> {
    Seq::new(trace.len(), |i: int| trace[i]@)
}

/// The lanes as they stood before step `k` of a trace: all zero before the
/// first step, and after that what the step before left.
pub open spec fn state_before(trace: Seq<StepRecord>, k: int) -> Seq<u64> {
    if k <= 0 {
        zero_state()
    } else {
        trace[k - 1].state
    }
}

/// Whether a trace is one that a sponge can have written: step `k` is
/// numbered `k`, and its diffs are the XOR of the lanes before and after it.
pub open spec fn trace_consistent(trace: Seq<StepRecord>) -> bool {
    forall|k: int|
        0 <= k < trace.len() ==> {
            &&& (#[trigger] trace[k]).step_index == k
            &&& trace[k].diffs == xor_lanes(state_before(trace, k), trace[k].state)
        }
}

} // verus!
