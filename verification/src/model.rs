use vstd::prelude::*;
use crate::config::valid_configuration;
use crate::lanes::{xor_lanes, zero_state};
use crate::padding::padded;
use crate::permutation::permute_times;
use crate::sponge::{absorb_blocks, squeeze_bytes, squeeze_rounds};
use crate::trace::{state_before, trace_consistent, SpongePhase, StepRecord};

verus! {

/// The sponge as mathematical values: its configuration, its 25 lanes and its
/// trace.
#[verifier::ext_equal]
pub struct SpongeModel {
    pub rate_bits: nat,
    pub capacity_bits: nat,
    pub state: Seq<u64>,
    pub trace: Seq<StepRecord>,
}

/// One call on a sponge.
pub enum SpongeCall {
    /// `absorb` with this input.
    Absorb(Seq<u8>),
    /// `squeeze` of this many bytes.
    Squeeze(nat),
}

impl SpongeCall {
    /// The phase that the call is recorded under.
    pub open spec fn phase(self) -> SpongePhase {
        match self {
            SpongeCall::Absorb(_) => SpongePhase::Absorb,
            SpongeCall::Squeeze(_) => SpongePhase::Squeeze,
        }
    }
}

impl SpongeModel {
    /// A fresh sponge: all lanes zero, nothing recorded.
    pub open spec fn initial(rate_bits: nat, capacity_bits: nat) -> SpongeModel {
        SpongeModel { rate_bits, capacity_bits, state: zero_state(), trace: Seq::empty() }
    }

    /// The size of one block in bytes.
    pub open spec fn rate_bytes(self) -> nat {
        self.rate_bits / 8
    }

    /// What holds of every sponge: its configuration is valid, its trace is
    /// consistent, and its lanes are what the last step left.
    pub open spec fn wf(self) -> bool {
        &&& valid_configuration(self.rate_bits as int, self.capacity_bits as int)
        &&& trace_consistent(self.trace)
        &&& self.state == state_before(self.trace, self.trace.len() as int)
    }

    /// The sponge after a call that left the lanes as `state`, with the step
    /// that records it appended to the trace.
    pub open spec fn record(self, phase: SpongePhase, input: Seq<u8>, state: Seq<u64>) -> SpongeModel {
        SpongeModel {
            rate_bits: self.rate_bits,
            capacity_bits: self.capacity_bits,
            state,
            trace: self.trace.push(
                StepRecord {
                    step_index: self.trace.len(),
                    phase,
                    input,
                    state,
                    diffs: xor_lanes(self.state, state),
                },
            ),
        }
    }

    /// The sponge after absorbing `input`: the input is padded and absorbed
    /// block by block, and the step records the padded input.
    pub open spec fn absorb(self, input: Seq<u8>) -> SpongeModel {
        let data = padded(input, self.rate_bytes());
        self.record(SpongePhase::Absorb, data, absorb_blocks(self.state, data, self.rate_bytes()))
    }

    /// The bytes that a squeeze of `count` bytes returns.
    pub open spec fn squeeze_output(self, count: nat) -> Seq<u8> {
        squeeze_bytes(self.state, count, self.rate_bytes())
    }

    /// The sponge after a squeeze of `count` bytes: the step records the
    /// output.
    pub open spec fn squeeze(self, count: nat) -> SpongeModel {
        self.record(
            SpongePhase::Squeeze,
            self.squeeze_output(count),
            permute_times(self.state, squeeze_rounds(count, self.rate_bytes())),
        )
    }

    /// The sponge after one call.
    pub open spec fn step(self, call: SpongeCall) -> SpongeModel {
        match call {
            SpongeCall::Absorb(input) => self.absorb(input),
            SpongeCall::Squeeze(count) => self.squeeze(count),
        }
    }

    /// The sponge after a sequence of calls, made in order.
    pub open spec fn run(self, calls: Seq<SpongeCall>) -> SpongeModel
        decreases calls.len(),
    {
        if calls.len() == 0 {
            self
        } else {
            self.run(calls.drop_last()).step(calls.last())
        }
    }
}

/// A fresh sponge with a valid configuration is well formed.
pub proof fn lemma_initial_wf(rate_bits: nat, capacity_bits: nat)
    requires
        valid_configuration(rate_bits as int, capacity_bits as int),
    ensures
        SpongeModel::initial(rate_bits, capacity_bits).wf(),
{
}

/// Recording a step keeps a sponge well formed, appends exactly one record,
/// numbers it by its position, and leaves the earlier records as they were.
pub proof fn lemma_record_wf(m: SpongeModel, phase: SpongePhase, input: Seq<u8>, state: Seq<u64>)
    requires
        m.wf(),
    ensures
        m.record(phase, input, state).wf(),
        m.record(phase, input, state).trace.len() == m.trace.len() + 1,
        m.record(phase, input, state).trace.last().step_index == m.trace.len(),
        m.record(phase, input, state).trace.last().phase == phase,
        m.record(phase, input, state).trace.drop_last() == m.trace,
{
    let after = m.record(phase, input, state);
    assert forall|k: int| 0 <= k < after.trace.len() implies {
        &&& (#[trigger] after.trace[k]).step_index == k
        &&& after.trace[k].diffs == xor_lanes(state_before(after.trace, k), after.trace[k].state)
    } by {
        if k < m.trace.len() {
            assert(after.trace[k] == m.trace[k]);
            assert(state_before(after.trace, k) == state_before(m.trace, k));
        }
    }
    assert(after.trace.drop_last() == m.trace);
}

/// Every call keeps a sponge well formed and appends exactly one record.
pub proof fn lemma_step_wf(m: SpongeModel, call: SpongeCall)
    requires
        m.wf(),
    ensures
        m.step(call).wf(),
        m.step(call).rate_bits == m.rate_bits,
        m.step(call).capacity_bits == m.capacity_bits,
        m.step(call).trace.len() == m.trace.len() + 1,
        m.step(call).trace.last().step_index == m.trace.len(),
        m.step(call).trace.last().phase == call.phase(),
        m.step(call).trace.drop_last() == m.trace,
{
    match call {
        SpongeCall::Absorb(input) => {
            let data = padded(input, m.rate_bytes());
            lemma_record_wf(
                m,
                SpongePhase::Absorb,
                data,
                absorb_blocks(m.state, data, m.rate_bytes()),
            );
        },
        SpongeCall::Squeeze(count) => {
            lemma_record_wf(
                m,
                SpongePhase::Squeeze,
                m.squeeze_output(count),
                permute_times(m.state, squeeze_rounds(count, m.rate_bytes())),
            );
        },
    }
}

/// After `k` calls on a fresh sponge the trace holds `k` steps: step `i` is
/// numbered `i` and has the phase of call `i`. The sponge is well formed
/// after every call.
pub proof fn lemma_trace_follows_calls(rate_bits: nat, capacity_bits: nat, calls: Seq<SpongeCall>)
    requires
        valid_configuration(rate_bits as int, capacity_bits as int),
    ensures
        SpongeModel::initial(rate_bits, capacity_bits).run(calls).wf(),
        SpongeModel::initial(rate_bits, capacity_bits).run(calls).trace.len() == calls.len(),
        forall|i: int|
            0 <= i < calls.len() ==> {
                &&& (#[trigger] SpongeModel::initial(rate_bits, capacity_bits).run(
                    calls,
                ).trace[i]).step_index == i
                &&& SpongeModel::initial(rate_bits, capacity_bits).run(calls).trace[i].phase
                    == calls[i].phase()
            },
    decreases calls.len(),
{
    let fresh = SpongeModel::initial(rate_bits, capacity_bits);
    if calls.len() == 0 {
        lemma_initial_wf(rate_bits, capacity_bits);
    } else {
        let earlier = fresh.run(calls.drop_last());
        lemma_trace_follows_calls(rate_bits, capacity_bits, calls.drop_last());
        lemma_step_wf(earlier, calls.last());
        let after = fresh.run(calls);
        assert(after == earlier.step(calls.last()));
        assert forall|i: int| 0 <= i < calls.len() implies {
            &&& (#[trigger] after.trace[i]).step_index == i
            &&& after.trace[i].phase == calls[i].phase()
        } by {
            if i < calls.len() - 1 {
                assert(after.trace[i] == after.trace.drop_last()[i]);
                assert(calls[i] == calls.drop_last()[i]);
            } else {
                assert(after.trace[i] == after.trace.last());
            }
        }
    }
}

/// The trace only grows: a sequence of calls appends one step for each call,
/// and the steps of its first `j` calls stay as those calls left them. The
/// configuration stays as it was.
pub proof fn lemma_run_extends_trace(m: SpongeModel, calls: Seq<SpongeCall>, j: int)
    requires
        0 <= j <= calls.len(),
    ensures
        m.run(calls).rate_bits == m.rate_bits,
        m.run(calls).capacity_bits == m.capacity_bits,
        m.run(calls).trace.len() == m.trace.len() + calls.len(),
        m.run(calls.take(j)).trace == m.run(calls).trace.take(m.trace.len() + j),
    decreases calls.len(),
{
    if calls.len() == 0 {
        assert(calls.take(j) == calls);
    } else {
        let earlier = calls.drop_last();
        if j == calls.len() {
            lemma_run_extends_trace(m, earlier, j - 1);
            assert(calls.take(j) == calls);
        } else {
            lemma_run_extends_trace(m, earlier, j);
            assert(earlier.take(j) == calls.take(j));
        }
        assert(m.run(calls) == m.run(earlier).step(calls.last()));
        assert(m.run(calls.take(j)).trace =~= m.run(calls).trace.take(m.trace.len() + j));
    }
}

/// Step `k` of a sequence of calls records call `k`: it is numbered by its
/// position and has the phase of the call; it holds the padded input of an
/// absorb or the output of a squeeze; its lanes are those that the call
/// left, and its diffs are their XOR with the lanes that the call found.
pub proof fn lemma_step_records_call(m: SpongeModel, calls: Seq<SpongeCall>, k: int)
    requires
        0 <= k < calls.len(),
    ensures
        ({
            let step = m.run(calls).trace[m.trace.len() + k];
            let before = m.run(calls.take(k));
            let after = m.run(calls.take(k + 1));
            &&& step.step_index == m.trace.len() + k
            &&& step.phase == calls[k].phase()
            &&& step.input == match calls[k] {
                SpongeCall::Absorb(input) => padded(input, m.rate_bytes()),
                SpongeCall::Squeeze(count) => before.squeeze_output(count),
            }
            &&& step.state == after.state
            &&& step.diffs == xor_lanes(before.state, after.state)
        }),
{
    let before = m.run(calls.take(k));
    let after = m.run(calls.take(k + 1));
    assert(calls.take(k + 1).drop_last() == calls.take(k));
    assert(calls.take(k + 1).last() == calls[k]);
    assert(after == before.step(calls[k]));
    lemma_run_extends_trace(m, calls.take(k), 0);
    lemma_run_extends_trace(m, calls, k + 1);
    assert(m.run(calls).trace[m.trace.len() + k] == after.trace[m.trace.len() + k]);
}

/// In a well-formed sponge every lane of every step's diffs is the XOR of
/// that lane before the step and after it.
pub proof fn lemma_step_diffs(m: SpongeModel, k: int, lane: int)
    requires
        m.wf(),
        0 <= k < m.trace.len(),
        0 <= lane < 25,
    ensures
        m.trace[k].step_index == k,
        m.trace[k].diffs[lane] == state_before(m.trace, k)[lane] ^ m.trace[k].state[lane],
{
}

/// A squeeze returns as many bytes as were asked for, whatever was absorbed
/// before it.
pub proof fn lemma_squeeze_len(m: SpongeModel, input: Seq<u8>, count: nat)
    ensures
        m.squeeze_output(count).len() == count,
        m.absorb(input).squeeze_output(count).len() == count,
{
}

} // verus!
