use vstd::prelude::*;
use vstd::slice::slice_to_vec;
use crate::config::{valid_configuration, SpongeConfiguration};
use crate::error::SpongeError;
use crate::lanes::xor_lanes;
use crate::model::{lemma_initial_wf, lemma_record_wf, SpongeModel};
use crate::padding::{pad, padded};
use crate::sponge::{absorb_into, squeeze_from};
use crate::trace::{trace_view, SpongePhase, SpongeState};

verus! {

/// A Keccak sponge that records every call in a trace.
pub struct LivingHash {
    trace: Vec<SpongeState>,
    current_state: [u64; 25],
    config: SpongeConfiguration,
}

impl View for LivingHash {
    type V = SpongeModel;

    closed spec fn view(&self) -> SpongeModel {
        SpongeModel {
            rate_bits: self.config.rate_bits() as nat,
            capacity_bits: self.config.capacity_bits() as nat,
            state: self.current_state@,
            trace: trace_view(self.trace@),
        }
    }
}

impl LivingHash {
    /// Whether the sponge is well formed. `new` builds one that is, and every
    /// call keeps it so.
    pub open spec fn wf(&self) -> bool {
        self@.wf()
    }

    /// Builds a fresh sponge for a rate and a capacity in bits. They must add
    /// up to 1600, and the rate must be a positive whole number of bytes.
    pub fn new(rate: usize, capacity: usize) -> (r: Result<Self, SpongeError>)
        ensures
            match r {
                Ok(engine) => {
                    &&& valid_configuration(rate as int, capacity as int)
                    &&& engine.wf()
                    &&& engine@ == SpongeModel::initial(rate as nat, capacity as nat)
                },
                Err(e) => {
                    &&& !valid_configuration(rate as int, capacity as int)
                    &&& e == SpongeError::Configuration
                },
            },
    {
        match SpongeConfiguration::new(rate, capacity) {
            Ok(config) => Ok(Self::with_configuration(config)),
            Err(e) => Err(e),
        }
    }

    /// Builds a fresh sponge for a configuration that was validated before.
    pub fn with_configuration(config: SpongeConfiguration) -> (engine: Self)
        ensures
            engine.wf(),
            engine@ == SpongeModel::initial(
                config.rate_bits() as nat,
                config.capacity_bits() as nat,
            ),
    {
        let rate: usize = config.rate_bits();
        let engine = LivingHash { trace: Vec::new(), current_state: [0u64;25], config };
        proof {
            lemma_initial_wf(rate as nat, config.capacity_bits() as nat);
            assert(engine@ =~= SpongeModel::initial(rate as nat, config.capacity_bits() as nat));
        }
        engine
    }

    /// The rate and capacity that the sponge was built with.
    pub fn configuration(&self) -> (config: SpongeConfiguration)
        ensures
            config.rate_bits() == self@.rate_bits,
            config.capacity_bits() == self@.capacity_bits,
    {
        self.config
    }

    /// Takes `state` as the lanes that a call left, and appends the step that
    /// records the call.
    fn record_step(&mut self, phase: SpongePhase, input: Vec<u8>, state: [u64; 25])
        ensures
            final(self)@ == old(self)@.record(phase, input@, state@),
            old(self).wf() ==> final(self).wf(),
    {
        let step = SpongeState::record(
            self.trace.len(),
            phase,
            input,
            &self.current_state,
            state,
        );
        self.current_state = state;
        self.trace.push(step);
        proof {
            assert(final(self)@.trace =~= old(self)@.record(phase, input@, state@).trace);
            if old(self).wf() {
                lemma_record_wf(old(self)@, phase, input@, state@);
            }
        }
    }

    /// Pads the input, absorbs it block by block, and records the step.
    pub fn absorb(&mut self, input: &[u8]) -> (r: Result<(), SpongeError>)
        ensures
            r is Ok,
            final(self)@ == old(self)@.absorb(input@),
            old(self).wf() ==> final(self).wf(),
    {
        let rate_bytes: usize = self.config.rate_bytes();
        let mut padded_input: Vec<u8> = slice_to_vec(input);
        pad(&mut padded_input, rate_bytes);
        let mut state: [u64; 25] = self.current_state;
        absorb_into(&mut state, padded_input.as_slice(), rate_bytes);
        self.record_step(SpongePhase::Absorb, padded_input, state);
        Ok(())
    }

    /// Reads `output_length` bytes from the sponge and records the step.
    pub fn squeeze(&mut self, output_length: usize) -> (r: Result<Vec<u8>, SpongeError>)
        ensures
            r matches Ok(output) && output@ == old(self)@.squeeze_output(output_length as nat),
            r matches Ok(output) && output@.len() == output_length,
            final(self)@ == old(self)@.squeeze(output_length as nat),
            old(self).wf() ==> final(self).wf(),
    {
        let rate_bytes: usize = self.config.rate_bytes();
        let mut state: [u64; 25] = self.current_state;
        let output: Vec<u8> = squeeze_from(&mut state, output_length, rate_bytes);
        self.record_step(SpongePhase::Squeeze, output.clone(), state);
        Ok(output)
    }

    /// The steps recorded so far, in call order.
    pub fn get_trace(&self) -> (trace: &Vec<SpongeState>)
        ensures
            trace_view(trace@) == self@.trace,
    {
        &self.trace
    }

    /// The step at `index`, or `None` past the end of the trace.
    pub fn get_trace_step(&self, index: usize) -> (step: Option<&SpongeState>)
        ensures
            match step {
                Some(s) => index < self@.trace.len() && s@ == self@.trace[index as int],
                None => index >= self@.trace.len(),
            },
    {
        if index < self.trace.len() {
            Some(&self.trace[index])
        } else {
            None
        }
    }

    /// Appends the pad10*1 padding for this sponge's rate to `input`.
    pub fn apply_padding(&self, input: &mut Vec<u8>) -> (r: Result<(), SpongeError>)
        ensures
            r is Ok,
            final(input)@ == padded(old(input)@, self@.rate_bytes()),
            final(input)@.len() > old(input)@.len(),
            final(input)@.len() % self@.rate_bytes() == 0,
    {
        pad(input, self.config.rate_bytes());
        Ok(())
    }

    /// Lane by lane, the XOR of two states.
    pub fn calculate_diffs(prev_state: &[u64; 25], current_state: &[u64; 25]) -> (diffs: [u64; 25])
        ensures
            diffs@ == xor_lanes(prev_state@, current_state@),
    {
        let mut diffs: [u64; 25] = [0u64;25];
        let mut i: usize = 0;
        while i < 25
            invariant
                i <= 25,
                forall|k: int| 0 <= k < i ==> diffs@[k] == prev_state@[k] ^ current_state@[k],
            decreases 25 - i,
        {
            diffs[i] = prev_state[i] ^ current_state[i];
            i += 1;
        }
        diffs
    }
}

} // verus!
