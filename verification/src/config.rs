use vstd::prelude::*;
use crate::error::SpongeError;

verus! {

/// Width of the sponge state in bits.
pub const STATE_BITS: usize = 1600;

/// Whether a rate and a capacity, both in bits, describe a usable sponge:
/// together they fill the 1600-bit state, and the rate is a positive whole
/// number of bytes.
pub open spec fn valid_configuration(rate_bits: int, capacity_bits: int) -> bool {
    &&& rate_bits + capacity_bits == 1600
    &&& rate_bits > 0
    &&& rate_bits % 8 == 0
}

/// A validated pair of rate and capacity. It cannot be changed once built.
#[derive(Clone, Copy, Debug)]
pub struct SpongeConfiguration {
    rate_bits: usize,
    capacity_bits: usize,
}

impl SpongeConfiguration {
    /// Every configuration is valid.
    #[verifier::type_invariant]
    spec fn well_formed(self) -> bool {
        valid_configuration(self.rate_bits as int, self.capacity_bits as int)
    }

    /// The rate in bits, in contracts.
    pub closed spec fn spec_rate_bits(&self) -> usize {
        self.rate_bits
    }

    /// The capacity in bits, in contracts.
    pub closed spec fn spec_capacity_bits(&self) -> usize {
        self.capacity_bits
    }

    /// The rate in bytes, in contracts.
    pub open spec fn spec_rate_bytes(&self) -> usize {
        (self.rate_bits() / 8) as usize
    }

    /// Accepts exactly the pairs that satisfy [`valid_configuration`].
    pub fn new(rate_bits: usize, capacity_bits: usize) -> (r: Result<Self, SpongeError>)
        ensures
            match r {
                Ok(c) => {
                    &&& valid_configuration(rate_bits as int, capacity_bits as int)
                    &&& c.rate_bits() == rate_bits
                    &&& c.capacity_bits() == capacity_bits
                },
                Err(e) => {
                    &&& !valid_configuration(rate_bits as int, capacity_bits as int)
                    &&& e == SpongeError::Configuration
                },
            },
    {
        if rate_bits == 0 || rate_bits > STATE_BITS || rate_bits % 8 != 0 {
            return Err(SpongeError::Configuration);
        }
        if capacity_bits != STATE_BITS - rate_bits {
            return Err(SpongeError::Configuration);
        }
        Ok(SpongeConfiguration { rate_bits, capacity_bits })
    }

    /// The rate in bits.
    #[verifier::when_used_as_spec(spec_rate_bits)]
    pub fn rate_bits(&self) -> (r: usize)
        ensures
            r == self.spec_rate_bits(),
            valid_configuration(r as int, self.spec_capacity_bits() as int),
    {
        proof {
            use_type_invariant(self);
        }
        self.rate_bits
    }

    /// The capacity in bits.
    #[verifier::when_used_as_spec(spec_capacity_bits)]
    pub fn capacity_bits(&self) -> (r: usize)
        ensures
            r == self.spec_capacity_bits(),
            valid_configuration(self.spec_rate_bits() as int, r as int),
    {
        proof {
            use_type_invariant(self);
        }
        self.capacity_bits
    }

    /// The rate in bytes: the size of one block, between 1 and 200.
    #[verifier::when_used_as_spec(spec_rate_bytes)]
    pub fn rate_bytes(&self) -> (r: usize)
        ensures
            r == self.spec_rate_bytes(),
            r * 8 == self.spec_rate_bits(),
            1 <= r <= 200,
    {
        proof {
            use_type_invariant(self);
        }
        self.rate_bits / 8
    }
}

} // verus!
