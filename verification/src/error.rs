use vstd::prelude::*;

verus! {

/// Why a sponge could not be built.
#[derive(Clone, Copy, Debug, PartialEq, Eq, Structural)]
pub enum SpongeError {
    /// Rate and capacity do not fill the 1600-bit state, or the rate is empty
    /// or not a whole number of bytes.
    Configuration,
}

} // verus!
