use vstd::prelude::*;

verus! {

/// The Keccak-f[1600] permutation, as a function from 25 lanes to 25 lanes.
pub uninterp spec fn keccak_f1600(state: Seq<u64>) -> Seq<u64>;

/// `rounds` applications of [`keccak_f1600`], one after the other.
pub open spec fn permute_times(state: Seq<u64>, rounds: nat) -> Seq<u64>
    decreases rounds,
{
    if rounds == 0 {
        state
    } else {
        keccak_f1600(permute_times(state, (rounds - 1) as nat))
    }
}

/// Runs `keccak::f1600` on the lanes in place. The result is taken on trust to
/// be [`keccak_f1600`] of the lanes it was given: the permutation is a pure
/// function of the 25 lanes and never panics.
#[verifier::external_body]
pub(crate) fn permute(state: &mut [u64; 25])
    ensures
        final(state)@ == keccak_f1600(old(state)@),
{
    keccak::f1600(state);
}

} // verus!
