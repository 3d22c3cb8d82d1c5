use vstd::prelude::*;
use vstd::arithmetic::div_mod::lemma_fundamental_div_mod_converse;
use vstd::slice::slice_subrange;
use crate::lanes::{read_state_bytes, state_byte, state_bytes, xor_block, xor_block_into};
use crate::permutation::{keccak_f1600, permute, permute_times};

verus! {

/// The state after absorbing `data` block by block: each block of
/// `rate_bytes` bytes is XORed into the state, and the state is permuted once
/// after each. Bytes that follow the last whole block are left out.
pub open spec fn absorb_blocks(state: Seq<u64>, data: Seq<u8>, rate_bytes: nat) -> Seq<u64>
    decreases data.len(),
{
    if rate_bytes == 0 || data.len() < rate_bytes {
        state
    } else {
        absorb_blocks(
            keccak_f1600(xor_block(state, data.subrange(0, rate_bytes as int))),
            data.subrange(rate_bytes as int, data.len() as int),
            rate_bytes,
        )
    }
}

/// The `count` bytes that a squeeze reads from the state: byte `i` is byte
/// `i % rate_bytes` of the state after `i / rate_bytes` permutations. The
/// first block is read from the state as it stands.
pub open spec fn squeeze_bytes(state: Seq<u64>, count: nat, rate_bytes: nat) -> Seq<u8> {
    Seq::new(
        count,
        |i: int|
            state_byte(
                permute_times(state, (i / rate_bytes as int) as nat),
                i % rate_bytes as int,
            ),
    )
}

/// How often a squeeze of `count` bytes permutes the state: once between
/// each two blocks that it reads, so not at all for up to one block.
pub open spec fn squeeze_rounds(count: nat, rate_bytes: nat) -> nat {
    if count == 0 {
        0
    } else {
        ((count - 1) / rate_bytes as int) as nat
    }
}

/// Absorbing a single block XORs it into the state and permutes once.
pub proof fn lemma_absorb_one_block(state: Seq<u64>, block: Seq<u8>)
    requires
        block.len() > 0,
    ensures
        absorb_blocks(state, block, block.len()) == keccak_f1600(xor_block(state, block)),
{
    let rate = block.len();
    assert(block.subrange(0, rate as int) == block);
    assert(block.subrange(rate as int, rate as int).len() == 0);
    reveal_with_fuel(absorb_blocks, 2);
}

/// A squeeze of up to one block returns the first bytes of the state as it
/// stands and does not permute it.
pub proof fn lemma_squeeze_one_block(state: Seq<u64>, count: nat, rate_bytes: nat)
    requires
        count <= rate_bytes,
    ensures
        squeeze_bytes(state, count, rate_bytes) == state_bytes(state, count),
        squeeze_rounds(count, rate_bytes) == 0,
{
    let read = squeeze_bytes(state, count, rate_bytes);
    assert forall|i: int| 0 <= i < count implies read[i] == state_byte(state, i) by {
        lemma_fundamental_div_mod_converse(i, rate_bytes as int, 0, i);
    }
    if count > 0 {
        lemma_fundamental_div_mod_converse(count - 1, rate_bytes as int, 0, count - 1);
    }
    assert(read =~= state_bytes(state, count));
}

/// Absorbs the whole blocks of `data` into the state.
pub fn absorb_into(state: &mut [u64; 25], data: &[u8], rate_bytes: usize)
    requires
        rate_bytes > 0,
    ensures
        final(state)@ == absorb_blocks(old(state)@, data@, rate_bytes as nat),
{
    let mut offset: usize = 0;
    assert(data@.subrange(0, data@.len() as int) == data@);
    while data.len() - offset >= rate_bytes
        invariant
            rate_bytes > 0,
            offset <= data@.len(),
            absorb_blocks(
                state@,
                data@.subrange(offset as int, data@.len() as int),
                rate_bytes as nat,
            ) == absorb_blocks(old(state)@, data@, rate_bytes as nat),
        decreases data@.len() - offset,
    {
        let ghost rest = data@.subrange(offset as int, data@.len() as int);
        let block = slice_subrange(data, offset, offset + rate_bytes);
        assert(block@ == rest.subrange(0, rate_bytes as int));
        assert(data@.subrange(offset + rate_bytes, data@.len() as int) == rest.subrange(
            rate_bytes as int,
            rest.len() as int,
        ));
        xor_block_into(state, block);
        permute(state);
        offset += rate_bytes;
    }
}

/// Reads `count` bytes from the state, a block of `rate_bytes` at a time,
/// permuting the state between one block and the next.
pub fn squeeze_from(state: &mut [u64; 25], count: usize, rate_bytes: usize) -> (out: Vec<u8>)
    requires
        1 <= rate_bytes <= 200,
    ensures
        out@ == squeeze_bytes(old(state)@, count as nat, rate_bytes as nat),
        final(state)@ == permute_times(
            old(state)@,
            squeeze_rounds(count as nat, rate_bytes as nat),
        ),
{
    let mut out: Vec<u8> = Vec::new();
    let mut left: usize = count;
    let ghost mut blocks: nat = 0;
    while left > 0
        invariant
            1 <= rate_bytes <= 200,
            left <= count,
            out@.len() == count - left,
            blocks == 0 <==> left == count,
            left > 0 ==> out@.len() == blocks * rate_bytes,
            left == 0 && count > 0 ==> blocks - 1 == (count - 1) / rate_bytes as int,
            state@ == permute_times(
                old(state)@,
                if blocks == 0 {
                    0
                } else {
                    (blocks - 1) as nat
                },
            ),
            out@ == squeeze_bytes(old(state)@, out@.len(), rate_bytes as nat),
        decreases left,
    {
        if left < count {
            permute(state);
        }
        let take: usize = if left < rate_bytes {
            left
        } else {
            rate_bytes
        };
        let ghost before = out@;
        read_state_bytes(state, take, &mut out);
        left -= take;
        proof {
            let r = rate_bytes as int;
            let base = before.len() as int;
            assert(state@ == permute_times(old(state)@, blocks));
            assert((blocks + 1) * r == blocks * r + r) by (nonlinear_arith);
            let whole = squeeze_bytes(old(state)@, out@.len(), rate_bytes as nat);
            assert forall|i: int| 0 <= i < out@.len() implies out@[i] == whole[i] by {
                if i >= base {
                    lemma_fundamental_div_mod_converse(i, r, blocks as int, i - base);
                }
            }
            assert(out@ == whole);
            if left == 0 {
                lemma_fundamental_div_mod_converse(count - 1, r, blocks as int, take - 1);
            }
            blocks = blocks + 1;
        }
    }
    out
}

} // verus!
