use vstd::prelude::*;

verus! {

/// Byte `i` of a block as a lane value, and zero past the end of the block.
pub open spec fn block_byte(block: Seq<u8>, i: int) -> u64 {
    if 0 <= i < block.len() {
        block[i] as u64
    } else {
        0
    }
}

/// Lane `j` of a block: its bytes `8 * j` to `8 * j + 7`, the first one least
/// significant. Bytes past the end of the block count as zero.
pub open spec fn block_lane(block: Seq<u8>, j: int) -> u64 {
    block_byte(block, 8 * j)
        | (block_byte(block, 8 * j + 1) << 8)
        | (block_byte(block, 8 * j + 2) << 16)
        | (block_byte(block, 8 * j + 3) << 24)
        | (block_byte(block, 8 * j + 4) << 32)
        | (block_byte(block, 8 * j + 5) << 40)
        | (block_byte(block, 8 * j + 6) << 48)
        | (block_byte(block, 8 * j + 7) << 56)
}

/// The state with a block XORed into its first bytes.
pub open spec fn xor_block(state: Seq<u64>, block: Seq<u8>) -> Seq<u64> {
    Seq::new(25, |j: int| state[j] ^ block_lane(block, j))
}

/// Byte `k` of a lane, the least significant being byte 0.
pub open spec fn lane_byte(lane: u64, k: int) -> u8 {
    ((lane >> ((8 * k) as u64)) & 0xff) as u8
}

/// Byte `i` of the state: lanes in order, each least significant byte first.
pub open spec fn state_byte(state: Seq<u64>, i: int) -> u8 {
    lane_byte(state[i / 8], i % 8)
}

/// The first `count` bytes of the state.
pub open spec fn state_bytes(state: Seq<u64>, count: nat) -> Seq<u8> {
    Seq::new(count, |i: int| state_byte(state, i))
}

/// Lane by lane, the XOR of two states.
pub open spec fn xor_lanes(a: Seq<u64>, b: Seq<u64>) -> Seq<u64> {
    Seq::new(25, |i: int| a[i] ^ b[i])
}

/// The state of a fresh sponge: every lane zero.
pub open spec fn zero_state() -> Seq<u64> {
    Seq::new(25, |i: int| 0u64)
}

/// A byte of the XOR of two lanes is the XOR of their bytes.
proof fn lemma_byte_of_xor(a: u64, b: u64, shift: u64)
    by (bit_vector)
    requires
        shift < 64,
    ensures
        (((a ^ b) >> shift) & 0xff) as u8
            == (((a >> shift) & 0xff) as u8) ^ (((b >> shift) & 0xff) as u8),
{
}

/// Byte `k` of eight bytes packed least significant first is the `k`-th of
/// them.
proof fn lemma_byte_of_packed(
    b0: u64,
    b1: u64,
    b2: u64,
    b3: u64,
    b4: u64,
    b5: u64,
    b6: u64,
    b7: u64,
    k: u64,
)
    by (bit_vector)
    requires
        b0 < 256,
        b1 < 256,
        b2 < 256,
        b3 < 256,
        b4 < 256,
        b5 < 256,
        b6 < 256,
        b7 < 256,
        k < 8,
    ensures
        ((b0 | (b1 << 8) | (b2 << 16) | (b3 << 24) | (b4 << 32) | (b5 << 40) | (b6 << 48)
            | (b7 << 56)) >> (8 * k) as u64) & 0xff == (if k == 0 {
            b0
        } else if k == 1 {
            b1
        } else if k == 2 {
            b2
        } else if k == 3 {
            b3
        } else if k == 4 {
            b4
        } else if k == 5 {
            b5
        } else if k == 6 {
            b6
        } else {
            b7
        }),
{
}

/// Byte `k` of lane `j` of a block is byte `8 * j + k` of the block, and zero
/// past its end.
pub proof fn lemma_block_lane_byte(block: Seq<u8>, j: int, k: int)
    requires
        0 <= j,
        0 <= k < 8,
    ensures
        lane_byte(block_lane(block, j), k) == block_byte(block, 8 * j + k),
{
    lemma_byte_of_packed(
        block_byte(block, 8 * j),
        block_byte(block, 8 * j + 1),
        block_byte(block, 8 * j + 2),
        block_byte(block, 8 * j + 3),
        block_byte(block, 8 * j + 4),
        block_byte(block, 8 * j + 5),
        block_byte(block, 8 * j + 6),
        block_byte(block, 8 * j + 7),
        k as u64,
    );
}

/// XORing a block into the state XORs byte `i` of the block into byte `i` of
/// the state, and leaves the bytes past the end of the block as they were.
pub proof fn lemma_xor_block_byte(state: Seq<u64>, block: Seq<u8>, i: int)
    requires
        0 <= i < 200,
    ensures
        state_byte(xor_block(state, block), i) == if i < block.len() {
            state_byte(state, i) ^ block[i]
        } else {
            state_byte(state, i)
        },
{
    let j = i / 8;
    let k = i % 8;
    lemma_byte_of_xor(state[j], block_lane(block, j), (8 * k) as u64);
    lemma_block_lane_byte(block, j, k);
    if i >= block.len() {
        let b = state_byte(state, i);
        assert(b ^ 0u8 == b) by (bit_vector);
    }
}

/// Reads byte `i` of a block, or zero past its end.
fn load_byte(block: &[u8], i: usize) -> (b: u64)
    ensures
        b == block_byte(block@, i as int),
{
    if i < block.len() {
        block[i] as u64
    } else {
        0
    }
}

/// Packs the eight bytes of lane `j` of a block.
fn load_lane(block: &[u8], j: usize) -> (lane: u64)
    requires
        j < 25,
    ensures
        lane == block_lane(block@, j as int),
{
    let at: usize = 8 * j;
    load_byte(block, at)
        | (load_byte(block, at + 1) << 8)
        | (load_byte(block, at + 2) << 16)
        | (load_byte(block, at + 3) << 24)
        | (load_byte(block, at + 4) << 32)
        | (load_byte(block, at + 5) << 40)
        | (load_byte(block, at + 6) << 48)
        | (load_byte(block, at + 7) << 56)
}

/// XORs a block into the first bytes of the state.
pub fn xor_block_into(state: &mut [u64; 25], block: &[u8])
    ensures
        final(state)@ == xor_block(old(state)@, block@),
{
    let mut j: usize = 0;
    while j < 25
        invariant
            j <= 25,
            forall|m: int| 0 <= m < j ==> state@[m] == old(state)@[m] ^ block_lane(block@, m),
            forall|m: int| j <= m < 25 ==> state@[m] == old(state)@[m],
        decreases 25 - j,
    {
        let lane: u64 = load_lane(block, j);
        state[j] = state[j] ^ lane;
        j += 1;
    }
}

/// Reads the first `count` bytes of the state and appends them to `out`.
pub fn read_state_bytes(state: &[u64; 25], count: usize, out: &mut Vec<u8>)
    requires
        count <= 200,
    ensures
        final(out)@ == old(out)@ + state_bytes(state@, count as nat),
{
    let mut i: usize = 0;
    while i < count
        invariant
            i <= count <= 200,
            out@ == old(out)@ + state_bytes(state@, i as nat),
        decreases count - i,
    {
        let lane: u64 = state[i / 8];
        let shift: u64 = (8 * (i % 8)) as u64;
        out.push(((lane >> shift) & 0xff) as u8);
        i += 1;
    }
}

} // verus!
