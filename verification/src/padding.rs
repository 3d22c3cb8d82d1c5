use vstd::prelude::*;
use vstd::arithmetic::div_mod::lemma_fundamental_div_mod_converse;

verus! {

/// How many bytes pad10*1 appends to `len` bytes of input: what is missing to
/// the next multiple of the rate, and a whole block when nothing is missing.
pub open spec fn pad_len(len: nat, rate_bytes: nat) -> nat
    recommends
        rate_bytes > 0,
{
    (rate_bytes - len % rate_bytes) as nat
}

/// Byte `i` of a padding of `count` bytes. The padding opens with the
/// delimiter 0x01 and closes with the terminator 0x80, with zeros between; a
/// padding of one byte holds both, as 0x81.
pub open spec fn pad_byte(i: int, count: nat) -> u8 {
    if count == 1 {
        0x81
    } else if i == 0 {
        0x01
    } else if i == count - 1 {
        0x80
    } else {
        0x00
    }
}

/// The padding of `count` bytes.
pub open spec fn pad_bytes(count: nat) -> Seq<u8> {
    Seq::new(count, |i: int| pad_byte(i, count))
}

/// The input followed by its padding.
pub open spec fn padded(input: Seq<u8>, rate_bytes: nat) -> Seq<u8> {
    input + pad_bytes(pad_len(input.len(), rate_bytes))
}

/// Padding adds between one byte and one block, and the padded length is a
/// whole number of blocks.
pub proof fn lemma_pad_len(len: nat, rate_bytes: nat)
    requires
        rate_bytes > 0,
    ensures
        1 <= pad_len(len, rate_bytes) <= rate_bytes,
        (len + pad_len(len, rate_bytes)) % rate_bytes == 0,
        (len + pad_len(len, rate_bytes)) / rate_bytes == len / rate_bytes + 1,
{
    let r = rate_bytes as int;
    let q = len as int / r;
    assert(len as int == r * q + len as int % r) by (nonlinear_arith)
        requires
            r > 0,
            q == len as int / r,
    ;
    assert(len + pad_len(len, rate_bytes) == (q + 1) * r + 0) by (nonlinear_arith)
        requires
            len as int == r * q + len as int % r,
            pad_len(len, rate_bytes) == r - len as int % r,
    ;
    lemma_fundamental_div_mod_converse((len + pad_len(len, rate_bytes)) as int, r, q + 1, 0);
}

/// For every input, the padded input is longer than the input and a whole
/// number of blocks long.
pub proof fn lemma_padded_len(input: Seq<u8>, rate_bytes: nat)
    requires
        rate_bytes > 0,
    ensures
        padded(input, rate_bytes).len() > input.len(),
        padded(input, rate_bytes).len() <= input.len() + rate_bytes,
        padded(input, rate_bytes).len() % rate_bytes == 0,
        padded(input, rate_bytes).subrange(0, input.len() as int) == input,
{
    lemma_pad_len(input.len(), rate_bytes);
}

/// Appends the pad10*1 padding for blocks of `rate_bytes` bytes to `input`.
pub fn pad(input: &mut Vec<u8>, rate_bytes: usize)
    requires
        rate_bytes > 0,
    ensures
        final(input)@ == padded(old(input)@, rate_bytes as nat),
        final(input)@.len() > old(input)@.len(),
        final(input)@.len() % (rate_bytes as nat) == 0,
{
    let count: usize = rate_bytes - input.len() % rate_bytes;
    proof {
        lemma_padded_len(input@, rate_bytes as nat);
    }
    if count == 1 {
        input.push(0x81);
    } else {
        input.push(0x01);
        let mut i: usize = 1;
        while i < count - 1
            invariant
                rate_bytes > 0,
                1 <= i <= count - 1,
                count == pad_len(old(input)@.len(), rate_bytes as nat),
                input@.len() == old(input)@.len() + i,
                input@.subrange(0, old(input)@.len() as int) == old(input)@,
                forall|k: int| 0 <= k < i ==> input@[old(input)@.len() + k] == pad_byte(k, count as nat),
            decreases count - i,
        {
            input.push(0x00);
            i += 1;
        }
        input.push(0x80);
    }
}

} // verus!
