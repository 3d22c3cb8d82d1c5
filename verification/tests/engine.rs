use living_hash::{LivingHash, SpongeConfiguration, SpongeError, SpongePhase};
use sha3::{Digest, Keccak256, Keccak512};

fn unhex(text: &str) -> Vec<u8> {
    (0..text.len())
        .step_by(2)
        .map(|i| u8::from_str_radix(&text[i..i + 2], 16).unwrap())
        .collect()
}

fn state_bytes(state: &[u64; 25]) -> Vec<u8> {
    state.iter().flat_map(|lane| lane.to_le_bytes()).collect()
}

#[test]
fn test_absorb_and_squeeze() {
    let mut engine = LivingHash::new(1088, 512).unwrap();
    let input = b"hello world";

    // Absorb input
    assert!(engine.absorb(input).is_ok());

    // Squeeze output
    let output = engine.squeeze(32);
    assert!(output.is_ok());
    let output = output.unwrap();

    // Verify trace
    let trace = engine.get_trace();
    assert_eq!(trace.len(), 2); // One absorb and one squeeze step
    assert_eq!(trace[0].phase, SpongePhase::Absorb);
    assert_eq!(trace[1].phase, SpongePhase::Squeeze);

    // Verify output length
    assert_eq!(output.len(), 32);
}

#[test]
fn test_padding() {
    let engine = LivingHash::new(1088, 512).unwrap();
    let mut input = vec![0x00; 136]; // 136 bytes == 1088 bits
    assert!(engine.apply_padding(&mut input).is_ok());
    assert_eq!(input.len(), 272); // A full block is already there, so a whole block is added
}

#[test]
#[should_panic]
fn test_invalid_rate_capacity() {
    LivingHash::new(1024, 512).unwrap(); // rate + capacity != 1600
}

#[test]
fn new_rejects_sum_other_than_1600() {
    assert!(matches!(LivingHash::new(1024, 512), Err(SpongeError::Configuration)));
    assert!(matches!(LivingHash::new(1088, 513), Err(SpongeError::Configuration)));
    assert!(matches!(LivingHash::new(1600, 8), Err(SpongeError::Configuration)));
    assert!(matches!(LivingHash::new(usize::MAX, 1601), Err(SpongeError::Configuration)));
    assert!(matches!(LivingHash::new(usize::MAX, usize::MAX), Err(SpongeError::Configuration)));
}

#[test]
fn new_rejects_rate_that_is_not_whole_bytes() {
    assert!(matches!(LivingHash::new(1087, 513), Err(SpongeError::Configuration)));
    assert!(matches!(LivingHash::new(1, 1599), Err(SpongeError::Configuration)));
    assert!(matches!(LivingHash::new(1596, 4), Err(SpongeError::Configuration)));
}

#[test]
fn new_rejects_empty_rate() {
    assert!(matches!(LivingHash::new(0, 1600), Err(SpongeError::Configuration)));
}

#[test]
fn new_accepts_every_byte_aligned_split() {
    let mut rate = 8;
    while rate <= 1600 {
        let engine = LivingHash::new(rate, 1600 - rate);
        assert!(engine.is_ok());
        assert!(engine.unwrap().get_trace().is_empty());
        rate += 8;
    }
}

#[test]
fn fresh_sponge_has_empty_trace() {
    let engine = LivingHash::new(1088, 512).unwrap();
    assert_eq!(engine.get_trace().len(), 0);
    assert!(engine.get_trace_step(0).is_none());
}

#[test]
fn padding_of_short_input_has_delimiter_zeros_and_terminator() {
    let engine = LivingHash::new(1088, 512).unwrap();
    let mut input = b"abc".to_vec();
    assert!(engine.apply_padding(&mut input).is_ok());
    assert_eq!(input.len(), 136);
    assert_eq!(&input[..3], b"abc");
    assert_eq!(input[3], 0x01);
    assert!(input[4..135].iter().all(|b| *b == 0x00));
    assert_eq!(input[135], 0x80);
}

#[test]
fn padding_of_empty_input_is_one_block() {
    let engine = LivingHash::new(1088, 512).unwrap();
    let mut input = Vec::new();
    assert!(engine.apply_padding(&mut input).is_ok());
    assert_eq!(input.len(), 136);
    assert_eq!(input[0], 0x01);
    assert!(input[1..135].iter().all(|b| *b == 0x00));
    assert_eq!(input[135], 0x80);
}

#[test]
fn padding_of_one_byte_merges_delimiter_and_terminator() {
    let engine = LivingHash::new(1088, 512).unwrap();
    let mut input = vec![0x55; 135];
    assert!(engine.apply_padding(&mut input).is_ok());
    assert_eq!(input.len(), 136);
    assert!(input[..135].iter().all(|b| *b == 0x55));
    assert_eq!(input[135], 0x81);
}

#[test]
fn padding_of_two_bytes_has_no_zeros() {
    let engine = LivingHash::new(1088, 512).unwrap();
    let mut input = vec![0x55; 134];
    assert!(engine.apply_padding(&mut input).is_ok());
    assert_eq!(input.len(), 136);
    assert_eq!(input[134], 0x01);
    assert_eq!(input[135], 0x80);
}

#[test]
fn padding_with_one_byte_rate_always_adds_0x81() {
    let engine = LivingHash::new(8, 1592).unwrap();
    let mut input = vec![1, 2, 3];
    assert!(engine.apply_padding(&mut input).is_ok());
    assert_eq!(input, vec![1, 2, 3, 0x81]);
}

#[test]
fn padding_is_longer_and_aligned_for_every_length() {
    for rate in [8usize, 24, 64, 576, 1088, 1344, 1600] {
        let engine = LivingHash::new(rate, 1600 - rate).unwrap();
        let block = rate / 8;
        for len in 0..(3 * block + 2) {
            let mut input = vec![0xab; len];
            assert!(engine.apply_padding(&mut input).is_ok());
            assert!(input.len() > len);
            assert!(input.len() <= len + block);
            assert_eq!(input.len() % block, 0);
            assert_eq!(input.len(), (len / block + 1) * block);
            assert!(input[..len].iter().all(|b| *b == 0xab));
        }
    }
}

#[test]
fn absorb_then_squeeze_gives_keccak256_of_hello_world() {
    let mut engine = LivingHash::new(1088, 512).unwrap();
    engine.absorb(b"hello world").unwrap();
    let output = engine.squeeze(32).unwrap();
    assert_eq!(
        output,
        unhex("47173285a8d7341e5e972fc677286384f802f8ef42a5ec5f03bbfa254cb01fad")
    );
}

#[test]
fn absorb_then_squeeze_gives_keccak256_of_empty_input() {
    let mut engine = LivingHash::new(1088, 512).unwrap();
    engine.absorb(b"").unwrap();
    let output = engine.squeeze(32).unwrap();
    assert_eq!(
        output,
        unhex("c5d2460186f7233c927e7db2dcc703c0e500b653ca82273b7bfad8045d85a470")
    );
}

#[test]
fn absorb_then_squeeze_agrees_with_keccak256_for_many_lengths() {
    for len in [0usize, 1, 7, 8, 9, 134, 135, 136, 137, 271, 272, 273, 1000] {
        let input: Vec<u8> = (0..len).map(|i| (i * 7 + 3) as u8).collect();
        let mut engine = LivingHash::new(1088, 512).unwrap();
        engine.absorb(&input).unwrap();
        let output = engine.squeeze(32).unwrap();
        assert_eq!(output, Keccak256::digest(&input).to_vec());
    }
}

#[test]
fn absorb_records_the_padded_input() {
    let mut engine = LivingHash::new(1088, 512).unwrap();
    engine.absorb(b"hello world").unwrap();
    let step = &engine.get_trace()[0];
    assert_eq!(step.step_index, 0);
    assert_eq!(step.phase, SpongePhase::Absorb);
    assert_eq!(step.input.len(), 136);
    assert_eq!(&step.input[..11], b"hello world");
    assert_eq!(step.input[11], 0x01);
    assert!(step.input[12..135].iter().all(|b| *b == 0));
    assert_eq!(step.input[135], 0x80);
}

#[test]
fn first_absorb_diffs_equal_the_state() {
    let mut engine = LivingHash::new(1088, 512).unwrap();
    engine.absorb(b"hello world").unwrap();
    let step = &engine.get_trace()[0];
    assert_eq!(step.diffs, step.state);
    assert_ne!(step.state, [0u64; 25]);
}

#[test]
fn absorb_of_one_block_is_xor_then_permutation() {
    let mut engine = LivingHash::new(1088, 512).unwrap();
    engine.absorb(b"hello world").unwrap();
    let mut expected = [0u64; 25];
    expected[0] = u64::from_le_bytes(*b"hello wo");
    expected[1] = u64::from_le_bytes([b'r', b'l', b'd', 0x01, 0, 0, 0, 0]);
    expected[16] = 0x80 << 56;
    keccak::f1600(&mut expected);
    assert_eq!(engine.get_trace()[0].state, expected);
}

#[test]
fn absorb_of_two_blocks_permutes_after_each() {
    let input: Vec<u8> = (0..200u32).map(|i| i as u8).collect();
    let mut engine = LivingHash::new(1088, 512).unwrap();
    engine.absorb(&input).unwrap();

    let mut padded = input.clone();
    padded.push(0x01);
    padded.resize(271, 0x00);
    padded.push(0x80);
    let mut expected = [0u64; 25];
    for block in padded.chunks(136) {
        for (lane, bytes) in expected.iter_mut().zip(block.chunks(8)) {
            *lane ^= u64::from_le_bytes(bytes.try_into().unwrap());
        }
        keccak::f1600(&mut expected);
    }
    let step = &engine.get_trace()[0];
    assert_eq!(step.input, padded);
    assert_eq!(step.state, expected);
}

#[test]
fn absorb_with_rate_that_is_no_whole_lane() {
    // Blocks of 3 bytes: each touches the low three bytes of lane 0 only.
    let mut engine = LivingHash::new(24, 1576).unwrap();
    engine.absorb(&[0x11, 0x22, 0x33, 0x44]).unwrap();
    let mut expected = [0u64; 25];
    expected[0] ^= 0x332211;
    keccak::f1600(&mut expected);
    expected[0] ^= 0x800144;
    keccak::f1600(&mut expected);
    let step = &engine.get_trace()[0];
    assert_eq!(step.input, vec![0x11, 0x22, 0x33, 0x44, 0x01, 0x80]);
    assert_eq!(step.state, expected);
}

#[test]
fn squeeze_of_nothing_records_an_empty_step() {
    let mut engine = LivingHash::new(1088, 512).unwrap();
    engine.absorb(b"abc").unwrap();
    let before = engine.get_trace()[0].state;
    let output = engine.squeeze(0).unwrap();
    assert!(output.is_empty());
    let step = &engine.get_trace()[1];
    assert_eq!(step.step_index, 1);
    assert_eq!(step.phase, SpongePhase::Squeeze);
    assert!(step.input.is_empty());
    assert_eq!(step.state, before);
    assert_eq!(step.diffs, [0u64; 25]);
}

#[test]
fn squeeze_within_one_block_leaves_the_state() {
    let mut engine = LivingHash::new(1088, 512).unwrap();
    engine.absorb(b"abc").unwrap();
    let before = engine.get_trace()[0].state;
    let output = engine.squeeze(136).unwrap();
    assert_eq!(output, state_bytes(&before)[..136].to_vec());
    let step = &engine.get_trace()[1];
    assert_eq!(step.input, output);
    assert_eq!(step.state, before);
    assert_eq!(step.diffs, [0u64; 25]);
}

#[test]
fn squeeze_permutes_between_blocks() {
    let mut engine = LivingHash::new(1088, 512).unwrap();
    engine.absorb(b"abc").unwrap();
    let mut state = engine.get_trace()[0].state;
    let before = state;
    let output = engine.squeeze(300).unwrap();

    let mut expected = state_bytes(&state)[..136].to_vec();
    keccak::f1600(&mut state);
    expected.extend_from_slice(&state_bytes(&state)[..136]);
    keccak::f1600(&mut state);
    expected.extend_from_slice(&state_bytes(&state)[..28]);
    assert_eq!(output.len(), 300);
    assert_eq!(output, expected);

    let step = &engine.get_trace()[1];
    assert_eq!(step.input, output);
    assert_eq!(step.state, state);
    for lane in 0..25 {
        assert_eq!(step.diffs[lane], before[lane] ^ state[lane]);
    }
}

#[test]
fn squeeze_of_whole_blocks_does_not_permute_after_the_last() {
    let mut engine = LivingHash::new(1088, 512).unwrap();
    let output = engine.squeeze(272).unwrap();
    let mut state = [0u64; 25];
    let mut expected = vec![0u8; 136];
    keccak::f1600(&mut state);
    expected.extend_from_slice(&state_bytes(&state)[..136]);
    assert_eq!(output, expected);
    assert_eq!(engine.get_trace()[0].state, state);
}

#[test]
fn squeeze_on_fresh_sponge_permutes_the_zero_state() {
    let mut engine = LivingHash::new(1088, 512).unwrap();
    let output = engine.squeeze(137).unwrap();
    assert!(output[..136].iter().all(|b| *b == 0));
    assert_eq!(output[136], 0xe7);
    let step = &engine.get_trace()[0];
    assert_eq!(step.state[0], 0xF1258F7940E1DDE7);
    assert_eq!(step.state[1], 0x84D5CCF933C0478A);
    assert_eq!(step.state[24], 0xEAF1FF7B5CECA249);
    assert_eq!(step.diffs, step.state);
}

#[test]
fn squeeze_with_full_width_rate_reads_all_lanes() {
    let mut engine = LivingHash::new(1600, 0).unwrap();
    engine.absorb(b"abc").unwrap();
    let state = engine.get_trace()[0].state;
    let output = engine.squeeze(200).unwrap();
    assert_eq!(output, state_bytes(&state));
}

#[test]
fn squeeze_with_one_byte_rate_permutes_before_every_further_byte() {
    let mut engine = LivingHash::new(8, 1592).unwrap();
    engine.absorb(&[0x42]).unwrap();
    let mut state = engine.get_trace()[0].state;
    let output = engine.squeeze(3).unwrap();
    let mut expected = vec![state[0] as u8];
    keccak::f1600(&mut state);
    expected.push(state[0] as u8);
    keccak::f1600(&mut state);
    expected.push(state[0] as u8);
    assert_eq!(output, expected);
    assert_eq!(engine.get_trace()[1].state, state);
}

#[test]
fn squeeze_returns_the_length_asked_for() {
    for count in [0usize, 1, 31, 32, 135, 136, 137, 272, 500] {
        let mut engine = LivingHash::new(1088, 512).unwrap();
        engine.absorb(b"some input").unwrap();
        assert_eq!(engine.squeeze(count).unwrap().len(), count);
    }
}

#[test]
fn repeated_squeeze_reads_from_the_state_as_it_stands() {
    let mut engine = LivingHash::new(1088, 512).unwrap();
    engine.absorb(b"abc").unwrap();
    let first = engine.squeeze(32).unwrap();
    let second = engine.squeeze(32).unwrap();
    assert_eq!(first, second);
}

#[test]
fn trace_counts_calls_in_order() {
    let mut engine = LivingHash::new(1088, 512).unwrap();
    engine.squeeze(10).unwrap();
    engine.absorb(b"one").unwrap();
    engine.absorb(b"two").unwrap();
    engine.squeeze(200).unwrap();
    engine.absorb(b"").unwrap();
    let phases = [
        SpongePhase::Squeeze,
        SpongePhase::Absorb,
        SpongePhase::Absorb,
        SpongePhase::Squeeze,
        SpongePhase::Absorb,
    ];
    let trace = engine.get_trace();
    assert_eq!(trace.len(), 5);
    for (i, step) in trace.iter().enumerate() {
        assert_eq!(step.step_index, i);
        assert_eq!(step.phase, phases[i]);
    }
}

#[test]
fn every_step_diff_is_xor_of_state_before_and_after() {
    let mut engine = LivingHash::new(576, 1024).unwrap();
    engine.absorb(b"first").unwrap();
    engine.squeeze(100).unwrap();
    engine.absorb(&[0u8; 300]).unwrap();
    engine.squeeze(64).unwrap();
    let trace = engine.get_trace();
    let mut before = [0u64; 25];
    for step in trace.iter() {
        for lane in 0..25 {
            assert_eq!(step.diffs[lane], before[lane] ^ step.state[lane]);
        }
        before = step.state;
    }
}

#[test]
fn get_trace_step_is_the_step_at_that_index() {
    let mut engine = LivingHash::new(1088, 512).unwrap();
    engine.absorb(b"hello world").unwrap();
    engine.squeeze(32).unwrap();
    for i in 0..2 {
        let step = engine.get_trace_step(i).unwrap();
        let same = &engine.get_trace()[i];
        assert_eq!(step.step_index, same.step_index);
        assert_eq!(step.phase, same.phase);
        assert_eq!(step.input, same.input);
        assert_eq!(step.state, same.state);
        assert_eq!(step.diffs, same.diffs);
    }
}

#[test]
fn cloned_step_holds_the_same_values() {
    let mut engine = LivingHash::new(1088, 512).unwrap();
    engine.absorb(b"hello world").unwrap();
    let step = &engine.get_trace()[0];
    let copy = step.clone();
    assert_eq!(copy.step_index, step.step_index);
    assert_eq!(copy.phase, step.phase);
    assert_eq!(copy.input, step.input);
    assert_eq!(copy.state, step.state);
    assert_eq!(copy.diffs, step.diffs);
}

#[test]
fn with_configuration_builds_a_fresh_sponge() {
    let config = SpongeConfiguration::new(576, 1024).unwrap();
    let mut engine = LivingHash::with_configuration(config);
    assert!(engine.get_trace().is_empty());
    assert_eq!(engine.configuration().rate_bits(), 576);
    assert_eq!(engine.configuration().capacity_bits(), 1024);
    assert_eq!(engine.configuration().rate_bytes(), 72);
    // Rate 576 and padding 0x01 .. 0x80 make Keccak-512.
    engine.absorb(b"").unwrap();
    let output = engine.squeeze(64).unwrap();
    assert_eq!(output, Keccak512::digest(b"").to_vec());
    assert_eq!(
        output[..8],
        unhex("0eab42de4c3ceb92")[..]
    );
}

#[test]
fn get_trace_step_past_the_end_is_none() {
    let mut engine = LivingHash::new(1088, 512).unwrap();
    engine.absorb(b"hello world").unwrap();
    engine.squeeze(32).unwrap();
    assert!(engine.get_trace_step(2).is_none());
    assert!(engine.get_trace_step(3).is_none());
    assert!(engine.get_trace_step(usize::MAX).is_none());
}

#[test]
fn calculate_diffs_xors_lane_by_lane() {
    let mut a = [0u64; 25];
    let mut b = [0u64; 25];
    for i in 0..25 {
        a[i] = 0x0101010101010101 * (i as u64);
        b[i] = 0xff00ff00ff00ff00 ^ (i as u64);
    }
    let diffs = LivingHash::calculate_diffs(&a, &b);
    for i in 0..25 {
        assert_eq!(diffs[i], a[i] ^ b[i]);
    }
    assert_eq!(LivingHash::calculate_diffs(&a, &a), [0u64; 25]);
    assert_eq!(LivingHash::calculate_diffs(&[0u64; 25], &b), b);
    assert_eq!(diffs[1], 0x0101010101010101 ^ 0xff00ff00ff00ff01);
}
