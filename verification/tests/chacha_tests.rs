use sysplay::chacha::{rotate_left, u32_from_le_bytes, ChaChaRng, ChaChaState};

const ZERO_KEY_STREAM: [u8; 70] = [
    118, 184, 224, 173, 160, 241, 61, 144, 64, 93, 106, 229, 83, 134, 189, 40, 189, 210, 25, 184,
    160, 141, 237, 26, 168, 54, 239, 204, 139, 119, 13, 199, 218, 65, 89, 124, 81, 87, 72, 141,
    119, 36, 224, 63, 184, 216, 74, 55, 106, 67, 184, 244, 21, 24, 161, 28, 195, 135, 182, 105,
    178, 238, 101, 134, 159, 7, 231, 190, 85, 81,
];

#[test]
fn word_helpers() {
    assert_eq!(u32_from_le_bytes(0x78, 0x56, 0x34, 0x12), 0x1234_5678);
    assert_eq!(rotate_left(0x8000_0001, 1), 0x0000_0003);
    assert_eq!(rotate_left(0x1234_5678, 16), 0x5678_1234);
}

#[test]
fn first_block_of_zero_key() {
    let mut state = ChaChaState::new(&[0u8; 32], &[0u8; 12]);
    let block = state.next_block();
    assert_eq!(block.len(), 64);
    assert_eq!(&block[..], &ZERO_KEY_STREAM[..64]);
    let second = state.next_block();
    assert_eq!(&second[..6], &ZERO_KEY_STREAM[64..70]);
}

#[test]
fn rng_words() {
    let mut rng = ChaChaRng::from_seed(&[0u8; 32]);
    assert_eq!(rng.next_u32(), 0xade0_b876);
    assert_eq!(rng.next_u32(), 0x903d_f1a0);
    let mut rng = ChaChaRng::from_seed(&[0u8; 32]);
    assert_eq!(rng.next_u64(), 0x903d_f1a0_ade0_b876);
    let mut seed = [0u8; 32];
    for (i, b) in seed.iter_mut().enumerate() {
        *b = i as u8;
    }
    let mut rng = ChaChaRng::from_seed(&seed);
    assert_eq!(rng.next_u32(), 0x7d2b_fd39);
}

#[test]
fn next_u64_skips_a_short_tail() {
    let mut rng = ChaChaRng::from_seed(&[0u8; 32]);
    for _ in 0..15 {
        rng.next_u32();
    }
    assert_eq!(rng.next_u64(), 0x7a38_5155_bee7_079f);
}

#[test]
fn fill_bytes_crosses_blocks() {
    let mut rng = ChaChaRng::from_seed(&[0u8; 32]);
    let mut buf = [0u8; 70];
    rng.fill_bytes(&mut buf);
    assert_eq!(buf, ZERO_KEY_STREAM);
    let mut rng = ChaChaRng::from_seed(&[0u8; 32]);
    let mut empty: [u8; 0] = [];
    rng.fill_bytes(&mut empty);
    assert_eq!(rng.next_u32(), 0xade0_b876);
}
