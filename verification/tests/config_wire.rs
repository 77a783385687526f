//! The configuration's 64-bit pack and its big-endian wire bytes.

use lockstep_core::config::{u64_from_be_bytes, u64_to_be_bytes, GameConfig};

#[test]
fn pack_puts_seed_low_and_difficulty_high() {
    let gc = GameConfig { seed: 10, difficulty: 1 };
    assert_eq!(gc.as_u64(), 0x0000_0001_0000_000au64);
}

#[test]
fn unpack_reads_seed_low_and_difficulty_high() {
    let gc = GameConfig::from_u64(0x0000_0001_0000_000au64);
    assert_eq!(gc.seed, 10);
    assert_eq!(gc.difficulty, 1);
}

#[test]
fn pack_unpack_round_trip() {
    let cases = [
        (0u32, 0u32),
        (10, 1),
        (u32::MAX, 0),
        (0, u32::MAX),
        (u32::MAX, u32::MAX),
        (0xdead_beef, 0x1234_5678),
    ];
    for (seed, difficulty) in cases {
        let gc = GameConfig { seed, difficulty };
        let back = GameConfig::from_u64(gc.as_u64());
        assert_eq!(back.seed, seed);
        assert_eq!(back.difficulty, difficulty);
    }
}

#[test]
fn be_bytes_round_trip() {
    for x in [0u64, 1, 0x0000_0001_0000_000a, u64::MAX, 0x0102_0304_0506_0708] {
        let bytes = u64_to_be_bytes(x);
        assert_eq!(bytes.len(), 8);
        let back = u64_from_be_bytes(&bytes, 0);
        assert_eq!(back, x);
    }
    let bytes = u64_to_be_bytes(0x0102_0304_0506_0708);
    assert_eq!(bytes, vec![1, 2, 3, 4, 5, 6, 7, 8]);
}
