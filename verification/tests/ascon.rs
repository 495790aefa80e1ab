use sponges::ascon::{pad, round, round_constant, State};
use sponges::ops::permutation;

#[test]
fn pad_0to7() {
    assert_eq!(pad(0), 0x8000000000000000);
    assert_eq!(pad(1), 0x80000000000000);
    assert_eq!(pad(2), 0x800000000000);
    assert_eq!(pad(3), 0x8000000000);
    assert_eq!(pad(4), 0x80000000);
    assert_eq!(pad(5), 0x800000);
    assert_eq!(pad(6), 0x8000);
    assert_eq!(pad(7), 0x80);
}

#[test]
fn round_constants() {
    assert_eq!(round_constant(0), 0xf0);
    assert_eq!(round_constant(1), 0xe1);
    assert_eq!(round_constant(2), 0xd2);
    assert_eq!(round_constant(3), 0xc3);
    assert_eq!(round_constant(4), 0xb4);
    assert_eq!(round_constant(5), 0xa5);
    assert_eq!(round_constant(6), 0x96);
    assert_eq!(round_constant(7), 0x87);
    assert_eq!(round_constant(8), 0x78);
    assert_eq!(round_constant(9), 0x69);
    assert_eq!(round_constant(10), 0x5a);
    assert_eq!(round_constant(11), 0x4b);
}

#[test]
fn one_round() {
    let state = round(
        [
            0x0123456789abcdef,
            0x23456789abcdef01,
            0x456789abcdef0123,
            0x6789abcdef012345,
            0x89abcde01234567f,
        ],
        0x1f,
    );
    assert_eq!(
        state,
        [
            0x3c1748c9be2892ce,
            0x5eafb305cd26164f,
            0xf9470254bb3a4213,
            0xf0428daf0c5d3948,
            0x281375af0b294899
        ]
    );
}

#[test]
fn state_permute_12() {
    let mut state = State::new(
        0x0123456789abcdef,
        0xef0123456789abcd,
        0xcdef0123456789ab,
        0xabcdef0123456789,
        0x89abcdef01234567,
    );
    state.permute_12();
    assert_eq!(state.index(0), 0x206416dfc624bb14);
    assert_eq!(state.index(1), 0x1b0c47a601058aab);
    assert_eq!(state.index(2), 0x8934cfc93814cddd);
    assert_eq!(state.index(3), 0xa9738d287a748e4b);
    assert_eq!(state.index(4), 0xddd934f058afc7e1);
}

#[test]
fn state_permute_6() {
    let mut state = State::new(
        0x0123456789abcdef,
        0xef0123456789abcd,
        0xcdef0123456789ab,
        0xabcdef0123456789,
        0x89abcdef01234567,
    );
    state.permute_6();
    assert_eq!(state.index(0), 0xc27b505c635eb07f);
    assert_eq!(state.index(1), 0xd388f5d2a72046fa);
    assert_eq!(state.index(2), 0x9e415c204d7b15e7);
    assert_eq!(state.index(3), 0xce0d71450fe44581);
    assert_eq!(state.index(4), 0xdd7c5fef57befe48);
}

#[test]
fn state_permute_8() {
    let mut state = State::new(
        0x0123456789abcdef,
        0xef0123456789abcd,
        0xcdef0123456789ab,
        0xabcdef0123456789,
        0x89abcdef01234567,
    );
    state.permute_8();
    assert_eq!(state.index(0), 0x67ed228272f46eee);
    assert_eq!(state.index(1), 0x80bc0b097aad7944);
    assert_eq!(state.index(2), 0x2fa599382c6db215);
    assert_eq!(state.index(3), 0x368133fae2f7667a);
    assert_eq!(state.index(4), 0x28cefb195a7c651c);
}

#[test]
fn state_permute_n() {
    let mut state = State::new(
        0x0123456789abcdef,
        0xef0123456789abcd,
        0xcdef0123456789ab,
        0xabcdef0123456789,
        0x89abcdef01234567,
    );
    let mut state2 = state.clone();

    state.permute_6();
    state2.permute_n(6);
    assert_eq!(state.as_ref(), state2.as_ref());

    state.permute_8();
    state2.permute_n(8);
    assert_eq!(state.as_ref(), state2.as_ref());

    state.permute_12();
    state2.permute_n(12);
    assert_eq!(state.as_ref(), state2.as_ref());
}

#[test]
fn state_convert_bytes() {
    let state = State::new(
        0x0123456789abcdef,
        0xef0123456789abcd,
        0xcdef0123456789ab,
        0xabcdef0123456789,
        0x89abcdef01234567,
    );
    let bytes = state.as_bytes();

    let state2 = State::try_from_bytes(&bytes[..]);
    assert_eq!(state2.expect("try_from bytes").as_ref(), state.as_ref());

    let state2 = State::from_bytes(&bytes);
    assert_eq!(state2.as_ref(), state.as_ref());
}

#[test]
fn byte_permutation_matches_state() {
    let state = State::new(
        0x0123456789abcdef,
        0xef0123456789abcd,
        0xcdef0123456789ab,
        0xabcdef0123456789,
        0x89abcdef01234567,
    );
    let mut bytes = state.as_bytes();
    permutation(&mut bytes, 0, 12);

    let mut expected = state.clone();
    expected.permute_12();
    assert_eq!(bytes, expected.as_bytes());

    let mut bytes8 = state.as_bytes();
    permutation(&mut bytes8, 4, 8);
    let mut expected8 = state;
    expected8.permute_8();
    assert_eq!(bytes8, expected8.as_bytes());
}

#[test]
fn words_to_bytes_round_trip() {
    let words: [u64; 5] = [
        0x0011223344556677,
        0x8899aabbccddeeff,
        0x0123456789abcdef,
        0xfedcba9876543210,
        0xdeadbeef01020304,
    ];
    let mut bytes = [0u8; 40];
    sponges::util::u64_to_u8(&words, &mut bytes);
    assert_eq!(bytes[0], 0x00);
    assert_eq!(bytes[7], 0x77);
    assert_eq!(bytes[8], 0x88);
    assert_eq!(bytes[39], 0x04);
    let mut back = [0u64; 5];
    sponges::util::u8_to_u64(&bytes, &mut back);
    assert_eq!(back, words);
}
