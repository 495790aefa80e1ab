use sponges::bash::{bash_f, bash_s};

/// Test vector from Table A.1 of STB 34.101.77-2020, in the little-endian
/// internal representation.
#[test]
fn lib_test_bash_s_table_a1() {
    let w0 = 0xB194BAC80A08F53Bu64.swap_bytes();
    let w1 = 0xE12BDC1AE28257ECu64.swap_bytes();
    let w2 = 0xE9DEE72C8F0C0FA6u64.swap_bytes();

    let (w0_out, w1_out, w2_out) = bash_s(w0, w1, w2, 8, 53, 14, 1);

    assert_eq!(w0_out, 0x479E76129979DC5Fu64.swap_bytes());
    assert_eq!(w1_out, 0x0F2B2C93ED128EDDu64.swap_bytes());
    assert_eq!(w2_out, 0x41009B1B112DFEF3u64.swap_bytes());
}

/// The little-endian permutation agrees with the big-endian wrapper once
/// every word is byte-reversed.
#[test]
fn internal_matches_standard_order() {
    let mut le_state = [0u64; 24];
    let mut be_state = [0u64; 24];
    for i in 0..24 {
        let w = (i as u64 + 1) * 0x0123456789abcdef;
        le_state[i] = w.swap_bytes();
        be_state[i] = w;
    }
    bash_f(&mut le_state);
    sponges::belt::bash_f(&mut be_state);
    for i in 0..24 {
        assert_eq!(le_state[i], be_state[i].swap_bytes());
    }
}
