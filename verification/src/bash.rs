//! The bash-f sponge permutation of STB 34.101.77: twenty-four rounds over
//! a 1536-bit state of twenty-four 64-bit words, in the little-endian
//! internal representation.
//!
//! Each round applies the bash-s transformation to the eight columns of the
//! state, permutes the words, xors a round constant into the last word and
//! steps the constant through a Galois linear feedback shift register.

use crate::keccak::{rot64_spec, rotl64};
use vstd::array::ArrayAdditionalExecFns;
use vstd::prelude::*;

verus! {

/// Number of 64-bit words in the state.
pub const STATE_WORDS: usize = 24;

/// The bash-s transformation of Section 6.1 of STB 34.101.77 on three
/// words, with rotation amounts `m1`, `n1`, `m2` and `n2`.
pub open spec fn bash_s_spec(
    w0: u64,
    w1: u64,
    w2: u64,
    m1: u32,
    n1: u32,
    m2: u32,
    n2: u32,
) -> (u64, u64, u64) {
    let t0 = rot64_spec(w0, m1);
    let y0 = w0 ^ w1 ^ w2;
    let t1 = w1 ^ rot64_spec(y0, n1);
    let y1 = t0 ^ t1;
    let y2 = w2 ^ rot64_spec(w2, m2) ^ rot64_spec(t1, n2);
    let u0 = !y2 | y1;
    let u1 = y0 | y2;
    let u2 = y0 & y1;
    (y0 ^ u0, y1 ^ u1, y2 ^ u2)
}

/// The bash-s transformation, the non-linear core of each round.
pub fn bash_s(w0: u64, w1: u64, w2: u64, m1: u32, n1: u32, m2: u32, n2: u32) -> (r: (
    u64,
    u64,
    u64,
))
    ensures
        r == bash_s_spec(w0, w1, w2, m1, n1, m2, n2),
{
    let t0 = rotl64(w0, m1);
    let y0 = w0 ^ w1 ^ w2;
    let t1 = w1 ^ rotl64(y0, n1);
    let y1 = t0 ^ t1;
    let y2 = w2 ^ rotl64(w2, m2) ^ rotl64(t1, n2);
    let u0 = !y2 | y1;
    let u1 = y0 | y2;
    let u2 = y0 & y1;
    (y0 ^ u0, y1 ^ u1, y2 ^ u2)
}

/// Rotation amounts of column `j`: successive images of `(8, 53, 14, 1)`
/// under multiplication by seven modulo sixty-four.
pub open spec fn rot_params_spec(j: int) -> (u32, u32, u32, u32) {
    if j == 0 { (8, 53, 14, 1) }
    else if j == 1 { (56, 51, 34, 7) }
    else if j == 2 { (8, 37, 46, 49) }
    else if j == 3 { (56, 3, 2, 23) }
    else if j == 4 { (8, 21, 14, 33) }
    else if j == 5 { (56, 19, 34, 39) }
    else if j == 6 { (8, 5, 46, 17) }
    else { (56, 35, 2, 55) }
}

/// Apply bash-s to column `j`: the words at `j`, `8 + j` and `16 + j`.
pub open spec fn bash_column_spec(s: Seq<u64>, j: int) -> Seq<u64>
    recommends
        s.len() == 24,
        0 <= j < 8,
{
    let p = rot_params_spec(j);
    let r = bash_s_spec(s[j], s[8 + j], s[16 + j], p.0, p.1, p.2, p.3);
    s.update(j, r.0).update(8 + j, r.1).update(16 + j, r.2)
}

/// Apply bash-s to columns `0` through `j - 1` in order.
pub open spec fn bash_sbox_layer_spec(s: Seq<u64>, j: int) -> Seq<u64>
    recommends
        s.len() == 24,
        0 <= j <= 8,
    decreases j,
{
    if j <= 0 {
        s
    } else {
        bash_column_spec(bash_sbox_layer_spec(s, j - 1), j - 1)
    }
}

/// The source index of the word moved to position `i` by the word
/// permutation of each round.
pub open spec fn bash_word_perm(i: int) -> int {
    if i == 0 { 15 }
    else if i == 1 { 10 }
    else if i == 2 { 9 }
    else if i == 3 { 12 }
    else if i == 4 { 11 }
    else if i == 5 { 14 }
    else if i == 6 { 13 }
    else if i == 7 { 8 }
    else if i == 8 { 17 }
    else if i == 9 { 16 }
    else if i == 10 { 19 }
    else if i == 11 { 18 }
    else if i == 12 { 21 }
    else if i == 13 { 20 }
    else if i == 14 { 23 }
    else if i == 15 { 22 }
    else if i == 16 { 6 }
    else if i == 17 { 3 }
    else if i == 18 { 0 }
    else if i == 19 { 5 }
    else if i == 20 { 2 }
    else if i == 21 { 7 }
    else if i == 22 { 4 }
    else { 1 }
}

/// The word permutation of each round.
pub open spec fn bash_perm_spec(s: Seq<u64>) -> Seq<u64>
    recommends
        s.len() == 24,
{
    Seq::new(24, |i: int| s[bash_word_perm(i)])
}

/// One step of the round-constant register in Galois configuration.
pub open spec fn lfsr_next_spec(c: u64) -> u64 {
    if c & 1 == 0 {
        c >> 1u64
    } else {
        (c >> 1u64) ^ 0xDC2BE1997FE0D8AE
    }
}

/// The round constant after `n` register steps from `c`.
pub open spec fn lfsr_iter_spec(c: u64, n: nat) -> u64
    decreases n,
{
    if n == 0 {
        c
    } else {
        lfsr_iter_spec(lfsr_next_spec(c), (n - 1) as nat)
    }
}

/// One round: the S-box layer over all eight columns, the word permutation,
/// and the round constant xored into the last word.
pub open spec fn bash_round_spec(s: Seq<u64>, c: u64) -> Seq<u64>
    recommends
        s.len() == 24,
{
    let p = bash_perm_spec(bash_sbox_layer_spec(s, 8));
    p.update(23, p[23] ^ c)
}

/// `n` rounds starting with round constant `c`.
pub open spec fn bash_rounds_spec(s: Seq<u64>, c: u64, n: nat) -> Seq<u64>
    decreases n,
{
    if n == 0 {
        s
    } else {
        bash_rounds_spec(bash_round_spec(s, c), lfsr_next_spec(c), (n - 1) as nat)
    }
}

/// The full bash-f permutation: twenty-four rounds from the fixed initial
/// round constant.
pub open spec fn bash_f_spec(s: Seq<u64>) -> Seq<u64>
    recommends
        s.len() == 24,
{
    bash_rounds_spec(s, 0x3BF5080AC8BA94B1, 24)
}

/// How one round extends a run of rounds at its end.
proof fn lemma_bash_rounds_snoc(s: Seq<u64>, c: u64, n: nat)
    ensures
        bash_rounds_spec(s, c, n + 1) == bash_round_spec(
            bash_rounds_spec(s, c, n),
            lfsr_iter_spec(c, n),
        ),
        lfsr_iter_spec(c, n + 1) == lfsr_next_spec(lfsr_iter_spec(c, n)),
    decreases n,
{
    if n == 0 {
        assert(bash_rounds_spec(bash_round_spec(s, c), lfsr_next_spec(c), 0) == bash_round_spec(
            s,
            c,
        ));
        assert(lfsr_iter_spec(lfsr_next_spec(c), 0) == lfsr_next_spec(c));
    } else {
        lemma_bash_rounds_snoc(bash_round_spec(s, c), lfsr_next_spec(c), (n - 1) as nat);
    }
}

/// One step of the round-constant register.
fn lfsr_step(c: u64) -> (r: u64)
    ensures
        r == lfsr_next_spec(c),
{
    if c & 1 == 0 {
        c >> 1u64
    } else {
        (c >> 1u64) ^ 0xDC2BE1997FE0D8AE
    }
}

/// One round of bash-f with round constant `c`.
fn bash_round(state: &mut [u64; 24], c: u64)
    ensures
        final(state)@ == bash_round_spec(old(state)@, c),
{
    let ghost s0 = state@;

    // S-box layer, column by column; the rotation amounts of column `j + 1`
    // are those of column `j` multiplied by seven modulo sixty-four.
    let (r0, r1, r2) = bash_s(state[0], state[8], state[16], 8, 53, 14, 1);
    state.set(0, r0);
    state.set(8, r1);
    state.set(16, r2);
    proof {
        assert(bash_sbox_layer_spec(s0, 0) == s0);
        assert(state@ == bash_sbox_layer_spec(s0, 1));
    }
    let (r0, r1, r2) = bash_s(state[1], state[9], state[17], 56, 51, 34, 7);
    state.set(1, r0);
    state.set(9, r1);
    state.set(17, r2);
    proof {
        assert(state@ == bash_sbox_layer_spec(s0, 2));
    }
    let (r0, r1, r2) = bash_s(state[2], state[10], state[18], 8, 37, 46, 49);
    state.set(2, r0);
    state.set(10, r1);
    state.set(18, r2);
    proof {
        assert(state@ == bash_sbox_layer_spec(s0, 3));
    }
    let (r0, r1, r2) = bash_s(state[3], state[11], state[19], 56, 3, 2, 23);
    state.set(3, r0);
    state.set(11, r1);
    state.set(19, r2);
    proof {
        assert(state@ == bash_sbox_layer_spec(s0, 4));
    }
    let (r0, r1, r2) = bash_s(state[4], state[12], state[20], 8, 21, 14, 33);
    state.set(4, r0);
    state.set(12, r1);
    state.set(20, r2);
    proof {
        assert(state@ == bash_sbox_layer_spec(s0, 5));
    }
    let (r0, r1, r2) = bash_s(state[5], state[13], state[21], 56, 19, 34, 39);
    state.set(5, r0);
    state.set(13, r1);
    state.set(21, r2);
    proof {
        assert(state@ == bash_sbox_layer_spec(s0, 6));
    }
    let (r0, r1, r2) = bash_s(state[6], state[14], state[22], 8, 5, 46, 17);
    state.set(6, r0);
    state.set(14, r1);
    state.set(22, r2);
    proof {
        assert(state@ == bash_sbox_layer_spec(s0, 7));
    }
    let (r0, r1, r2) = bash_s(state[7], state[15], state[23], 56, 35, 2, 55);
    state.set(7, r0);
    state.set(15, r1);
    state.set(23, r2);
    proof {
        assert(state@ == bash_sbox_layer_spec(s0, 8));
    }
    let ghost g = bash_sbox_layer_spec(s0, 8);

    // Word permutation
    let t0 = state[15];
    let t1 = state[10];
    let t2 = state[9];
    let t3 = state[12];
    let t4 = state[11];
    let t5 = state[14];
    let t6 = state[13];
    let t7 = state[8];
    let t8 = state[17];
    let t9 = state[16];
    let t10 = state[19];
    let t11 = state[18];
    let t12 = state[21];
    let t13 = state[20];
    let t14 = state[23];
    let t15 = state[22];
    let t16 = state[6];
    let t17 = state[3];
    let t18 = state[0];
    let t19 = state[5];
    let t20 = state[2];
    let t21 = state[7];
    let t22 = state[4];
    let t23 = state[1];
    state.set(0, t0);
    state.set(1, t1);
    state.set(2, t2);
    state.set(3, t3);
    state.set(4, t4);
    state.set(5, t5);
    state.set(6, t6);
    state.set(7, t7);
    state.set(8, t8);
    state.set(9, t9);
    state.set(10, t10);
    state.set(11, t11);
    state.set(12, t12);
    state.set(13, t13);
    state.set(14, t14);
    state.set(15, t15);
    state.set(16, t16);
    state.set(17, t17);
    state.set(18, t18);
    state.set(19, t19);
    state.set(20, t20);
    state.set(21, t21);
    state.set(22, t22);
    state.set(23, t23);
    proof {
        assert(state@ =~= bash_perm_spec(g));
    }

    // Round constant into the last word
    let w = state[23];
    state.set(23, w ^ c);
}

/// The bash-f sponge permutation on a state in the little-endian internal
/// representation.
pub fn bash_f(state: &mut [u64; 24])
    ensures
        final(state)@ == bash_f_spec(old(state)@),
{
    let ghost s0 = state@;
    let mut c: u64 = 0x3BF5080AC8BA94B1;
    let mut i: usize = 0;
    while i < 24
        invariant
            i <= 24,
            state@ == bash_rounds_spec(s0, 0x3BF5080AC8BA94B1, i as nat),
            c == lfsr_iter_spec(0x3BF5080AC8BA94B1, i as nat),
        decreases 24 - i,
    {
        proof {
            lemma_bash_rounds_snoc(s0, 0x3BF5080AC8BA94B1, i as nat);
        }
        bash_round(state, c);
        c = lfsr_step(c);
        i += 1;
    }
}

} // verus!
