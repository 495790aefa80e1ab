//! The standard-compliant interface to the bash algorithms of STB
//! 34.101.77.  The standard states its test vectors in big-endian order
//! while the internal computation is little-endian, so these wrappers
//! reverse the bytes of every word on the way in and out.

use crate::bash;
use crate::bash::{bash_f_spec, bash_s_spec};
use vstd::array::ArrayAdditionalExecFns;
use vstd::prelude::*;

verus! {

/// The byte-reversal of a 64-bit word.
pub open spec fn swap64_spec(x: u64) -> u64 {
    ((x & 0xff) << 56u64) | (((x >> 8u64) & 0xff) << 48u64) | (((x >> 16u64) & 0xff) << 40u64) | ((
    (x >> 24u64) & 0xff) << 32u64) | (((x >> 32u64) & 0xff) << 24u64) | (((x >> 40u64)
        & 0xff) << 16u64) | (((x >> 48u64) & 0xff) << 8u64) | (x >> 56u64)
}

/// Reverse the bytes of a 64-bit word.
pub fn swap_bytes64(x: u64) -> (r: u64)
    ensures
        r == swap64_spec(x),
{
    ((x & 0xff) << 56u64) | (((x >> 8u64) & 0xff) << 48u64) | (((x >> 16u64) & 0xff) << 40u64) | ((
    (x >> 24u64) & 0xff) << 32u64) | (((x >> 32u64) & 0xff) << 24u64) | (((x >> 40u64)
        & 0xff) << 16u64) | (((x >> 48u64) & 0xff) << 8u64) | (x >> 56u64)
}

/// Every word of a state byte-reversed.
pub open spec fn swap_state_spec(s: Seq<u64>) -> Seq<u64> {
    Seq::new(s.len(), |i: int| swap64_spec(s[i]))
}

/// The bash-s transformation with the standard's big-endian convention on
/// its three words.
pub open spec fn bash_s_be_spec(
    w0: u64,
    w1: u64,
    w2: u64,
    m1: u32,
    n1: u32,
    m2: u32,
    n2: u32,
) -> (u64, u64, u64) {
    let r = bash_s_spec(swap64_spec(w0), swap64_spec(w1), swap64_spec(w2), m1, n1, m2, n2);
    (swap64_spec(r.0), swap64_spec(r.1), swap64_spec(r.2))
}

/// The bash-s transformation of Section 6.1 of STB 34.101.77, taking and
/// returning words in the standard's big-endian order.
pub fn bash_s(w0: u64, w1: u64, w2: u64, m1: u32, n1: u32, m2: u32, n2: u32) -> (r: (
    u64,
    u64,
    u64,
))
    ensures
        r == bash_s_be_spec(w0, w1, w2, m1, n1, m2, n2),
{
    let t = bash::bash_s(swap_bytes64(w0), swap_bytes64(w1), swap_bytes64(w2), m1, n1, m2, n2);
    (swap_bytes64(t.0), swap_bytes64(t.1), swap_bytes64(t.2))
}

/// The bash-f permutation on a state written in the standard's big-endian
/// word order.
pub open spec fn bash_f_be_spec(s: Seq<u64>) -> Seq<u64> {
    swap_state_spec(bash_f_spec(swap_state_spec(s)))
}

/// Reverse the bytes of every word of the state.
fn swap_state(state: &mut [u64; 24])
    ensures
        final(state)@ == swap_state_spec(old(state)@),
{
    let ghost s0 = state@;
    let mut i: usize = 0;
    while i < 24
        invariant
            i <= 24,
            state@.len() == 24,
            forall|k: int| 0 <= k < i ==> state@[k] == swap64_spec(s0[k]),
            forall|k: int| i <= k < 24 ==> state@[k] == s0[k],
        decreases 24 - i,
    {
        let w = state[i];
        state.set(i, swap_bytes64(w));
        i += 1;
    }
    proof {
        assert(state@ =~= swap_state_spec(s0));
    }
}

/// The bash-f sponge function of Section 6.2 of STB 34.101.77: it accepts
/// and returns states in big-endian byte order as the standard writes them.
pub fn bash_f(state: &mut [u64; 24])
    ensures
        final(state)@ == bash_f_be_spec(old(state)@),
{
    swap_state(state);
    bash::bash_f(state);
    swap_state(state);
}

} // verus!
