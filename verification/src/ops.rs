//! Sponge operations of the Ascon authenticated cipher over a forty-byte
//! state: the byte-level permutation, and the keyed initialization,
//! finalization and associated-data absorption built around it, with a
//! sixteen-byte key, a sixteen-byte rate, twelve initialization rounds and
//! eight intermediate rounds.

use crate::ascon::{ascon_permute_spec, lemma_ascon_permute_snoc, round, round_constant};
use crate::util::{bytes_of_words_spec, u64_to_u8, u8_to_u64, words_of_bytes_spec};
use vstd::array::ArrayAdditionalExecFns;
use vstd::prelude::*;

verus! {

/// Rounds of the initialization and finalization permutation.
pub const A: usize = 12;

/// Rounds of the intermediate permutation.
pub const B: usize = 8;

/// Bytes of key.
pub const KEY_LEN: usize = 16;

/// Bytes absorbed per block.
pub const RATE: usize = 16;

/// Bytes of state.
pub const S_SIZE: usize = 40;

/// The byte-level view of rounds `start` through `start + rounds - 1`: the
/// bytes are read as five big-endian words, permuted, and written back.
pub open spec fn permutation_spec(b: Seq<u8>, start: int, rounds: nat) -> Seq<u8>
    recommends
        b.len() == 40,
        0 <= start,
        start + rounds <= 12,
{
    bytes_of_words_spec(ascon_permute_spec(words_of_bytes_spec(b, 5), start, rounds))
}

/// Apply rounds `start` through `start + rounds - 1` of the schedule to the
/// forty-byte state.
pub fn permutation(s: &mut [u8; 40], start: usize, rounds: usize)
    requires
        start + rounds <= 12,
    ensures
        final(s)@ == permutation_spec(old(s)@, start as int, rounds as nat),
{
    let mut x = [0u64; 5];
    u8_to_u64(s.as_slice(), &mut x);
    let ghost w0 = x@;
    let mut i = start;
    while i < start + rounds
        invariant
            start <= i <= start + rounds,
            start + rounds <= 12,
            x@ == ascon_permute_spec(w0, start as int, (i - start) as nat),
        decreases start + rounds - i,
    {
        proof {
            lemma_ascon_permute_snoc(w0, start as int, (i - start) as nat);
        }
        let c = round_constant(i as u64);
        x = round(x, c);
        i += 1;
    }
    u64_to_u8(&x, s);
}

/// The initial state laid out from the cipher parameters, key and nonce:
/// four parameter bytes, four bytes left as they were, then the key and
/// the nonce.
pub open spec fn init_layout_spec(s_old: Seq<u8>, key: Seq<u8>, nonce: Seq<u8>) -> Seq<u8>
    recommends
        s_old.len() == 40,
        key.len() == 16,
        nonce.len() == 16,
{
    Seq::new(
        40,
        |i: int|
            if i == 0 { 128u8 }
            else if i == 1 { 128u8 }
            else if i == 2 { 12u8 }
            else if i == 3 { 8u8 }
            else if i < 8 { s_old[i] }
            else if i < 24 { key[i - 8] }
            else { nonce[i - 24] },
    )
}

/// Initialization: the parameters, key and nonce laid into the state, the
/// twelve-round permutation applied, and the key xored into the last
/// sixteen bytes.
pub open spec fn initialization_spec(s_old: Seq<u8>, key: Seq<u8>, nonce: Seq<u8>) -> Seq<u8>
    recommends
        s_old.len() == 40,
        key.len() == 16,
        nonce.len() == 16,
{
    let p = permutation_spec(init_layout_spec(s_old, key, nonce), 0, 12);
    Seq::new(40, |i: int| if 24 <= i { p[i] ^ key[i - 24] } else { p[i] })
}

/// Lay out the parameters, key and nonce, permute, and xor the key in.
pub fn initialization(s: &mut [u8; 40], key: &[u8], nonce: &[u8])
    requires
        key@.len() == 16,
        nonce@.len() == 16,
    ensures
        final(s)@ == initialization_spec(old(s)@, key@, nonce@),
{
    let ghost s0 = s@;
    s.set(0, 128);
    s.set(1, 128);
    s.set(2, 12);
    s.set(3, 8);
    let mut i: usize = 0;
    while i < 16
        invariant
            i <= 16,
            key@.len() == 16,
            s@[0] == 128u8,
            s@[1] == 128u8,
            s@[2] == 12u8,
            s@[3] == 8u8,
            forall|k: int| 8 <= k < 8 + i ==> s@[k] == key@[k - 8],
            forall|k: int| (4 <= k < 8 || 8 + i <= k < 40) ==> s@[k] == s0[k],
        decreases 16 - i,
    {
        s.set(8 + i, key[i]);
        i += 1;
    }
    let mut i: usize = 0;
    while i < 16
        invariant
            i <= 16,
            key@.len() == 16,
            nonce@.len() == 16,
            s@[0] == 128u8,
            s@[1] == 128u8,
            s@[2] == 12u8,
            s@[3] == 8u8,
            forall|k: int| 8 <= k < 24 ==> s@[k] == key@[k - 8],
            forall|k: int| 24 <= k < 24 + i ==> s@[k] == nonce@[k - 24],
            forall|k: int| (4 <= k < 8 || 24 + i <= k < 40) ==> s@[k] == s0[k],
        decreases 16 - i,
    {
        s.set(24 + i, nonce[i]);
        i += 1;
    }
    proof {
        assert(s@ =~= init_layout_spec(s0, key@, nonce@));
    }
    permutation(s, 0, 12);
    let ghost p = s@;
    let mut i: usize = 0;
    while i < 16
        invariant
            i <= 16,
            key@.len() == 16,
            forall|k: int| 24 <= k < 24 + i ==> s@[k] == (p[k] ^ key@[k - 24]),
            forall|k: int| (0 <= k < 24 || 24 + i <= k < 40) ==> s@[k] == p[k],
        decreases 16 - i,
    {
        let b = s[24 + i];
        s.set(24 + i, b ^ key[i]);
        i += 1;
    }
    proof {
        assert(s@ =~= initialization_spec(s0, key@, nonce@));
    }
}

/// Finalization: the key xored into the sixteen bytes after the rate, the
/// twelve-round permutation applied, and the key xored into the last
/// sixteen bytes, where the tag then stands.
pub open spec fn finalization_spec(s_old: Seq<u8>, key: Seq<u8>) -> Seq<u8>
    recommends
        s_old.len() == 40,
        key.len() == 16,
{
    let pre = Seq::new(40, |i: int| if 16 <= i < 32 { s_old[i] ^ key[i - 16] } else { s_old[i] });
    let p = permutation_spec(pre, 0, 12);
    Seq::new(40, |i: int| if 24 <= i { p[i] ^ key[i - 24] } else { p[i] })
}

/// Mix the key in, permute, and mix the key into the tag position.
pub fn finalization(s: &mut [u8; 40], key: &[u8])
    requires
        key@.len() == 16,
    ensures
        final(s)@ == finalization_spec(old(s)@, key@),
{
    let ghost s0 = s@;
    let mut i: usize = 0;
    while i < 16
        invariant
            i <= 16,
            key@.len() == 16,
            forall|k: int| 16 <= k < 16 + i ==> s@[k] == (s0[k] ^ key@[k - 16]),
            forall|k: int| (0 <= k < 16 || 16 + i <= k < 40) ==> s@[k] == s0[k],
        decreases 16 - i,
    {
        let b = s[16 + i];
        s.set(16 + i, b ^ key[i]);
        i += 1;
    }
    proof {
        assert(s@ =~= Seq::new(
            40,
            |k: int| if 16 <= k < 32 { s0[k] ^ key@[k - 16] } else { s0[k] },
        ));
    }
    permutation(s, 0, 12);
    let ghost p = s@;
    let mut i: usize = 0;
    while i < 16
        invariant
            i <= 16,
            key@.len() == 16,
            forall|k: int| 24 <= k < 24 + i ==> s@[k] == (p[k] ^ key@[k - 24]),
            forall|k: int| (0 <= k < 24 || 24 + i <= k < 40) ==> s@[k] == p[k],
        decreases 16 - i,
    {
        let b = s[24 + i];
        s.set(24 + i, b ^ key[i]);
        i += 1;
    }
    proof {
        assert(s@ =~= finalization_spec(s0, key@));
    }
}

/// One absorbed block: the next sixteen bytes of data xored into the rate
/// portion, then the eight intermediate rounds.
pub open spec fn aad_block_spec(st: Seq<u8>, aa: Seq<u8>, i: int) -> Seq<u8>
    recommends
        st.len() == 40,
        0 <= i,
        16 * i + 16 <= aa.len(),
{
    let absorbed = Seq::new(40, |j: int| if j < 16 { st[j] ^ aa[16 * i + j] } else { st[j] });
    permutation_spec(absorbed, 4, 8)
}

/// Blocks `from` through `blocks - 1` of the data absorbed in order.
pub open spec fn process_aad_spec(st: Seq<u8>, aa: Seq<u8>, from: int, blocks: int) -> Seq<u8>
    recommends
        st.len() == 40,
        16 * blocks <= aa.len(),
    decreases blocks - from,
{
    if from >= blocks {
        st
    } else {
        process_aad_spec(aad_block_spec(st, aa, from), aa, from + 1, blocks)
    }
}

/// How one block extends a run of absorbed blocks at its end.
proof fn lemma_process_aad_snoc(st: Seq<u8>, aa: Seq<u8>, from: int, blocks: int)
    requires
        from <= blocks,
    ensures
        process_aad_spec(st, aa, from, blocks + 1) == aad_block_spec(
            process_aad_spec(st, aa, from, blocks),
            aa,
            blocks,
        ),
    decreases blocks - from,
{
    if from == blocks {
        assert(process_aad_spec(aad_block_spec(st, aa, from), aa, from + 1, blocks + 1)
            == aad_block_spec(st, aa, from));
    } else {
        lemma_process_aad_snoc(aad_block_spec(st, aa, from), aa, from + 1, blocks);
    }
}

/// Absorb `s` sixteen-byte blocks of padded associated data into the state.
pub fn process_aad(ss: &mut [u8; 40], aa: &[u8], s: usize)
    requires
        aa@.len() >= 16 * s,
    ensures
        final(ss)@ == process_aad_spec(old(ss)@, aa@, 0, s as int),
{
    let ghost s0 = ss@;
    let aa_len: usize = aa.len();
    let mut i: usize = 0;
    while i < s
        invariant
            i <= s,
            aa@.len() >= 16 * s,
            aa@.len() == aa_len,
            ss@ == process_aad_spec(s0, aa@, 0, i as int),
        decreases s - i,
    {
        proof {
            lemma_process_aad_snoc(s0, aa@, 0, i as int);
        }
        let ghost pre = ss@;
        let mut j: usize = 0;
        while j < 16
            invariant
                j <= 16,
                i < s,
                aa@.len() >= 16 * s,
                aa@.len() == aa_len,
                forall|k: int| 0 <= k < j ==> ss@[k] == (pre[k] ^ aa@[16 * (i as int) + k]),
                forall|k: int| j <= k < 40 ==> ss@[k] == pre[k],
            decreases 16 - j,
        {
            let b = ss[j];
            ss.set(j, b ^ aa[16 * i + j]);
            j += 1;
        }
        proof {
            assert(ss@ =~= Seq::new(
                40,
                |k: int| if k < 16 { pre[k] ^ aa@[16 * (i as int) + k] } else { pre[k] },
            ));
        }
        permutation(ss, 4, 8);
        i += 1;
    }
}

} // verus!
