//! Authenticated encryption with associated data over the Ascon sponge:
//! the cipher with a sixteen-byte key, a sixteen-byte rate, twelve
//! initialization rounds and eight intermediate rounds, over plain byte
//! values.  An outer layer may dress these functions in the common aead
//! traits.

use crate::ops::{
    finalization, finalization_spec, initialization, initialization_spec, permutation,
    permutation_spec, process_aad, process_aad_spec,
};
use subtle::ConstantTimeEq;
use vstd::array::ArrayAdditionalExecFns;
use vstd::prelude::*;

verus! {

/// `blocks` sixteen-byte blocks holding the data, a single one bit
/// directly after it, and zeros to the end.
pub open spec fn padded_spec(data: Seq<u8>, blocks: int) -> Seq<u8> {
    Seq::new(
        (16 * blocks) as nat,
        |i: int|
            if i < data.len() {
                data[i]
            } else if i == data.len() {
                0x80u8
            } else {
                0u8
            },
    )
}

/// The sponge state after initialization with key and nonce, absorption of
/// the padded associated data where there is any, and the domain-separating
/// one bit in the last byte.
pub open spec fn start_state_spec(key: Seq<u8>, nonce: Seq<u8>, aad: Seq<u8>) -> Seq<u8>
    recommends
        key.len() == 16,
        nonce.len() == 16,
{
    let zero = Seq::new(40, |i: int| 0u8);
    let init = initialization_spec(zero, key, nonce);
    let blocks = (aad.len() / 16 + 1) as int;
    let after_aad = if aad.len() == 0 {
        init
    } else {
        process_aad_spec(init, padded_spec(aad, blocks), 0, blocks)
    };
    after_aad.update(39, after_aad[39] ^ 1)
}

/// The rate portion of the state replaced by exclusive or with block `i` of
/// the padded message.
pub open spec fn absorb_block_spec(st: Seq<u8>, mm: Seq<u8>, i: int) -> Seq<u8>
    recommends
        st.len() == 40,
        0 <= i,
        16 * i + 16 <= mm.len(),
{
    Seq::new(40, |j: int| if j < 16 { st[j] ^ mm[16 * i + j] } else { st[j] })
}

/// The encryption state before block `i` is absorbed: blocks `0` through
/// `i - 1` absorbed, each followed by the eight intermediate rounds.
pub open spec fn enc_state_spec(st0: Seq<u8>, mm: Seq<u8>, i: int) -> Seq<u8>
    decreases i,
{
    if i <= 0 {
        st0
    } else {
        permutation_spec(absorb_block_spec(enc_state_spec(st0, mm, i - 1), mm, i - 1), 4, 8)
    }
}

/// Ciphertext byte `k`: the keystream byte of its block xored with the
/// padded message byte.
pub open spec fn cipher_byte_spec(st0: Seq<u8>, mm: Seq<u8>, k: int) -> u8 {
    enc_state_spec(st0, mm, k / 16)[k % 16] ^ mm[k]
}

/// The ciphertext for a message: as long as the message, byte by byte.
pub open spec fn encrypt_ct_spec(key: Seq<u8>, nonce: Seq<u8>, aad: Seq<u8>, msg: Seq<u8>) -> Seq<
    u8,
> {
    let st0 = start_state_spec(key, nonce, aad);
    let mm = padded_spec(msg, (msg.len() / 16 + 1) as int);
    Seq::new(msg.len(), |k: int| cipher_byte_spec(st0, mm, k))
}

/// The authentication tag for a message: the last sixteen bytes of the
/// finalized state after the whole padded message is absorbed.
pub open spec fn encrypt_tag_spec(key: Seq<u8>, nonce: Seq<u8>, aad: Seq<u8>, msg: Seq<u8>) -> Seq<
    u8,
> {
    let st0 = start_state_spec(key, nonce, aad);
    let t = (msg.len() / 16 + 1) as int;
    let mm = padded_spec(msg, t);
    finalization_spec(absorb_block_spec(enc_state_spec(st0, mm, t - 1), mm, t - 1), key).subrange(
        24,
        40,
    )
}

/// The rate portion of the state replaced by block `i` of the ciphertext.
pub open spec fn dec_inject_spec(st: Seq<u8>, ct: Seq<u8>, i: int) -> Seq<u8>
    recommends
        st.len() == 40,
        0 <= i,
        16 * i + 16 <= ct.len(),
{
    Seq::new(40, |j: int| if j < 16 { ct[16 * i + j] } else { st[j] })
}

/// The decryption state before ciphertext block `i`: blocks `0` through
/// `i - 1` injected, each followed by the eight intermediate rounds.
pub open spec fn dec_state_spec(st0: Seq<u8>, ct: Seq<u8>, i: int) -> Seq<u8>
    decreases i,
{
    if i <= 0 {
        st0
    } else {
        permutation_spec(dec_inject_spec(dec_state_spec(st0, ct, i - 1), ct, i - 1), 4, 8)
    }
}

/// Recovered message byte `k`: the keystream byte of its block xored with
/// the ciphertext byte.
pub open spec fn plain_byte_spec(st0: Seq<u8>, ct: Seq<u8>, k: int) -> u8 {
    dec_state_spec(st0, ct, k / 16)[k % 16] ^ ct[k]
}

/// The message recovered from a ciphertext: as long as the ciphertext.
pub open spec fn decrypt_msg_spec(key: Seq<u8>, nonce: Seq<u8>, aad: Seq<u8>, ct: Seq<u8>) -> Seq<
    u8,
> {
    let st0 = start_state_spec(key, nonce, aad);
    Seq::new(ct.len(), |k: int| plain_byte_spec(st0, ct, k))
}

/// The state handed to finalization during decryption: the partial last
/// block of ciphertext in place, the padding bit xored in directly after
/// it.
pub open spec fn decrypt_final_state_spec(st0: Seq<u8>, ct: Seq<u8>) -> Seq<u8> {
    let t = (ct.len() / 16 + 1) as int;
    let l = (ct.len() % 16) as int;
    let st = dec_state_spec(st0, ct, t - 1);
    Seq::new(
        40,
        |j: int|
            if j < l {
                ct[16 * (t - 1) + j]
            } else if j == l {
                st[j] ^ 0x80
            } else {
                st[j]
            },
    )
}

/// The tag a ciphertext must authenticate with.
pub open spec fn decrypt_tag_spec(key: Seq<u8>, nonce: Seq<u8>, aad: Seq<u8>, ct: Seq<u8>) -> Seq<
    u8,
> {
    finalization_spec(decrypt_final_state_spec(start_state_spec(key, nonce, aad), ct), key)
        .subrange(24, 40)
}

proof fn lemma_xor_zero_u8()
    by (bit_vector)
    ensures
        forall|a: u8| #[trigger] (a ^ 0) == a,
{
}

proof fn lemma_xor_cancel_u8()
    by (bit_vector)
    ensures
        forall|a: u8, b: u8| #[trigger] (a ^ (a ^ b)) == b,
{
}

/// Decryption walks the same states as encryption wherever the ciphertext
/// it reads is the one encryption wrote.
proof fn lemma_round_trip_states(st0: Seq<u8>, mm: Seq<u8>, ct: Seq<u8>, i: int)
    requires
        16 * i <= ct.len(),
        forall|k: int| 0 <= k < ct.len() ==> ct[k] == cipher_byte_spec(st0, mm, k),
    ensures
        dec_state_spec(st0, ct, i) == enc_state_spec(st0, mm, i),
    decreases i,
{
    if i > 0 {
        lemma_round_trip_states(st0, mm, ct, i - 1);
        assert(dec_inject_spec(enc_state_spec(st0, mm, i - 1), ct, i - 1) =~= absorb_block_spec(
            enc_state_spec(st0, mm, i - 1),
            mm,
            i - 1,
        ));
    }
}

/// The state handed to finalization during decryption of a genuine
/// ciphertext is the state encryption finalized.
#[verifier::rlimit(100)]
#[verifier::spinoff_prover]
proof fn lemma_final_state_agree(st0: Seq<u8>, msg: Seq<u8>, mm: Seq<u8>, ct: Seq<u8>)
    requires
        mm == padded_spec(msg, (msg.len() / 16 + 1) as int),
        ct.len() == msg.len(),
        forall|k: int| 0 <= k < ct.len() ==> ct[k] == cipher_byte_spec(st0, mm, k),
        dec_state_spec(st0, ct, (msg.len() / 16) as int) == enc_state_spec(
            st0,
            mm,
            (msg.len() / 16) as int,
        ),
    ensures
        decrypt_final_state_spec(st0, ct) == absorb_block_spec(
            enc_state_spec(st0, mm, (msg.len() / 16) as int),
            mm,
            (msg.len() / 16) as int,
        ),
{
    lemma_xor_zero_u8();
    let tm1 = (msg.len() / 16) as int;
    let l = (msg.len() % 16) as int;
    let e = enc_state_spec(st0, mm, tm1);
    assert forall|j: int| 0 <= j < 40 implies decrypt_final_state_spec(st0, ct)[j]
        == absorb_block_spec(e, mm, tm1)[j] by {
        if j < l {
            assert((16 * tm1 + j) / 16 == tm1);
            assert((16 * tm1 + j) % 16 == j);
        } else if j == l {
            assert(16 * tm1 + j == msg.len());
            assert(mm[16 * tm1 + j] == 0x80);
        } else if j < 16 {
            assert(mm[16 * tm1 + j] == 0);
            assert(e[j] ^ 0 == e[j]);
        }
    }
    assert(decrypt_final_state_spec(st0, ct) =~= absorb_block_spec(e, mm, tm1));
}

/// Every keystream byte cancels, so decryption of a genuine ciphertext
/// reads the padded message back out.
proof fn lemma_plain_bytes_agree(st0: Seq<u8>, msg: Seq<u8>, mm: Seq<u8>, ct: Seq<u8>)
    requires
        mm == padded_spec(msg, (msg.len() / 16 + 1) as int),
        ct.len() == msg.len(),
        forall|k: int| 0 <= k < ct.len() ==> ct[k] == cipher_byte_spec(st0, mm, k),
    ensures
        forall|k: int| 0 <= k < msg.len() ==> plain_byte_spec(st0, ct, k) == msg[k],
{
    lemma_xor_cancel_u8();
    assert forall|k: int| 0 <= k < msg.len() implies plain_byte_spec(st0, ct, k) == msg[k] by {
        lemma_round_trip_states(st0, mm, ct, k / 16);
        assert(mm[k] == msg[k]);
    }
}

/// Round trip: the tag produced by encryption authenticates the ciphertext
/// it was produced with, and decryption of that ciphertext recovers the
/// original message, for every key, nonce, associated data and message.
pub proof fn lemma_encrypt_decrypt_round_trip(
    key: Seq<u8>,
    nonce: Seq<u8>,
    aad: Seq<u8>,
    msg: Seq<u8>,
)
    ensures
        decrypt_tag_spec(key, nonce, aad, encrypt_ct_spec(key, nonce, aad, msg))
            == encrypt_tag_spec(key, nonce, aad, msg),
        decrypt_msg_spec(key, nonce, aad, encrypt_ct_spec(key, nonce, aad, msg)) == msg,
{
    let st0 = start_state_spec(key, nonce, aad);
    let t = (msg.len() / 16 + 1) as int;
    let mm = padded_spec(msg, t);
    let ct = encrypt_ct_spec(key, nonce, aad, msg);
    assert(ct.len() == msg.len());
    lemma_round_trip_states(st0, mm, ct, t - 1);
    lemma_final_state_agree(st0, msg, mm, ct);
    assert(decrypt_tag_spec(key, nonce, aad, ct) == encrypt_tag_spec(key, nonce, aad, msg));
    lemma_plain_bytes_agree(st0, msg, mm, ct);
    assert(decrypt_msg_spec(key, nonce, aad, ct) =~= msg);
}

/// Authentication failure: the tag did not match the ciphertext.
#[derive(Clone, Copy, Debug, PartialEq, Eq, Structural)]
pub struct AeadError;

/// Relies on subtle's `ConstantTimeEq` for byte slices: the result says
/// whether the two slices are equal, computed in constant time.
#[verifier::external_body]
fn ct_eq_bytes(a: &[u8], b: &[u8]) -> (r: bool)
    ensures
        r == (a@ == b@),
{
    a.ct_eq(b).into()
}

/// Copy `data` into `blocks` sixteen-byte blocks and pad it.
fn padded_copy(data: &[u8], blocks: usize) -> (r: Vec<u8>)
    requires
        data@.len() < 16 * blocks,
        16 * blocks <= usize::MAX,
    ensures
        r@ == padded_spec(data@, blocks as int),
{
    let total = 16 * blocks;
    let len = data.len();
    let mut r: Vec<u8> = Vec::new();
    let mut i: usize = 0;
    while i < total
        invariant
            i <= total,
            total == 16 * blocks,
            len == data@.len(),
            len < total,
            r@.len() == i,
            forall|k: int|
                0 <= k < i ==> r@[k] == (if k < len {
                    data@[k]
                } else if k == len {
                    0x80u8
                } else {
                    0u8
                }),
        decreases total - i,
    {
        let b: u8 = if i < len {
            data[i]
        } else if i == len {
            0x80
        } else {
            0
        };
        r.push(b);
        i += 1;
    }
    proof {
        assert(r@ =~= padded_spec(data@, blocks as int));
    }
    r
}

/// Ascon authenticated encryption bound to a key.
pub struct AsconAead {
    key: [u8; 16],
}

impl View for AsconAead {
    type V = Seq<u8>;

    closed spec fn view(&self) -> Seq<u8> {
        self.key@
    }
}

impl AsconAead {
    /// A cipher instance bound to the sixteen-byte key.
    pub fn new(key: &[u8; 16]) -> (r: Self)
        ensures
            r@ == key@,
    {
        AsconAead { key: *key }
    }

    /// Encrypt the buffer in place and return the authentication tag.
    pub fn encrypt_in_place_detached(&self, nonce: &[u8; 16], aad: &[u8], buffer: &mut Vec<u8>) -> (tag: [u8; 16])
        requires
            aad@.len() + 16 <= usize::MAX,
            old(buffer)@.len() + 16 <= usize::MAX,
        ensures
            final(buffer)@ == encrypt_ct_spec(self@, nonce@, aad@, old(buffer)@),
            tag@ == encrypt_tag_spec(self@, nonce@, aad@, old(buffer)@),
    {
        let ghost msg = buffer@;
        let s = aad.len() / 16 + 1;
        let t = buffer.len() / 16 + 1;
        let l = buffer.len() % 16;
        let msg_len = buffer.len();

        let aa = padded_copy(aad, s);
        let mm = padded_copy(buffer.as_slice(), t);
        let ghost mmv = mm@;

        let mut state = [0u8; 40];
        proof {
            assert(state@ =~= Seq::new(40, |i: int| 0u8));
        }
        initialization(&mut state, self.key.as_slice(), nonce.as_slice());
        if aad.len() > 0 {
            process_aad(&mut state, aa.as_slice(), s);
        }
        let b39 = state[39];
        state.set(39, b39 ^ 1);
        let ghost st0 = start_state_spec(self@, nonce@, aad@);
        proof {
            assert(state@ == st0);
        }

        let mut i: usize = 0;
        while i < t - 1
            invariant
                i <= t - 1,
                t == msg.len() / 16 + 1,
                msg_len == msg.len(),
                msg.len() + 16 <= usize::MAX,
                buffer@.len() == msg.len(),
                mm@ == mmv,
                mm@.len() == 16 * t,
                mmv == padded_spec(msg, t as int),
                state@ == enc_state_spec(st0, mmv, i as int),
                forall|k: int| 0 <= k < 16 * i ==> buffer@[k] == cipher_byte_spec(st0, mmv, k),
                forall|k: int| 16 * i <= k < msg.len() ==> buffer@[k] == msg[k],
            decreases t - 1 - i,
        {
            let ghost pre = state@;
            let mut j: usize = 0;
            while j < 16
                invariant
                    j <= 16,
                    i < t - 1,
                    t == msg.len() / 16 + 1,
                    msg.len() + 16 <= usize::MAX,
                    mm@ == mmv,
                    mm@.len() == 16 * t,
                    forall|k: int| 0 <= k < j ==> state@[k] == (pre[k] ^ mmv[16 * (i as int) + k]),
                    forall|k: int| j <= k < 40 ==> state@[k] == pre[k],
                decreases 16 - j,
            {
                let b = state[j] ^ mm[16 * i + j];
                state.set(j, b);
                j += 1;
            }
            proof {
                assert(state@ =~= absorb_block_spec(pre, mmv, i as int));
            }
            let mut j: usize = 0;
            while j < 16
                invariant
                    j <= 16,
                    i < t - 1,
                    t == msg.len() / 16 + 1,
                    msg_len == msg.len(),
                    msg.len() + 16 <= usize::MAX,
                    buffer@.len() == msg.len(),
                    state@ == absorb_block_spec(enc_state_spec(st0, mmv, i as int), mmv, i as int),
                    forall|k: int|
                        0 <= k < 16 * i + j ==> buffer@[k] == cipher_byte_spec(st0, mmv, k),
                    forall|k: int| 16 * i + j <= k < msg.len() ==> buffer@[k] == msg[k],
                decreases 16 - j,
            {
                let v = state[j];
                buffer[16 * i + j] = v;
                j += 1;
            }
            permutation(&mut state, 4, 8);
            i += 1;
        }

        let ghost pre = state@;
        let mut j: usize = 0;
        while j < 16
            invariant
                j <= 16,
                t == msg.len() / 16 + 1,
                msg.len() + 16 <= usize::MAX,
                mm@ == mmv,
                mm@.len() == 16 * t,
                forall|k: int|
                    0 <= k < j ==> state@[k] == (pre[k] ^ mmv[16 * ((t - 1) as int) + k]),
                forall|k: int| j <= k < 40 ==> state@[k] == pre[k],
            decreases 16 - j,
        {
            let b = state[j] ^ mm[16 * (t - 1) + j];
            state.set(j, b);
            j += 1;
        }
        proof {
            assert(state@ =~= absorb_block_spec(pre, mmv, (t - 1) as int));
        }

        let mut j: usize = 0;
        while j < l
            invariant
                j <= l,
                l == msg.len() % 16,
                t == msg.len() / 16 + 1,
                msg_len == msg.len(),
                msg.len() + 16 <= usize::MAX,
                buffer@.len() == msg.len(),
                state@ == absorb_block_spec(
                    enc_state_spec(st0, mmv, (t - 1) as int),
                    mmv,
                    (t - 1) as int,
                ),
                forall|k: int|
                    0 <= k < 16 * (t - 1) + j ==> buffer@[k] == cipher_byte_spec(st0, mmv, k),
                forall|k: int| 16 * (t - 1) + j <= k < msg.len() ==> buffer@[k] == msg[k],
            decreases l - j,
        {
            let v = state[j];
            buffer[16 * (t - 1) + j] = v;
            j += 1;
        }
        proof {
            assert(buffer@ =~= encrypt_ct_spec(self@, nonce@, aad@, msg));
        }

        finalization(&mut state, self.key.as_slice());
        let mut tag = [0u8; 16];
        let ghost fin = state@;
        let mut j: usize = 0;
        while j < 16
            invariant
                j <= 16,
                state@ == fin,
                forall|k: int| 0 <= k < j ==> tag@[k] == fin[24 + k],
            decreases 16 - j,
        {
            let v = state[24 + j];
            tag.set(j, v);
            j += 1;
        }
        proof {
            assert(tag@ =~= encrypt_tag_spec(self@, nonce@, aad@, msg));
        }
        tag
    }

    /// Decrypt the buffer in place if the tag authenticates it; an
    /// unauthentic ciphertext is rejected with the buffer untouched.
    #[verifier::rlimit(100)]
    pub fn decrypt_in_place_detached(
        &self,
        nonce: &[u8; 16],
        aad: &[u8],
        buffer: &mut Vec<u8>,
        tag: &[u8; 16],
    ) -> (r: Result<(), AeadError>)
        requires
            aad@.len() + 16 <= usize::MAX,
            old(buffer)@.len() + 16 <= usize::MAX,
        ensures
            r is Ok <==> decrypt_tag_spec(self@, nonce@, aad@, old(buffer)@) == tag@,
            r is Ok ==> final(buffer)@ == decrypt_msg_spec(self@, nonce@, aad@, old(buffer)@),
            r is Err ==> final(buffer)@ == old(buffer)@,
    {
        let ghost ct = buffer@;
        let s = aad.len() / 16 + 1;
        let t = buffer.len() / 16 + 1;
        let l = buffer.len() % 16;
        let ct_len = buffer.len();

        let aa = padded_copy(aad, s);
        let mut mm: Vec<u8> = Vec::new();
        let mut i: usize = 0;
        while i < ct_len
            invariant
                i <= ct_len,
                mm@.len() == i,
            decreases ct_len - i,
        {
            mm.push(0);
            i += 1;
        }

        let mut state = [0u8; 40];
        proof {
            assert(state@ =~= Seq::new(40, |i: int| 0u8));
        }
        initialization(&mut state, self.key.as_slice(), nonce.as_slice());
        if aad.len() > 0 {
            process_aad(&mut state, aa.as_slice(), s);
        }
        let b39 = state[39];
        state.set(39, b39 ^ 1);
        let ghost st0 = start_state_spec(self@, nonce@, aad@);
        proof {
            assert(state@ == st0);
        }

        let mut i: usize = 0;
        while i < t - 1
            invariant
                i <= t - 1,
                t == ct.len() / 16 + 1,
                ct_len == ct.len(),
                ct.len() + 16 <= usize::MAX,
                buffer@ == ct,
                mm@.len() == ct.len(),
                state@ == dec_state_spec(st0, ct, i as int),
                forall|k: int| 0 <= k < 16 * i ==> mm@[k] == plain_byte_spec(st0, ct, k),
            decreases t - 1 - i,
        {
            let ghost pre = state@;
            let mut j: usize = 0;
            while j < 16
                invariant
                    j <= 16,
                    i < t - 1,
                    t == ct.len() / 16 + 1,
                    ct_len == ct.len(),
                    ct.len() + 16 <= usize::MAX,
                    buffer@ == ct,
                    mm@.len() == ct.len(),
                    state@ == pre,
                    pre == dec_state_spec(st0, ct, i as int),
                    forall|k: int|
                        0 <= k < 16 * i + j ==> mm@[k] == plain_byte_spec(st0, ct, k),
                decreases 16 - j,
            {
                let v = state[j] ^ buffer[16 * i + j];
                mm[16 * i + j] = v;
                j += 1;
            }
            let mut j: usize = 0;
            while j < 16
                invariant
                    j <= 16,
                    i < t - 1,
                    t == ct.len() / 16 + 1,
                    ct.len() + 16 <= usize::MAX,
                    buffer@ == ct,
                    forall|k: int| 0 <= k < j ==> state@[k] == ct[16 * (i as int) + k],
                    forall|k: int| j <= k < 40 ==> state@[k] == pre[k],
                decreases 16 - j,
            {
                let v = buffer[16 * i + j];
                state.set(j, v);
                j += 1;
            }
            proof {
                assert(state@ =~= dec_inject_spec(pre, ct, i as int));
            }
            permutation(&mut state, 4, 8);
            i += 1;
        }

        let ghost stl = state@;
        let mut j: usize = 0;
        while j < l
            invariant
                j <= l,
                l == ct.len() % 16,
                t == ct.len() / 16 + 1,
                ct_len == ct.len(),
                ct.len() + 16 <= usize::MAX,
                buffer@ == ct,
                mm@.len() == ct.len(),
                state@ == stl,
                stl == dec_state_spec(st0, ct, (t - 1) as int),
                forall|k: int|
                    0 <= k < 16 * (t - 1) + j ==> mm@[k] == plain_byte_spec(st0, ct, k),
            decreases l - j,
        {
            let v = state[j] ^ buffer[16 * (t - 1) + j];
            mm[16 * (t - 1) + j] = v;
            j += 1;
        }
        let mut j: usize = 0;
        while j < l
            invariant
                j <= l,
                l == ct.len() % 16,
                t == ct.len() / 16 + 1,
                ct.len() + 16 <= usize::MAX,
                buffer@ == ct,
                forall|k: int| 0 <= k < j ==> state@[k] == ct[16 * ((t - 1) as int) + k],
                forall|k: int| j <= k < 40 ==> state@[k] == stl[k],
            decreases l - j,
        {
            let v = buffer[16 * (t - 1) + j];
            state.set(j, v);
            j += 1;
        }
        let bl = state[l];
        state.set(l, bl ^ 0x80);
        proof {
            assert(state@ =~= decrypt_final_state_spec(st0, ct));
        }

        finalization(&mut state, self.key.as_slice());
        let ghost fin = state@;
        let mut expected = [0u8; 16];
        let mut j: usize = 0;
        while j < 16
            invariant
                j <= 16,
                state@ == fin,
                forall|k: int| 0 <= k < j ==> expected@[k] == fin[24 + k],
            decreases 16 - j,
        {
            let v = state[24 + j];
            expected.set(j, v);
            j += 1;
        }
        proof {
            assert(expected@ =~= decrypt_tag_spec(self@, nonce@, aad@, ct));
        }

        if ct_eq_bytes(expected.as_slice(), tag.as_slice()) {
            let mut k: usize = 0;
            while k < ct_len
                invariant
                    k <= ct_len,
                    ct_len == ct.len(),
                    buffer@.len() == ct.len(),
                    mm@.len() == ct.len(),
                    forall|q: int| 0 <= q < ct.len() ==> mm@[q] == plain_byte_spec(st0, ct, q),
                    forall|q: int| 0 <= q < k ==> buffer@[q] == mm@[q],
                    forall|q: int| k <= q < ct.len() ==> buffer@[q] == ct[q],
                decreases ct_len - k,
            {
                let v = mm[k];
                buffer[k] = v;
                k += 1;
            }
            proof {
                assert(buffer@ =~= decrypt_msg_spec(self@, nonce@, aad@, ct));
            }
            Ok(())
        } else {
            Err(AeadError)
        }
    }
}

} // verus!
