//! Conversions between byte strings and 64-bit words in big-endian order,
//! shared by the Ascon state and its sponge operations.

use vstd::array::ArrayAdditionalExecFns;
use vstd::prelude::*;

verus! {

/// Byte `j` of word `w` in big-endian order.
pub open spec fn be_byte_spec(w: u64, j: int) -> u8
    recommends
        0 <= j < 8,
{
    ((w >> ((56 - 8 * j) as u64)) & 0xff) as u8
}

/// The bytes of a sequence of words, each word big-endian.
pub open spec fn bytes_of_words_spec(s: Seq<u64>) -> Seq<u8> {
    Seq::new(s.len() * 8, |i: int| be_byte_spec(s[i / 8], i % 8))
}

/// The big-endian word at byte offset `off`.
pub open spec fn word_at_spec(b: Seq<u8>, off: int) -> u64
    recommends
        0 <= off,
        off + 8 <= b.len(),
{
    ((b[off] as u64) << 56u64) | ((b[off + 1] as u64) << 48u64) | ((b[off + 2] as u64) << 40u64)
        | ((b[off + 3] as u64) << 32u64) | ((b[off + 4] as u64) << 24u64) | ((b[off + 5] as u64)
        << 16u64) | ((b[off + 6] as u64) << 8u64) | (b[off + 7] as u64)
}

/// The first `n` words read big-endian from a byte sequence.
pub open spec fn words_of_bytes_spec(b: Seq<u8>, n: int) -> Seq<u64> {
    Seq::new(n as nat, |i: int| word_at_spec(b, 8 * i))
}

/// Read the first forty bytes of `input`, big-endian, into five words.
pub fn u8_to_u64(input: &[u8], output: &mut [u64; 5])
    requires
        input@.len() >= 40,
    ensures
        final(output)@ == words_of_bytes_spec(input@, 5),
{
    let mut i: usize = 0;
    while i < 5
        invariant
            i <= 5,
            input@.len() >= 40,
            forall|k: int| 0 <= k < i ==> output@[k] == word_at_spec(input@, 8 * k),
        decreases 5 - i,
    {
        let w = ((input[8 * i] as u64) << 56u64) | ((input[8 * i + 1] as u64) << 48u64) | ((input[8
            * i + 2] as u64) << 40u64) | ((input[8 * i + 3] as u64) << 32u64) | ((input[8 * i
            + 4] as u64) << 24u64) | ((input[8 * i + 5] as u64) << 16u64) | ((input[8 * i
            + 6] as u64) << 8u64) | (input[8 * i + 7] as u64);
        output.set(i, w);
        i += 1;
    }
    proof {
        assert(output@ =~= words_of_bytes_spec(input@, 5));
    }
}

/// Write the five words of `input` into forty bytes, each big-endian.
pub fn u64_to_u8(input: &[u64; 5], output: &mut [u8; 40])
    ensures
        final(output)@ == bytes_of_words_spec(input@),
{
    let mut i: usize = 0;
    while i < 5
        invariant
            i <= 5,
            forall|k: int| 0 <= k < 8 * i ==> output@[k] == be_byte_spec(input@[k / 8], k % 8),
        decreases 5 - i,
    {
        let w = input[i];
        output.set(8 * i, ((w >> 56u64) & 0xff) as u8);
        output.set(8 * i + 1, ((w >> 48u64) & 0xff) as u8);
        output.set(8 * i + 2, ((w >> 40u64) & 0xff) as u8);
        output.set(8 * i + 3, ((w >> 32u64) & 0xff) as u8);
        output.set(8 * i + 4, ((w >> 24u64) & 0xff) as u8);
        output.set(8 * i + 5, ((w >> 16u64) & 0xff) as u8);
        output.set(8 * i + 6, ((w >> 8u64) & 0xff) as u8);
        output.set(8 * i + 7, ((w >> 0u64) & 0xff) as u8);
        i += 1;
    }
    proof {
        assert(output@ =~= bytes_of_words_spec(input@));
    }
}

/// A word survives the trip through its eight big-endian bytes.
proof fn lemma_word_recompose(w: u64)
    by (bit_vector)
    ensures
        ((((((w >> 56u64) & 0xff) as u8) as u64) << 56u64) | (((((w >> 48u64)
            & 0xff) as u8) as u64) << 48u64) | (((((w >> 40u64) & 0xff) as u8) as u64) << 40u64)
            | (((((w >> 32u64) & 0xff) as u8) as u64) << 32u64) | (((((w >> 24u64)
            & 0xff) as u8) as u64) << 24u64) | (((((w >> 16u64) & 0xff) as u8) as u64) << 16u64)
            | (((((w >> 8u64) & 0xff) as u8) as u64) << 8u64) | ((((w >> 0u64)
            & 0xff) as u8) as u64)) == w,
{
}

/// Round trip: reading the bytes a word sequence was written to gives the
/// word sequence back.
pub proof fn lemma_bytes_words_round_trip(s: Seq<u64>)
    requires
        s.len() == 5,
    ensures
        words_of_bytes_spec(bytes_of_words_spec(s), 5) == s,
{
    let b = bytes_of_words_spec(s);
    assert forall|i: int| 0 <= i < 5 implies words_of_bytes_spec(b, 5)[i] == s[i] by {
        let w = s[i];
        assert(b[8 * i] == be_byte_spec(w, 0));
        assert(b[8 * i + 1] == be_byte_spec(w, 1));
        assert(b[8 * i + 2] == be_byte_spec(w, 2));
        assert(b[8 * i + 3] == be_byte_spec(w, 3));
        assert(b[8 * i + 4] == be_byte_spec(w, 4));
        assert(b[8 * i + 5] == be_byte_spec(w, 5));
        assert(b[8 * i + 6] == be_byte_spec(w, 6));
        assert(b[8 * i + 7] == be_byte_spec(w, 7));
        lemma_word_recompose(w);
    }
    assert(words_of_bytes_spec(bytes_of_words_spec(s), 5) =~= s);
}

} // verus!
