//! The Ascon permutation: a 320-bit state of five 64-bit words, transformed
//! by up to twelve rounds of a round-constant addition, an S-box layer and
//! a linear diffusion layer.

use crate::util::{bytes_of_words_spec, u64_to_u8, u8_to_u64, words_of_bytes_spec};
use vstd::prelude::*;

verus! {

/// Mask used to pad the final block absorbed by a sponge built on this
/// permutation: a single one bit directly after byte `n` of the big-endian
/// word.
pub open spec fn pad_spec(n: usize) -> u64
    recommends
        n < 8,
{
    0x80u64 << ((56 - 8 * (n as int)) as u64)
}

/// Produce the padding mask for a block whose last `n` bytes are data.
pub fn pad(n: usize) -> (r: u64)
    requires
        n < 8,
    ensures
        r == pad_spec(n),
{
    let sh: u64 = (56 - 8 * n) as u64;
    0x80u64 << sh
}

/// The constant of round `round` of the twelve-round schedule: the round
/// index in the low nibble beside its complement from fifteen in the next.
pub open spec fn round_constant_spec(round: int) -> u64
    recommends
        0 <= round <= 15,
{
    (((15 - round) as u64) << 4u64) | (round as u64)
}

/// Compute round constant `round`.
pub fn round_constant(round: u64) -> (r: u64)
    requires
        round <= 15,
    ensures
        r == round_constant_spec(round as int),
{
    ((0xfu64 - round) << 4u64) | round
}

/// Rotation of a 64-bit word right by `n` bit positions.
pub open spec fn rotr64_spec(x: u64, n: u64) -> u64
    recommends
        0 < n < 64,
{
    (x >> n) | (x << ((64 - n) as u64))
}

/// Rotate a 64-bit word right by `n` bit positions.
fn rotr64(x: u64, n: u64) -> (r: u64)
    requires
        0 < n < 64,
    ensures
        r == rotr64_spec(x, n),
{
    (x >> n) | (x << (64 - n))
}

/// Ascon's round function: the round constant added to the middle word,
/// the five-bit S-box applied across the words, and each word diffused with
/// two rotated copies of itself.
pub open spec fn ascon_round_spec(x: Seq<u64>, c: u64) -> Seq<u64>
    recommends
        x.len() == 5,
{
    let x0 = x[0] ^ x[4];
    let x2 = x[2] ^ x[1] ^ c;
    let x4 = x[4] ^ x[3];
    let s0 = x0 ^ (!x[1] & x2);
    let s1 = x[1] ^ (!x2 & x[3]);
    let s2 = x2 ^ (!x[3] & x4);
    let s3 = x[3] ^ (!x4 & x0);
    let s4 = x4 ^ (!x0 & x[1]);
    let t1 = s1 ^ s0;
    let t3 = s3 ^ s2;
    let t0 = s0 ^ s4;
    let y0 = t0 ^ rotr64_spec(t0, 9);
    let y1 = t1 ^ rotr64_spec(t1, 22);
    let y2 = s2 ^ rotr64_spec(s2, 5);
    let y3 = t3 ^ rotr64_spec(t3, 7);
    let y4 = s4 ^ rotr64_spec(s4, 34);
    seq![
        t0 ^ rotr64_spec(y0, 19),
        t1 ^ rotr64_spec(y1, 39),
        !(s2 ^ rotr64_spec(y2, 1)),
        t3 ^ rotr64_spec(y3, 10),
        s4 ^ rotr64_spec(y4, 7),
    ]
}

/// Ascon's round function on five words with round constant `c`.
pub fn round(x: [u64; 5], c: u64) -> (r: [u64; 5])
    ensures
        r@ == ascon_round_spec(x@, c),
{
    let x0 = x[0] ^ x[4];
    let x2 = x[2] ^ x[1] ^ c;
    let x4 = x[4] ^ x[3];
    let s0 = x0 ^ (!x[1] & x2);
    let s1 = x[1] ^ (!x2 & x[3]);
    let s2 = x2 ^ (!x[3] & x4);
    let s3 = x[3] ^ (!x4 & x0);
    let s4 = x4 ^ (!x0 & x[1]);
    let t1 = s1 ^ s0;
    let t3 = s3 ^ s2;
    let t0 = s0 ^ s4;
    let y0 = t0 ^ rotr64(t0, 9);
    let y1 = t1 ^ rotr64(t1, 22);
    let y2 = s2 ^ rotr64(s2, 5);
    let y3 = t3 ^ rotr64(t3, 7);
    let y4 = s4 ^ rotr64(s4, 34);
    let r = [
        t0 ^ rotr64(y0, 19),
        t1 ^ rotr64(y1, 39),
        !(s2 ^ rotr64(y2, 1)),
        t3 ^ rotr64(y3, 10),
        s4 ^ rotr64(y4, 7),
    ];
    proof {
        assert(r@ =~= ascon_round_spec(x@, c));
    }
    r
}

/// Rounds `start` through `start + n - 1` of the twelve-round schedule,
/// applied in order.
pub open spec fn ascon_permute_spec(x: Seq<u64>, start: int, n: nat) -> Seq<u64>
    recommends
        x.len() == 5,
        0 <= start,
        start + n <= 12,
    decreases n,
{
    if n == 0 {
        x
    } else {
        ascon_permute_spec(ascon_round_spec(x, round_constant_spec(start)), start + 1, (n - 1) as nat)
    }
}

/// How one round extends a run of rounds at its end.
pub(crate) proof fn lemma_ascon_permute_snoc(x: Seq<u64>, start: int, n: nat)
    ensures
        ascon_permute_spec(x, start, n + 1) == ascon_round_spec(
            ascon_permute_spec(x, start, n),
            round_constant_spec(start + n),
        ),
    decreases n,
{
    if n == 0 {
        assert(ascon_permute_spec(ascon_round_spec(x, round_constant_spec(start)), start + 1, 0)
            == ascon_round_spec(x, round_constant_spec(start)));
    } else {
        lemma_ascon_permute_snoc(
            ascon_round_spec(x, round_constant_spec(start)),
            start + 1,
            (n - 1) as nat,
        );
    }
}

/// The state of Ascon's permutation: 320 bits as five 64-bit words.
#[derive(Clone, Debug)]
pub struct State {
    x: [u64; 5],
}

impl View for State {
    type V = Seq<u64>;

    closed spec fn view(&self) -> Seq<u64> {
        self.x@
    }
}

impl Default for State {
    /// The all-zero state.
    fn default() -> (r: Self)
        ensures
            r@ == seq![0u64, 0u64, 0u64, 0u64, 0u64],
    {
        let r = State { x: [0u64; 5] };
        proof {
            assert(r@ =~= seq![0u64, 0u64, 0u64, 0u64, 0u64]);
        }
        r
    }
}

impl State {
    /// Instantiate a new state from the given words.
    pub fn new(x0: u64, x1: u64, x2: u64, x3: u64, x4: u64) -> (r: Self)
        ensures
            r@ == seq![x0, x1, x2, x3, x4],
    {
        let r = State { x: [x0, x1, x2, x3, x4] };
        proof {
            assert(r@ =~= seq![x0, x1, x2, x3, x4]);
        }
        r
    }

    /// The word at position `index`.
    pub fn index(&self, index: usize) -> (r: u64)
        requires
            index < 5,
        ensures
            r == self@[index as int],
    {
        self.x[index]
    }

    /// Perform permutation with 12 rounds.
    pub fn permute_12(&mut self)
        ensures
            final(self)@ == ascon_permute_spec(old(self)@, 0, 12),
    {
        self.x = round(
            round(
                round(
                    round(
                        round(
                            round(
                                round(
                                    round(
                                        round(
                                            round(
                                                round(
                                                    round(self.x, round_constant(0)),
                                                    round_constant(1),
                                                ),
                                                round_constant(2),
                                            ),
                                            round_constant(3),
                                        ),
                                        round_constant(4),
                                    ),
                                    round_constant(5),
                                ),
                                round_constant(6),
                            ),
                            round_constant(7),
                        ),
                        round_constant(8),
                    ),
                    round_constant(9),
                ),
                round_constant(10),
            ),
            round_constant(11),
        );
        proof {
            reveal_with_fuel(ascon_permute_spec, 13);
        }
    }

    /// Perform permutation with 8 rounds.
    pub fn permute_8(&mut self)
        ensures
            final(self)@ == ascon_permute_spec(old(self)@, 4, 8),
    {
        self.x = round(
            round(
                round(
                    round(
                        round(
                            round(
                                round(round(self.x, round_constant(4)), round_constant(5)),
                                round_constant(6),
                            ),
                            round_constant(7),
                        ),
                        round_constant(8),
                    ),
                    round_constant(9),
                ),
                round_constant(10),
            ),
            round_constant(11),
        );
        proof {
            reveal_with_fuel(ascon_permute_spec, 9);
        }
    }

    /// Perform permutation with 6 rounds.
    pub fn permute_6(&mut self)
        ensures
            final(self)@ == ascon_permute_spec(old(self)@, 6, 6),
    {
        self.x = round(
            round(
                round(
                    round(round(round(self.x, round_constant(6)), round_constant(7)), round_constant(8)),
                    round_constant(9),
                ),
                round_constant(10),
            ),
            round_constant(11),
        );
        proof {
            reveal_with_fuel(ascon_permute_spec, 7);
        }
    }

    /// Perform permutation with 1 round.
    pub fn permute_1(&mut self)
        ensures
            final(self)@ == ascon_permute_spec(old(self)@, 11, 1),
    {
        self.x = round(self.x, round_constant(11));
        proof {
            reveal_with_fuel(ascon_permute_spec, 2);
        }
    }

    /// Perform a given number, up to twelve, of rounds: the last `rounds`
    /// entries of the schedule.
    pub fn permute_n(&mut self, rounds: usize)
        requires
            rounds <= 12,
        ensures
            final(self)@ == ascon_permute_spec(old(self)@, 12 - rounds, rounds as nat),
    {
        let ghost s0 = self@;
        let start = 12 - rounds;
        let mut i = start;
        while i < 12
            invariant
                start <= i <= 12,
                start == 12 - rounds,
                self@ == ascon_permute_spec(s0, start as int, (i - start) as nat),
            decreases 12 - i,
        {
            proof {
                lemma_ascon_permute_snoc(s0, start as int, (i - start) as nat);
            }
            let c = round_constant(i as u64);
            self.x = round(self.x, c);
            i += 1;
        }
    }

    /// Convert the state to its forty bytes, each word big-endian.
    pub fn as_bytes(&self) -> (r: [u8; 40])
        ensures
            r@ == bytes_of_words_spec(self@),
    {
        let mut bytes = [0u8; 40];
        u64_to_u8(&self.x, &mut bytes);
        bytes
    }

    /// Build a state from a slice of words; any length but five is
    /// rejected.
    pub fn try_from_words(value: &[u64]) -> (r: Result<State, ()>)
        ensures
            value@.len() == 5 ==> (r matches Ok(s) && s@ == value@),
            value@.len() != 5 ==> r is Err,
    {
        if value.len() == 5 {
            let s = State::new(value[0], value[1], value[2], value[3], value[4]);
            proof {
                assert(s@ =~= value@);
            }
            Ok(s)
        } else {
            Err(())
        }
    }

    /// Build a state from exactly five words.
    pub fn from_words(value: &[u64; 5]) -> (r: State)
        ensures
            r@ == value@,
    {
        State { x: *value }
    }

    /// Build a state from a slice of bytes, big-endian word by word; any
    /// length but forty is rejected.
    pub fn try_from_bytes(value: &[u8]) -> (r: Result<State, ()>)
        ensures
            value@.len() == 40 ==> (r matches Ok(s) && s@ == words_of_bytes_spec(value@, 5)),
            value@.len() != 40 ==> r is Err,
    {
        if value.len() == 40 {
            Ok(Self::from_bytes_inner(value))
        } else {
            Err(())
        }
    }

    /// Build a state from exactly forty bytes, big-endian word by word.
    pub fn from_bytes(value: &[u8; 40]) -> (r: State)
        ensures
            r@ == words_of_bytes_spec(value@, 5),
    {
        Self::from_bytes_inner(value.as_slice())
    }

    /// Parse forty big-endian bytes into the five words of a state.
    fn from_bytes_inner(value: &[u8]) -> (r: State)
        requires
            value@.len() == 40,
        ensures
            r@ == words_of_bytes_spec(value@, 5),
    {
        let mut x = [0u64; 5];
        u8_to_u64(value, &mut x);
        State { x }
    }

    /// The words of the state as a slice.
    pub fn as_ref(&self) -> (r: &[u64])
        ensures
            r@ == self@,
    {
        self.x.as_slice()
    }
}

} // verus!
