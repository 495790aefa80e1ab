//! The Keccak-p permutation over 25 lanes, generic in the lane type.
//!
//! A state is 25 lanes addressed by `(x, y)` with `x, y` below five and
//! linear index `5 * y + x`.  One round applies theta, rho and pi (fused),
//! chi and iota; a permutation of `n` rounds replays the last `n` entries of
//! the full 24-entry round-constant schedule, as FIPS 202 prescribes for
//! Keccak-p.

use vstd::array::ArrayAdditionalExecFns;
use vstd::prelude::*;

verus! {

/// Number of lanes in a Keccak state.
pub const PLEN: usize = 25;

/// The 64-bit round constant of round `i` of Keccak-f[1600]; narrower lane
/// widths truncate it to their width.
pub open spec fn rc_spec(i: int) -> u64
    recommends
        0 <= i < 24,
{
    if i == 0 { 0x0000000000000001u64 }
    else if i == 1 { 0x0000000000008082u64 }
    else if i == 2 { 0x800000000000808au64 }
    else if i == 3 { 0x8000000080008000u64 }
    else if i == 4 { 0x000000000000808bu64 }
    else if i == 5 { 0x0000000080000001u64 }
    else if i == 6 { 0x8000000080008081u64 }
    else if i == 7 { 0x8000000000008009u64 }
    else if i == 8 { 0x000000000000008au64 }
    else if i == 9 { 0x0000000000000088u64 }
    else if i == 10 { 0x0000000080008009u64 }
    else if i == 11 { 0x000000008000000au64 }
    else if i == 12 { 0x000000008000808bu64 }
    else if i == 13 { 0x800000000000008bu64 }
    else if i == 14 { 0x8000000000008089u64 }
    else if i == 15 { 0x8000000000008003u64 }
    else if i == 16 { 0x8000000000008002u64 }
    else if i == 17 { 0x8000000000000080u64 }
    else if i == 18 { 0x000000000000800au64 }
    else if i == 19 { 0x800000008000000au64 }
    else if i == 20 { 0x8000000080008081u64 }
    else if i == 21 { 0x8000000000008080u64 }
    else if i == 22 { 0x0000000080000001u64 }
    else { 0x8000000080008008u64 }
}

/// Fetch round constant `i` of the full 24-round schedule.
pub fn round_constant_at(i: usize) -> (r: u64)
    requires
        i < 24,
    ensures
        r == rc_spec(i as int),
{
    if i == 0 { 0x0000000000000001u64 }
    else if i == 1 { 0x0000000000008082u64 }
    else if i == 2 { 0x800000000000808au64 }
    else if i == 3 { 0x8000000080008000u64 }
    else if i == 4 { 0x000000000000808bu64 }
    else if i == 5 { 0x0000000080000001u64 }
    else if i == 6 { 0x8000000080008081u64 }
    else if i == 7 { 0x8000000000008009u64 }
    else if i == 8 { 0x000000000000008au64 }
    else if i == 9 { 0x0000000000000088u64 }
    else if i == 10 { 0x0000000080008009u64 }
    else if i == 11 { 0x000000008000000au64 }
    else if i == 12 { 0x000000008000808bu64 }
    else if i == 13 { 0x800000000000008bu64 }
    else if i == 14 { 0x8000000000008089u64 }
    else if i == 15 { 0x8000000000008003u64 }
    else if i == 16 { 0x8000000000008002u64 }
    else if i == 17 { 0x8000000000000080u64 }
    else if i == 18 { 0x000000000000800au64 }
    else if i == 19 { 0x800000008000000au64 }
    else if i == 20 { 0x8000000080008081u64 }
    else if i == 21 { 0x8000000000008080u64 }
    else if i == 22 { 0x0000000080000001u64 }
    else { 0x8000000080008008u64 }
}

/// Rotation of a 64-bit word left by `n mod 64` bit positions.
pub open spec fn rot64_spec(x: u64, n: u32) -> u64 {
    if n % 64 == 0 {
        x
    } else {
        (x << ((n % 64) as u64)) | (x >> ((64 - n % 64) as u64))
    }
}

/// Rotate a 64-bit word left by `n mod 64` bit positions.
pub fn rotl64(x: u64, n: u32) -> (r: u64)
    ensures
        r == rot64_spec(x, n),
{
    let m: u64 = (n as u64) % 64;
    if m == 0 {
        x
    } else {
        (x << m) | (x >> (64 - m))
    }
}

/// A fixed-width word usable as one lane of a Keccak state: it carries the
/// bitwise algebra of the round function, the native round count of its
/// width, and the rule that truncates a 64-bit round constant to it.
pub trait LaneSize: Copy + Sized {
    /// Number of rounds of the full Keccak-f permutation at this width.
    spec fn round_count_spec() -> usize;

    /// Bitwise exclusive or.
    spec fn xor_spec(self, other: Self) -> Self;

    /// Bitwise conjunction.
    spec fn and_spec(self, other: Self) -> Self;

    /// Bitwise complement.
    spec fn not_spec(self) -> Self;

    /// Rotation left by `n` modulo the lane width.
    spec fn rotl_spec(self, n: u32) -> Self;

    /// The low-order bits of a 64-bit round constant, as wide as the lane.
    spec fn truncate_rc_spec(rc: u64) -> Self;

    /// The native round count lies between one and twenty-four.
    proof fn round_count_bounds()
        ensures
            0 < Self::round_count_spec() <= 24,
    ;

    /// Number of rounds of the full Keccak-f permutation at this width.
    fn keccak_f_round_count() -> (r: usize)
        ensures
            r == Self::round_count_spec(),
    ;

    /// Bitwise exclusive or.
    fn xor(self, other: Self) -> (r: Self)
        ensures
            r == self.xor_spec(other),
    ;

    /// Bitwise conjunction.
    fn and(self, other: Self) -> (r: Self)
        ensures
            r == self.and_spec(other),
    ;

    /// Bitwise complement.
    fn not(self) -> (r: Self)
        ensures
            r == self.not_spec(),
    ;

    /// Rotate left function.
    fn rotate_left(self, n: u32) -> (r: Self)
        requires
            n < 64,
        ensures
            r == self.rotl_spec(n),
    ;

    /// Truncate function for round constants.
    fn truncate_rc(rc: u64) -> (r: Self)
        ensures
            r == Self::truncate_rc_spec(rc),
    ;
}

/// Parity of column `x`: the exclusive or of the five lanes above each
/// other in that column.
pub open spec fn column_parity<L: LaneSize>(s: Seq<L>, x: int) -> L
    recommends
        s.len() == 25,
        0 <= x < 5,
{
    s[x].xor_spec(s[x + 5]).xor_spec(s[x + 10]).xor_spec(s[x + 15]).xor_spec(s[x + 20])
}

/// The theta adjustment of column `x`: parity of the column to its left,
/// xored with the parity of the column to its right rotated by one.
pub open spec fn theta_d<L: LaneSize>(s: Seq<L>, x: int) -> L
    recommends
        s.len() == 25,
        0 <= x < 5,
{
    column_parity(s, (x + 4) % 5).xor_spec(column_parity(s, (x + 1) % 5).rotl_spec(1))
}

/// Theta: every lane absorbs the adjustment of its column.
pub open spec fn theta_spec<L: LaneSize>(s: Seq<L>) -> Seq<L>
    recommends
        s.len() == 25,
{
    Seq::new(25, |i: int| s[i].xor_spec(theta_d(s, i % 5)))
}

/// Index of the lane that rho and pi move to position `j`.
pub open spec fn rho_pi_source(j: int) -> int {
    if j == 1 { 6 }
    else if j == 2 { 12 }
    else if j == 3 { 18 }
    else if j == 4 { 24 }
    else if j == 5 { 3 }
    else if j == 6 { 9 }
    else if j == 7 { 10 }
    else if j == 8 { 16 }
    else if j == 9 { 22 }
    else if j == 10 { 1 }
    else if j == 11 { 7 }
    else if j == 12 { 13 }
    else if j == 13 { 19 }
    else if j == 14 { 20 }
    else if j == 15 { 4 }
    else if j == 16 { 5 }
    else if j == 17 { 11 }
    else if j == 18 { 17 }
    else if j == 19 { 23 }
    else if j == 20 { 2 }
    else if j == 21 { 8 }
    else if j == 22 { 14 }
    else if j == 23 { 15 }
    else if j == 24 { 21 }
    else { 0 }
}

/// Rotation amount applied to the lane moved to position `j`.
pub open spec fn rho_pi_rotation(j: int) -> u32 {
    if j == 1 { 44 }
    else if j == 2 { 43 }
    else if j == 3 { 21 }
    else if j == 4 { 14 }
    else if j == 5 { 28 }
    else if j == 6 { 20 }
    else if j == 7 { 3 }
    else if j == 8 { 45 }
    else if j == 9 { 61 }
    else if j == 10 { 1 }
    else if j == 11 { 6 }
    else if j == 12 { 25 }
    else if j == 13 { 8 }
    else if j == 14 { 18 }
    else if j == 15 { 27 }
    else if j == 16 { 36 }
    else if j == 17 { 10 }
    else if j == 18 { 15 }
    else if j == 19 { 56 }
    else if j == 20 { 62 }
    else if j == 21 { 55 }
    else if j == 22 { 39 }
    else if j == 23 { 41 }
    else if j == 24 { 2 }
    else { 0 }
}

/// Rho and pi, fused: each lane moves to its new position and is rotated by
/// its fixed, position-dependent amount; lane zero stays put unrotated.
pub open spec fn rho_pi_spec<L: LaneSize>(s: Seq<L>) -> Seq<L>
    recommends
        s.len() == 25,
{
    Seq::new(
        25,
        |j: int|
            if j == 0 {
                s[0]
            } else {
                s[rho_pi_source(j)].rotl_spec(rho_pi_rotation(j))
            },
    )
}

/// Chi: each lane is xored with the conjunction of the complement of its
/// right neighbour in the row and the lane after that, over the row's values
/// before chi.
pub open spec fn chi_spec<L: LaneSize>(s: Seq<L>) -> Seq<L>
    recommends
        s.len() == 25,
{
    Seq::new(
        25,
        |i: int|
            s[i].xor_spec(
                s[5 * (i / 5) + (i % 5 + 1) % 5].not_spec().and_spec(
                    s[5 * (i / 5) + (i % 5 + 2) % 5],
                ),
            ),
    )
}

/// Iota: the round constant, truncated to the lane width, is xored into
/// lane `(0, 0)` only.
pub open spec fn iota_spec<L: LaneSize>(s: Seq<L>, rc: u64) -> Seq<L>
    recommends
        s.len() == 25,
{
    s.update(0, s[0].xor_spec(L::truncate_rc_spec(rc)))
}

/// One full round: theta, then rho and pi, then chi, then iota with the
/// given 64-bit round constant.
pub open spec fn round_spec<L: LaneSize>(s: Seq<L>, rc: u64) -> Seq<L>
    recommends
        s.len() == 25,
{
    iota_spec(chi_spec(rho_pi_spec(theta_spec(s))), rc)
}

/// `n` successive rounds whose constants are the schedule entries starting
/// at index `start`.
pub open spec fn rounds_spec<L: LaneSize>(s: Seq<L>, start: int, n: nat) -> Seq<L>
    decreases n,
{
    if n == 0 {
        s
    } else {
        rounds_spec::<L>(round_spec(s, rc_spec(start)), start + 1, (n - 1) as nat)
    }
}

/// The Keccak-p permutation with `round_count` rounds at lane type `L`: the
/// last `round_count` entries of the full schedule are replayed in order.
pub open spec fn keccak_p_spec<L: LaneSize>(s: Seq<L>, round_count: int) -> Seq<L>
    recommends
        s.len() == 25,
        0 <= round_count <= L::round_count_spec(),
{
    rounds_spec::<L>(s, L::round_count_spec() - round_count, round_count as nat)
}

impl LaneSize for u8 {
    open spec fn round_count_spec() -> usize {
        18
    }

    open spec fn xor_spec(self, other: Self) -> Self {
        self ^ other
    }

    open spec fn and_spec(self, other: Self) -> Self {
        self & other
    }

    open spec fn not_spec(self) -> Self {
        !self
    }

    open spec fn rotl_spec(self, n: u32) -> Self {
        if n % 8 == 0 {
            self
        } else {
            (self << ((n % 8) as u8)) | (self >> ((8 - n % 8) as u8))
        }
    }

    open spec fn truncate_rc_spec(rc: u64) -> Self {
        (rc & 0xff) as u8
    }

    proof fn round_count_bounds() {
    }

    fn keccak_f_round_count() -> usize {
        18
    }

    fn xor(self, other: Self) -> Self {
        self ^ other
    }

    fn and(self, other: Self) -> Self {
        self & other
    }

    fn not(self) -> Self {
        !self
    }

    fn rotate_left(self, n: u32) -> Self {
        let m: u8 = (n % 8) as u8;
        if m == 0 {
            self
        } else {
            (self << m) | (self >> (8 - m))
        }
    }

    fn truncate_rc(rc: u64) -> Self {
        (rc & 0xff) as u8
    }
}

impl LaneSize for u16 {
    open spec fn round_count_spec() -> usize {
        20
    }

    open spec fn xor_spec(self, other: Self) -> Self {
        self ^ other
    }

    open spec fn and_spec(self, other: Self) -> Self {
        self & other
    }

    open spec fn not_spec(self) -> Self {
        !self
    }

    open spec fn rotl_spec(self, n: u32) -> Self {
        if n % 16 == 0 {
            self
        } else {
            (self << ((n % 16) as u16)) | (self >> ((16 - n % 16) as u16))
        }
    }

    open spec fn truncate_rc_spec(rc: u64) -> Self {
        (rc & 0xffff) as u16
    }

    proof fn round_count_bounds() {
    }

    fn keccak_f_round_count() -> usize {
        20
    }

    fn xor(self, other: Self) -> Self {
        self ^ other
    }

    fn and(self, other: Self) -> Self {
        self & other
    }

    fn not(self) -> Self {
        !self
    }

    fn rotate_left(self, n: u32) -> Self {
        let m: u16 = (n % 16) as u16;
        if m == 0 {
            self
        } else {
            (self << m) | (self >> (16 - m))
        }
    }

    fn truncate_rc(rc: u64) -> Self {
        (rc & 0xffff) as u16
    }
}

impl LaneSize for u32 {
    open spec fn round_count_spec() -> usize {
        22
    }

    open spec fn xor_spec(self, other: Self) -> Self {
        self ^ other
    }

    open spec fn and_spec(self, other: Self) -> Self {
        self & other
    }

    open spec fn not_spec(self) -> Self {
        !self
    }

    open spec fn rotl_spec(self, n: u32) -> Self {
        if n % 32 == 0 {
            self
        } else {
            (self << (n % 32)) | (self >> (32 - n % 32))
        }
    }

    open spec fn truncate_rc_spec(rc: u64) -> Self {
        (rc & 0xffff_ffff) as u32
    }

    proof fn round_count_bounds() {
    }

    fn keccak_f_round_count() -> usize {
        22
    }

    fn xor(self, other: Self) -> Self {
        self ^ other
    }

    fn and(self, other: Self) -> Self {
        self & other
    }

    fn not(self) -> Self {
        !self
    }

    fn rotate_left(self, n: u32) -> Self {
        let m: u32 = n % 32;
        if m == 0 {
            self
        } else {
            (self << m) | (self >> (32 - m))
        }
    }

    fn truncate_rc(rc: u64) -> Self {
        (rc & 0xffff_ffff) as u32
    }
}

impl LaneSize for u64 {
    open spec fn round_count_spec() -> usize {
        24
    }

    open spec fn xor_spec(self, other: Self) -> Self {
        self ^ other
    }

    open spec fn and_spec(self, other: Self) -> Self {
        self & other
    }

    open spec fn not_spec(self) -> Self {
        !self
    }

    open spec fn rotl_spec(self, n: u32) -> Self {
        rot64_spec(self, n)
    }

    open spec fn truncate_rc_spec(rc: u64) -> Self {
        rc
    }

    proof fn round_count_bounds() {
    }

    fn keccak_f_round_count() -> usize {
        24
    }

    fn xor(self, other: Self) -> Self {
        self ^ other
    }

    fn and(self, other: Self) -> Self {
        self & other
    }

    fn not(self) -> Self {
        !self
    }

    fn rotate_left(self, n: u32) -> Self {
        let m: u64 = (n as u64) % 64;
        if m == 0 {
            self
        } else {
            (self << m) | (self >> (64 - m))
        }
    }

    fn truncate_rc(rc: u64) -> Self {
        rc
    }
}

/// One round of the permutation, fully unrolled over the 25 lanes.
fn keccak_round<L: LaneSize>(state: &mut [L; 25], rc: u64)
    ensures
        final(state)@ == round_spec::<L>(old(state)@, rc),
{
    let ghost s0 = state@;
    let v0 = state[0];
    let v1 = state[1];
    let v2 = state[2];
    let v3 = state[3];
    let v4 = state[4];
    let v5 = state[5];
    let v6 = state[6];
    let v7 = state[7];
    let v8 = state[8];
    let v9 = state[9];
    let v10 = state[10];
    let v11 = state[11];
    let v12 = state[12];
    let v13 = state[13];
    let v14 = state[14];
    let v15 = state[15];
    let v16 = state[16];
    let v17 = state[17];
    let v18 = state[18];
    let v19 = state[19];
    let v20 = state[20];
    let v21 = state[21];
    let v22 = state[22];
    let v23 = state[23];
    let v24 = state[24];

    // Theta
    let c0 = v0.xor(v5).xor(v10).xor(v15).xor(v20);
    let c1 = v1.xor(v6).xor(v11).xor(v16).xor(v21);
    let c2 = v2.xor(v7).xor(v12).xor(v17).xor(v22);
    let c3 = v3.xor(v8).xor(v13).xor(v18).xor(v23);
    let c4 = v4.xor(v9).xor(v14).xor(v19).xor(v24);
    let d0 = c4.xor(c1.rotate_left(1));
    let d1 = c0.xor(c2.rotate_left(1));
    let d2 = c1.xor(c3.rotate_left(1));
    let d3 = c2.xor(c4.rotate_left(1));
    let d4 = c3.xor(c0.rotate_left(1));
    let a0 = v0.xor(d0);
    let a1 = v1.xor(d1);
    let a2 = v2.xor(d2);
    let a3 = v3.xor(d3);
    let a4 = v4.xor(d4);
    let a5 = v5.xor(d0);
    let a6 = v6.xor(d1);
    let a7 = v7.xor(d2);
    let a8 = v8.xor(d3);
    let a9 = v9.xor(d4);
    let a10 = v10.xor(d0);
    let a11 = v11.xor(d1);
    let a12 = v12.xor(d2);
    let a13 = v13.xor(d3);
    let a14 = v14.xor(d4);
    let a15 = v15.xor(d0);
    let a16 = v16.xor(d1);
    let a17 = v17.xor(d2);
    let a18 = v18.xor(d3);
    let a19 = v19.xor(d4);
    let a20 = v20.xor(d0);
    let a21 = v21.xor(d1);
    let a22 = v22.xor(d2);
    let a23 = v23.xor(d3);
    let a24 = v24.xor(d4);
    let ghost t = seq![
        a0, a1, a2, a3, a4, a5, a6, a7, a8, a9, a10, a11, a12, a13, a14, a15, a16, a17, a18, a19,
        a20, a21, a22, a23, a24,
    ];
    proof {
        assert(t =~= theta_spec::<L>(s0));
    }

    // Rho and pi
    let b0 = a0;
    let b1 = a6.rotate_left(44);
    let b2 = a12.rotate_left(43);
    let b3 = a18.rotate_left(21);
    let b4 = a24.rotate_left(14);
    let b5 = a3.rotate_left(28);
    let b6 = a9.rotate_left(20);
    let b7 = a10.rotate_left(3);
    let b8 = a16.rotate_left(45);
    let b9 = a22.rotate_left(61);
    let b10 = a1.rotate_left(1);
    let b11 = a7.rotate_left(6);
    let b12 = a13.rotate_left(25);
    let b13 = a19.rotate_left(8);
    let b14 = a20.rotate_left(18);
    let b15 = a4.rotate_left(27);
    let b16 = a5.rotate_left(36);
    let b17 = a11.rotate_left(10);
    let b18 = a17.rotate_left(15);
    let b19 = a23.rotate_left(56);
    let b20 = a2.rotate_left(62);
    let b21 = a8.rotate_left(55);
    let b22 = a14.rotate_left(39);
    let b23 = a15.rotate_left(41);
    let b24 = a21.rotate_left(2);
    let ghost p = seq![
        b0, b1, b2, b3, b4, b5, b6, b7, b8, b9, b10, b11, b12, b13, b14, b15, b16, b17, b18, b19,
        b20, b21, b22, b23, b24,
    ];
    proof {
        assert(p =~= rho_pi_spec::<L>(t));
    }

    // Chi
    let e0 = b0.xor(b1.not().and(b2));
    let e1 = b1.xor(b2.not().and(b3));
    let e2 = b2.xor(b3.not().and(b4));
    let e3 = b3.xor(b4.not().and(b0));
    let e4 = b4.xor(b0.not().and(b1));
    let e5 = b5.xor(b6.not().and(b7));
    let e6 = b6.xor(b7.not().and(b8));
    let e7 = b7.xor(b8.not().and(b9));
    let e8 = b8.xor(b9.not().and(b5));
    let e9 = b9.xor(b5.not().and(b6));
    let e10 = b10.xor(b11.not().and(b12));
    let e11 = b11.xor(b12.not().and(b13));
    let e12 = b12.xor(b13.not().and(b14));
    let e13 = b13.xor(b14.not().and(b10));
    let e14 = b14.xor(b10.not().and(b11));
    let e15 = b15.xor(b16.not().and(b17));
    let e16 = b16.xor(b17.not().and(b18));
    let e17 = b17.xor(b18.not().and(b19));
    let e18 = b18.xor(b19.not().and(b15));
    let e19 = b19.xor(b15.not().and(b16));
    let e20 = b20.xor(b21.not().and(b22));
    let e21 = b21.xor(b22.not().and(b23));
    let e22 = b22.xor(b23.not().and(b24));
    let e23 = b23.xor(b24.not().and(b20));
    let e24 = b24.xor(b20.not().and(b21));
    let ghost h = seq![
        e0, e1, e2, e3, e4, e5, e6, e7, e8, e9, e10, e11, e12, e13, e14, e15, e16, e17, e18, e19,
        e20, e21, e22, e23, e24,
    ];
    proof {
        assert(h =~= chi_spec::<L>(p));
    }

    // Iota
    let e0 = e0.xor(L::truncate_rc(rc));

    state.set(0, e0);
    state.set(1, e1);
    state.set(2, e2);
    state.set(3, e3);
    state.set(4, e4);
    state.set(5, e5);
    state.set(6, e6);
    state.set(7, e7);
    state.set(8, e8);
    state.set(9, e9);
    state.set(10, e10);
    state.set(11, e11);
    state.set(12, e12);
    state.set(13, e13);
    state.set(14, e14);
    state.set(15, e15);
    state.set(16, e16);
    state.set(17, e17);
    state.set(18, e18);
    state.set(19, e19);
    state.set(20, e20);
    state.set(21, e21);
    state.set(22, e22);
    state.set(23, e23);
    state.set(24, e24);
    proof {
        assert(state@ =~= iota_spec::<L>(h, rc));
    }
}

/// How one round extends a run of rounds at its end.
proof fn lemma_rounds_spec_snoc<L: LaneSize>(s: Seq<L>, start: int, n: nat)
    ensures
        rounds_spec::<L>(s, start, n + 1) == round_spec::<L>(
            rounds_spec::<L>(s, start, n),
            rc_spec(start + n),
        ),
    decreases n,
{
    if n == 0 {
        assert(rounds_spec::<L>(round_spec(s, rc_spec(start)), start + 1, 0) == round_spec(
            s,
            rc_spec(start),
        ));
    } else {
        lemma_rounds_spec_snoc::<L>(round_spec(s, rc_spec(start)), start + 1, (n - 1) as nat);
    }
}

/// Generic Keccak-p permutation: apply the last `round_count` rounds of the
/// full schedule of lane type `L` to the state, in place.
pub fn keccak_p<L: LaneSize>(state: &mut [L; 25], round_count: usize)
    requires
        round_count <= L::round_count_spec(),
    ensures
        final(state)@ == keccak_p_spec::<L>(old(state)@, round_count as int),
{
    proof {
        L::round_count_bounds();
    }
    let full = L::keccak_f_round_count();
    let start = full - round_count;
    let ghost s0 = state@;
    let mut i: usize = 0;
    while i < round_count
        invariant
            i <= round_count,
            round_count <= L::round_count_spec(),
            L::round_count_spec() <= 24,
            start == L::round_count_spec() - round_count,
            state@ == rounds_spec::<L>(s0, start as int, i as nat),
        decreases round_count - i,
    {
        let rc = round_constant_at(start + i);
        proof {
            lemma_rounds_spec_snoc::<L>(s0, start as int, i as nat);
        }
        keccak_round(state, rc);
        i += 1;
    }
}

/// Keccak-p sponge function over 8-bit lanes.
pub fn p200(state: &mut [u8; 25], round_count: usize)
    requires
        round_count <= 18,
    ensures
        final(state)@ == keccak_p_spec::<u8>(old(state)@, round_count as int),
{
    keccak_p(state, round_count);
}

/// Keccak-f sponge function over 8-bit lanes: the native 18 rounds.
pub fn f200(state: &mut [u8; 25])
    ensures
        final(state)@ == keccak_p_spec::<u8>(old(state)@, 18),
{
    keccak_p(state, 18);
}

/// Keccak-p sponge function over 16-bit lanes.
pub fn p400(state: &mut [u16; 25], round_count: usize)
    requires
        round_count <= 20,
    ensures
        final(state)@ == keccak_p_spec::<u16>(old(state)@, round_count as int),
{
    keccak_p(state, round_count);
}

/// Keccak-f sponge function over 16-bit lanes: the native 20 rounds.
pub fn f400(state: &mut [u16; 25])
    ensures
        final(state)@ == keccak_p_spec::<u16>(old(state)@, 20),
{
    keccak_p(state, 20);
}

/// Keccak-p sponge function over 32-bit lanes.
pub fn p800(state: &mut [u32; 25], round_count: usize)
    requires
        round_count <= 22,
    ensures
        final(state)@ == keccak_p_spec::<u32>(old(state)@, round_count as int),
{
    keccak_p(state, round_count);
}

/// Keccak-f sponge function over 32-bit lanes: the native 22 rounds.
pub fn f800(state: &mut [u32; 25])
    ensures
        final(state)@ == keccak_p_spec::<u32>(old(state)@, 22),
{
    keccak_p(state, 22);
}

/// Keccak-p sponge function over 64-bit lanes.
pub fn p1600(state: &mut [u64; 25], round_count: usize)
    requires
        round_count <= 24,
    ensures
        final(state)@ == keccak_p_spec::<u64>(old(state)@, round_count as int),
{
    keccak_p(state, round_count);
}

/// Keccak-f sponge function over 64-bit lanes: the native 24 rounds.
pub fn f1600(state: &mut [u64; 25])
    ensures
        final(state)@ == keccak_p_spec::<u64>(old(state)@, 24),
{
    keccak_p(state, 24);
}

/// Determinism: the permutation is a function of the state and the round
/// count alone, so identical inputs always give identical outputs.
pub proof fn lemma_keccak_p_deterministic<L: LaneSize>(s1: Seq<L>, s2: Seq<L>, round_count: int)
    requires
        s1 == s2,
    ensures
        keccak_p_spec::<L>(s1, round_count) == keccak_p_spec::<L>(s2, round_count),
{
}

/// Truncation rule for 8-bit lanes: iota xors into lane zero exactly the
/// low-order byte of the 64-bit round constant.
pub proof fn lemma_iota_truncation_u8(s: Seq<u8>, rc: u64)
    requires
        s.len() == 25,
    ensures
        u8::truncate_rc_spec(rc) == (rc % 0x100) as u8,
        iota_spec::<u8>(s, rc)[0] == s[0] ^ ((rc % 0x100) as u8),
        forall|i: int| 0 < i < 25 ==> iota_spec::<u8>(s, rc)[i] == s[i],
{
    assert((rc & 0xff) as u8 == (rc % 0x100) as u8) by (bit_vector);
}

/// Truncation rule for 16-bit lanes: iota xors into lane zero exactly the
/// two low-order bytes of the 64-bit round constant.
pub proof fn lemma_iota_truncation_u16(s: Seq<u16>, rc: u64)
    requires
        s.len() == 25,
    ensures
        u16::truncate_rc_spec(rc) == (rc % 0x10000) as u16,
        iota_spec::<u16>(s, rc)[0] == s[0] ^ ((rc % 0x10000) as u16),
        forall|i: int| 0 < i < 25 ==> iota_spec::<u16>(s, rc)[i] == s[i],
{
    assert((rc & 0xffff) as u16 == (rc % 0x10000) as u16) by (bit_vector);
}

/// Truncation rule for 32-bit lanes: iota xors into lane zero exactly the
/// four low-order bytes of the 64-bit round constant.
pub proof fn lemma_iota_truncation_u32(s: Seq<u32>, rc: u64)
    requires
        s.len() == 25,
    ensures
        u32::truncate_rc_spec(rc) == (rc % 0x1_0000_0000) as u32,
        iota_spec::<u32>(s, rc)[0] == s[0] ^ ((rc % 0x1_0000_0000) as u32),
        forall|i: int| 0 < i < 25 ==> iota_spec::<u32>(s, rc)[i] == s[i],
{
    assert((rc & 0xffff_ffff) as u32 == (rc % 0x1_0000_0000) as u32) by (bit_vector);
}

} // verus!
