//! Vector lanes: packs of two, four or eight independent 64-bit lanes that
//! move through the round function in lockstep, so one permutation call
//! advances that many independent sponge states.
//!
//! The laws `lemma_keccak_p_lanewise_x2`, `..._x4` and `..._x8` state the
//! correctness property of these packs: at every packed slot the result is
//! exactly the scalar 64-bit permutation of that slot's initial state.

use crate::keccak::{
    chi_spec, iota_spec, keccak_p, keccak_p_spec, rho_pi_spec, rot64_spec, round_spec, rounds_spec,
    theta_spec, LaneSize,
};
use vstd::prelude::*;

verus! {

/// A pack of two independent 64-bit lanes.
#[derive(Clone, Copy, PartialEq, Eq, Structural, Debug)]
pub struct U64x2 {
    pub l0: u64,
    pub l1: u64,
}

impl U64x2 {
    /// The 64-bit lane at packed slot `k`.
    pub open spec fn lane_spec(self, k: int) -> u64 {
        if k == 0 {
            self.l0
        } else {
            self.l1
        }
    }

    /// A pack whose slots all hold `v`.
    pub fn splat(v: u64) -> (r: Self)
        ensures
            forall|k: int| 0 <= k < 2 ==> r.lane_spec(k) == v,
    {
        U64x2 { l0: v, l1: v }
    }

    /// Extract the 64-bit lane at packed slot `k`.
    pub fn extract(self, k: usize) -> (r: u64)
        requires
            k < 2,
        ensures
            r == self.lane_spec(k as int),
    {
        if k == 0 {
            self.l0
        } else {
            self.l1
        }
    }
}

impl LaneSize for U64x2 {
    open spec fn round_count_spec() -> usize {
        24
    }

    open spec fn xor_spec(self, other: Self) -> Self {
        U64x2 { l0: self.l0 ^ other.l0, l1: self.l1 ^ other.l1 }
    }

    open spec fn and_spec(self, other: Self) -> Self {
        U64x2 { l0: self.l0 & other.l0, l1: self.l1 & other.l1 }
    }

    open spec fn not_spec(self) -> Self {
        U64x2 { l0: !self.l0, l1: !self.l1 }
    }

    open spec fn rotl_spec(self, n: u32) -> Self {
        U64x2 { l0: rot64_spec(self.l0, n), l1: rot64_spec(self.l1, n) }
    }

    open spec fn truncate_rc_spec(rc: u64) -> Self {
        U64x2 { l0: rc, l1: rc }
    }

    proof fn round_count_bounds() {
    }

    fn keccak_f_round_count() -> usize {
        24
    }

    fn xor(self, other: Self) -> Self {
        U64x2 { l0: self.l0 ^ other.l0, l1: self.l1 ^ other.l1 }
    }

    fn and(self, other: Self) -> Self {
        U64x2 { l0: self.l0 & other.l0, l1: self.l1 & other.l1 }
    }

    fn not(self) -> Self {
        U64x2 { l0: !self.l0, l1: !self.l1 }
    }

    fn rotate_left(self, n: u32) -> Self {
        U64x2 { l0: LaneSize::rotate_left(self.l0, n), l1: LaneSize::rotate_left(self.l1, n) }
    }

    fn truncate_rc(rc: u64) -> Self {
        U64x2 { l0: rc, l1: rc }
    }
}

/// Keccak-p over packs of two lanes.
pub fn p1600x2(state: &mut [U64x2; 25], round_count: usize)
    requires
        round_count <= 24,
    ensures
        final(state)@ == keccak_p_spec::<U64x2>(old(state)@, round_count as int),
{
    keccak_p(state, round_count);
}

/// Keccak-f over packs of two lanes: the full 24 rounds.
pub fn f1600x2(state: &mut [U64x2; 25])
    ensures
        final(state)@ == keccak_p_spec::<U64x2>(old(state)@, 24),
{
    keccak_p(state, 24);
}

/// Slot `k` of every pack of a two-wide state, as a scalar state.
pub open spec fn lane_seq_x2(s: Seq<U64x2>, k: int) -> Seq<u64> {
    Seq::new(s.len(), |i: int| s[i].lane_spec(k))
}

proof fn lemma_theta_lanewise_x2(s: Seq<U64x2>, k: int)
    requires
        s.len() == 25,
        0 <= k < 2,
    ensures
        lane_seq_x2(theta_spec(s), k) == theta_spec::<u64>(lane_seq_x2(s, k)),
{
    assert(lane_seq_x2(theta_spec(s), k) =~= theta_spec::<u64>(lane_seq_x2(s, k)));
}

proof fn lemma_rho_pi_lanewise_x2(s: Seq<U64x2>, k: int)
    requires
        s.len() == 25,
        0 <= k < 2,
    ensures
        lane_seq_x2(rho_pi_spec(s), k) == rho_pi_spec::<u64>(lane_seq_x2(s, k)),
{
    assert(lane_seq_x2(rho_pi_spec(s), k) =~= rho_pi_spec::<u64>(lane_seq_x2(s, k)));
}

proof fn lemma_chi_lanewise_x2(s: Seq<U64x2>, k: int)
    requires
        s.len() == 25,
        0 <= k < 2,
    ensures
        lane_seq_x2(chi_spec(s), k) == chi_spec::<u64>(lane_seq_x2(s, k)),
{
    assert(lane_seq_x2(chi_spec(s), k) =~= chi_spec::<u64>(lane_seq_x2(s, k)));
}

proof fn lemma_iota_lanewise_x2(s: Seq<U64x2>, rc: u64, k: int)
    requires
        s.len() == 25,
        0 <= k < 2,
    ensures
        lane_seq_x2(iota_spec(s, rc), k) == iota_spec::<u64>(lane_seq_x2(s, k), rc),
{
    assert(lane_seq_x2(iota_spec(s, rc), k) =~= iota_spec::<u64>(lane_seq_x2(s, k), rc));
}

proof fn lemma_round_lanewise_x2(s: Seq<U64x2>, rc: u64, k: int)
    requires
        s.len() == 25,
        0 <= k < 2,
    ensures
        lane_seq_x2(round_spec(s, rc), k) == round_spec::<u64>(lane_seq_x2(s, k), rc),
{
    lemma_theta_lanewise_x2(s, k);
    lemma_rho_pi_lanewise_x2(theta_spec(s), k);
    lemma_chi_lanewise_x2(rho_pi_spec(theta_spec(s)), k);
    lemma_iota_lanewise_x2(chi_spec(rho_pi_spec(theta_spec(s))), rc, k);
}

proof fn lemma_rounds_lanewise_x2(s: Seq<U64x2>, start: int, n: nat, k: int)
    requires
        s.len() == 25,
        0 <= k < 2,
    ensures
        lane_seq_x2(rounds_spec(s, start, n), k) == rounds_spec::<u64>(lane_seq_x2(s, k), start, n),
    decreases n,
{
    if n == 0 {
    } else {
        lemma_round_lanewise_x2(s, crate::keccak::rc_spec(start), k);
        lemma_rounds_lanewise_x2(
            round_spec(s, crate::keccak::rc_spec(start)),
            start + 1,
            (n - 1) as nat,
            k,
        );
    }
}

/// Lockstep law for two-wide packs: slot `k` of the packed permutation's
/// output is the scalar 64-bit permutation of slot `k` of its input.
pub proof fn lemma_keccak_p_lanewise_x2(s: Seq<U64x2>, round_count: int, k: int)
    requires
        s.len() == 25,
        0 <= round_count <= 24,
        0 <= k < 2,
    ensures
        lane_seq_x2(keccak_p_spec::<U64x2>(s, round_count), k) == keccak_p_spec::<u64>(
            lane_seq_x2(s, k),
            round_count,
        ),
{
    lemma_rounds_lanewise_x2(s, 24 - round_count, round_count as nat, k);
}

/// A pack of four independent 64-bit lanes.
#[derive(Clone, Copy, PartialEq, Eq, Structural, Debug)]
pub struct U64x4 {
    pub l0: u64,
    pub l1: u64,
    pub l2: u64,
    pub l3: u64,
}

impl U64x4 {
    /// The 64-bit lane at packed slot `k`.
    pub open spec fn lane_spec(self, k: int) -> u64 {
        if k == 0 {
            self.l0
        } else if k == 1 {
            self.l1
        } else if k == 2 {
            self.l2
        } else {
            self.l3
        }
    }

    /// A pack whose slots all hold `v`.
    pub fn splat(v: u64) -> (r: Self)
        ensures
            forall|k: int| 0 <= k < 4 ==> r.lane_spec(k) == v,
    {
        U64x4 { l0: v, l1: v, l2: v, l3: v }
    }

    /// Extract the 64-bit lane at packed slot `k`.
    pub fn extract(self, k: usize) -> (r: u64)
        requires
            k < 4,
        ensures
            r == self.lane_spec(k as int),
    {
        if k == 0 {
            self.l0
        } else if k == 1 {
            self.l1
        } else if k == 2 {
            self.l2
        } else {
            self.l3
        }
    }
}

impl LaneSize for U64x4 {
    open spec fn round_count_spec() -> usize {
        24
    }

    open spec fn xor_spec(self, other: Self) -> Self {
        U64x4 { l0: self.l0 ^ other.l0, l1: self.l1 ^ other.l1, l2: self.l2 ^ other.l2, l3: self.l3 ^ other.l3 }
    }

    open spec fn and_spec(self, other: Self) -> Self {
        U64x4 { l0: self.l0 & other.l0, l1: self.l1 & other.l1, l2: self.l2 & other.l2, l3: self.l3 & other.l3 }
    }

    open spec fn not_spec(self) -> Self {
        U64x4 { l0: !self.l0, l1: !self.l1, l2: !self.l2, l3: !self.l3 }
    }

    open spec fn rotl_spec(self, n: u32) -> Self {
        U64x4 { l0: rot64_spec(self.l0, n), l1: rot64_spec(self.l1, n), l2: rot64_spec(self.l2, n), l3: rot64_spec(self.l3, n) }
    }

    open spec fn truncate_rc_spec(rc: u64) -> Self {
        U64x4 { l0: rc, l1: rc, l2: rc, l3: rc }
    }

    proof fn round_count_bounds() {
    }

    fn keccak_f_round_count() -> usize {
        24
    }

    fn xor(self, other: Self) -> Self {
        U64x4 { l0: self.l0 ^ other.l0, l1: self.l1 ^ other.l1, l2: self.l2 ^ other.l2, l3: self.l3 ^ other.l3 }
    }

    fn and(self, other: Self) -> Self {
        U64x4 { l0: self.l0 & other.l0, l1: self.l1 & other.l1, l2: self.l2 & other.l2, l3: self.l3 & other.l3 }
    }

    fn not(self) -> Self {
        U64x4 { l0: !self.l0, l1: !self.l1, l2: !self.l2, l3: !self.l3 }
    }

    fn rotate_left(self, n: u32) -> Self {
        U64x4 { l0: LaneSize::rotate_left(self.l0, n), l1: LaneSize::rotate_left(self.l1, n), l2: LaneSize::rotate_left(self.l2, n), l3: LaneSize::rotate_left(self.l3, n) }
    }

    fn truncate_rc(rc: u64) -> Self {
        U64x4 { l0: rc, l1: rc, l2: rc, l3: rc }
    }
}

/// Keccak-p over packs of four lanes.
pub fn p1600x4(state: &mut [U64x4; 25], round_count: usize)
    requires
        round_count <= 24,
    ensures
        final(state)@ == keccak_p_spec::<U64x4>(old(state)@, round_count as int),
{
    keccak_p(state, round_count);
}

/// Keccak-f over packs of four lanes: the full 24 rounds.
pub fn f1600x4(state: &mut [U64x4; 25])
    ensures
        final(state)@ == keccak_p_spec::<U64x4>(old(state)@, 24),
{
    keccak_p(state, 24);
}

/// Slot `k` of every pack of a four-wide state, as a scalar state.
pub open spec fn lane_seq_x4(s: Seq<U64x4>, k: int) -> Seq<u64> {
    Seq::new(s.len(), |i: int| s[i].lane_spec(k))
}

proof fn lemma_theta_lanewise_x4(s: Seq<U64x4>, k: int)
    requires
        s.len() == 25,
        0 <= k < 4,
    ensures
        lane_seq_x4(theta_spec(s), k) == theta_spec::<u64>(lane_seq_x4(s, k)),
{
    assert(lane_seq_x4(theta_spec(s), k) =~= theta_spec::<u64>(lane_seq_x4(s, k)));
}

proof fn lemma_rho_pi_lanewise_x4(s: Seq<U64x4>, k: int)
    requires
        s.len() == 25,
        0 <= k < 4,
    ensures
        lane_seq_x4(rho_pi_spec(s), k) == rho_pi_spec::<u64>(lane_seq_x4(s, k)),
{
    assert(lane_seq_x4(rho_pi_spec(s), k) =~= rho_pi_spec::<u64>(lane_seq_x4(s, k)));
}

proof fn lemma_chi_lanewise_x4(s: Seq<U64x4>, k: int)
    requires
        s.len() == 25,
        0 <= k < 4,
    ensures
        lane_seq_x4(chi_spec(s), k) == chi_spec::<u64>(lane_seq_x4(s, k)),
{
    assert(lane_seq_x4(chi_spec(s), k) =~= chi_spec::<u64>(lane_seq_x4(s, k)));
}

proof fn lemma_iota_lanewise_x4(s: Seq<U64x4>, rc: u64, k: int)
    requires
        s.len() == 25,
        0 <= k < 4,
    ensures
        lane_seq_x4(iota_spec(s, rc), k) == iota_spec::<u64>(lane_seq_x4(s, k), rc),
{
    assert(lane_seq_x4(iota_spec(s, rc), k) =~= iota_spec::<u64>(lane_seq_x4(s, k), rc));
}

proof fn lemma_round_lanewise_x4(s: Seq<U64x4>, rc: u64, k: int)
    requires
        s.len() == 25,
        0 <= k < 4,
    ensures
        lane_seq_x4(round_spec(s, rc), k) == round_spec::<u64>(lane_seq_x4(s, k), rc),
{
    lemma_theta_lanewise_x4(s, k);
    lemma_rho_pi_lanewise_x4(theta_spec(s), k);
    lemma_chi_lanewise_x4(rho_pi_spec(theta_spec(s)), k);
    lemma_iota_lanewise_x4(chi_spec(rho_pi_spec(theta_spec(s))), rc, k);
}

proof fn lemma_rounds_lanewise_x4(s: Seq<U64x4>, start: int, n: nat, k: int)
    requires
        s.len() == 25,
        0 <= k < 4,
    ensures
        lane_seq_x4(rounds_spec(s, start, n), k) == rounds_spec::<u64>(lane_seq_x4(s, k), start, n),
    decreases n,
{
    if n == 0 {
    } else {
        lemma_round_lanewise_x4(s, crate::keccak::rc_spec(start), k);
        lemma_rounds_lanewise_x4(
            round_spec(s, crate::keccak::rc_spec(start)),
            start + 1,
            (n - 1) as nat,
            k,
        );
    }
}

/// Lockstep law for four-wide packs: slot `k` of the packed
/// permutation's output is the scalar 64-bit permutation of slot `k` of its
/// input.
pub proof fn lemma_keccak_p_lanewise_x4(s: Seq<U64x4>, round_count: int, k: int)
    requires
        s.len() == 25,
        0 <= round_count <= 24,
        0 <= k < 4,
    ensures
        lane_seq_x4(keccak_p_spec::<U64x4>(s, round_count), k) == keccak_p_spec::<u64>(
            lane_seq_x4(s, k),
            round_count,
        ),
{
    lemma_rounds_lanewise_x4(s, 24 - round_count, round_count as nat, k);
}

/// A pack of eight independent 64-bit lanes.
#[derive(Clone, Copy, PartialEq, Eq, Structural, Debug)]
pub struct U64x8 {
    pub l0: u64,
    pub l1: u64,
    pub l2: u64,
    pub l3: u64,
    pub l4: u64,
    pub l5: u64,
    pub l6: u64,
    pub l7: u64,
}

impl U64x8 {
    /// The 64-bit lane at packed slot `k`.
    pub open spec fn lane_spec(self, k: int) -> u64 {
        if k == 0 {
            self.l0
        } else if k == 1 {
            self.l1
        } else if k == 2 {
            self.l2
        } else if k == 3 {
            self.l3
        } else if k == 4 {
            self.l4
        } else if k == 5 {
            self.l5
        } else if k == 6 {
            self.l6
        } else {
            self.l7
        }
    }

    /// A pack whose slots all hold `v`.
    pub fn splat(v: u64) -> (r: Self)
        ensures
            forall|k: int| 0 <= k < 8 ==> r.lane_spec(k) == v,
    {
        U64x8 { l0: v, l1: v, l2: v, l3: v, l4: v, l5: v, l6: v, l7: v }
    }

    /// Extract the 64-bit lane at packed slot `k`.
    pub fn extract(self, k: usize) -> (r: u64)
        requires
            k < 8,
        ensures
            r == self.lane_spec(k as int),
    {
        if k == 0 {
            self.l0
        } else if k == 1 {
            self.l1
        } else if k == 2 {
            self.l2
        } else if k == 3 {
            self.l3
        } else if k == 4 {
            self.l4
        } else if k == 5 {
            self.l5
        } else if k == 6 {
            self.l6
        } else {
            self.l7
        }
    }
}

impl LaneSize for U64x8 {
    open spec fn round_count_spec() -> usize {
        24
    }

    open spec fn xor_spec(self, other: Self) -> Self {
        U64x8 { l0: self.l0 ^ other.l0, l1: self.l1 ^ other.l1, l2: self.l2 ^ other.l2, l3: self.l3 ^ other.l3, l4: self.l4 ^ other.l4, l5: self.l5 ^ other.l5, l6: self.l6 ^ other.l6, l7: self.l7 ^ other.l7 }
    }

    open spec fn and_spec(self, other: Self) -> Self {
        U64x8 { l0: self.l0 & other.l0, l1: self.l1 & other.l1, l2: self.l2 & other.l2, l3: self.l3 & other.l3, l4: self.l4 & other.l4, l5: self.l5 & other.l5, l6: self.l6 & other.l6, l7: self.l7 & other.l7 }
    }

    open spec fn not_spec(self) -> Self {
        U64x8 { l0: !self.l0, l1: !self.l1, l2: !self.l2, l3: !self.l3, l4: !self.l4, l5: !self.l5, l6: !self.l6, l7: !self.l7 }
    }

    open spec fn rotl_spec(self, n: u32) -> Self {
        U64x8 { l0: rot64_spec(self.l0, n), l1: rot64_spec(self.l1, n), l2: rot64_spec(self.l2, n), l3: rot64_spec(self.l3, n), l4: rot64_spec(self.l4, n), l5: rot64_spec(self.l5, n), l6: rot64_spec(self.l6, n), l7: rot64_spec(self.l7, n) }
    }

    open spec fn truncate_rc_spec(rc: u64) -> Self {
        U64x8 { l0: rc, l1: rc, l2: rc, l3: rc, l4: rc, l5: rc, l6: rc, l7: rc }
    }

    proof fn round_count_bounds() {
    }

    fn keccak_f_round_count() -> usize {
        24
    }

    fn xor(self, other: Self) -> Self {
        U64x8 { l0: self.l0 ^ other.l0, l1: self.l1 ^ other.l1, l2: self.l2 ^ other.l2, l3: self.l3 ^ other.l3, l4: self.l4 ^ other.l4, l5: self.l5 ^ other.l5, l6: self.l6 ^ other.l6, l7: self.l7 ^ other.l7 }
    }

    fn and(self, other: Self) -> Self {
        U64x8 { l0: self.l0 & other.l0, l1: self.l1 & other.l1, l2: self.l2 & other.l2, l3: self.l3 & other.l3, l4: self.l4 & other.l4, l5: self.l5 & other.l5, l6: self.l6 & other.l6, l7: self.l7 & other.l7 }
    }

    fn not(self) -> Self {
        U64x8 { l0: !self.l0, l1: !self.l1, l2: !self.l2, l3: !self.l3, l4: !self.l4, l5: !self.l5, l6: !self.l6, l7: !self.l7 }
    }

    fn rotate_left(self, n: u32) -> Self {
        U64x8 { l0: LaneSize::rotate_left(self.l0, n), l1: LaneSize::rotate_left(self.l1, n), l2: LaneSize::rotate_left(self.l2, n), l3: LaneSize::rotate_left(self.l3, n), l4: LaneSize::rotate_left(self.l4, n), l5: LaneSize::rotate_left(self.l5, n), l6: LaneSize::rotate_left(self.l6, n), l7: LaneSize::rotate_left(self.l7, n) }
    }

    fn truncate_rc(rc: u64) -> Self {
        U64x8 { l0: rc, l1: rc, l2: rc, l3: rc, l4: rc, l5: rc, l6: rc, l7: rc }
    }
}

/// Keccak-p over packs of eight lanes.
pub fn p1600x8(state: &mut [U64x8; 25], round_count: usize)
    requires
        round_count <= 24,
    ensures
        final(state)@ == keccak_p_spec::<U64x8>(old(state)@, round_count as int),
{
    keccak_p(state, round_count);
}

/// Keccak-f over packs of eight lanes: the full 24 rounds.
pub fn f1600x8(state: &mut [U64x8; 25])
    ensures
        final(state)@ == keccak_p_spec::<U64x8>(old(state)@, 24),
{
    keccak_p(state, 24);
}

/// Slot `k` of every pack of a eight-wide state, as a scalar state.
pub open spec fn lane_seq_x8(s: Seq<U64x8>, k: int) -> Seq<u64> {
    Seq::new(s.len(), |i: int| s[i].lane_spec(k))
}

proof fn lemma_theta_lanewise_x8(s: Seq<U64x8>, k: int)
    requires
        s.len() == 25,
        0 <= k < 8,
    ensures
        lane_seq_x8(theta_spec(s), k) == theta_spec::<u64>(lane_seq_x8(s, k)),
{
    assert(lane_seq_x8(theta_spec(s), k) =~= theta_spec::<u64>(lane_seq_x8(s, k)));
}

proof fn lemma_rho_pi_lanewise_x8(s: Seq<U64x8>, k: int)
    requires
        s.len() == 25,
        0 <= k < 8,
    ensures
        lane_seq_x8(rho_pi_spec(s), k) == rho_pi_spec::<u64>(lane_seq_x8(s, k)),
{
    assert(lane_seq_x8(rho_pi_spec(s), k) =~= rho_pi_spec::<u64>(lane_seq_x8(s, k)));
}

proof fn lemma_chi_lanewise_x8(s: Seq<U64x8>, k: int)
    requires
        s.len() == 25,
        0 <= k < 8,
    ensures
        lane_seq_x8(chi_spec(s), k) == chi_spec::<u64>(lane_seq_x8(s, k)),
{
    assert(lane_seq_x8(chi_spec(s), k) =~= chi_spec::<u64>(lane_seq_x8(s, k)));
}

proof fn lemma_iota_lanewise_x8(s: Seq<U64x8>, rc: u64, k: int)
    requires
        s.len() == 25,
        0 <= k < 8,
    ensures
        lane_seq_x8(iota_spec(s, rc), k) == iota_spec::<u64>(lane_seq_x8(s, k), rc),
{
    assert(lane_seq_x8(iota_spec(s, rc), k) =~= iota_spec::<u64>(lane_seq_x8(s, k), rc));
}

proof fn lemma_round_lanewise_x8(s: Seq<U64x8>, rc: u64, k: int)
    requires
        s.len() == 25,
        0 <= k < 8,
    ensures
        lane_seq_x8(round_spec(s, rc), k) == round_spec::<u64>(lane_seq_x8(s, k), rc),
{
    lemma_theta_lanewise_x8(s, k);
    lemma_rho_pi_lanewise_x8(theta_spec(s), k);
    lemma_chi_lanewise_x8(rho_pi_spec(theta_spec(s)), k);
    lemma_iota_lanewise_x8(chi_spec(rho_pi_spec(theta_spec(s))), rc, k);
}

proof fn lemma_rounds_lanewise_x8(s: Seq<U64x8>, start: int, n: nat, k: int)
    requires
        s.len() == 25,
        0 <= k < 8,
    ensures
        lane_seq_x8(rounds_spec(s, start, n), k) == rounds_spec::<u64>(lane_seq_x8(s, k), start, n),
    decreases n,
{
    if n == 0 {
    } else {
        lemma_round_lanewise_x8(s, crate::keccak::rc_spec(start), k);
        lemma_rounds_lanewise_x8(
            round_spec(s, crate::keccak::rc_spec(start)),
            start + 1,
            (n - 1) as nat,
            k,
        );
    }
}

/// Lockstep law for eight-wide packs: slot `k` of the packed
/// permutation's output is the scalar 64-bit permutation of slot `k` of its
/// input.
pub proof fn lemma_keccak_p_lanewise_x8(s: Seq<U64x8>, round_count: int, k: int)
    requires
        s.len() == 25,
        0 <= round_count <= 24,
        0 <= k < 8,
    ensures
        lane_seq_x8(keccak_p_spec::<U64x8>(s, round_count), k) == keccak_p_spec::<u64>(
            lane_seq_x8(s, k),
            round_count,
        ),
{
    lemma_rounds_lanewise_x8(s, 24 - round_count, round_count as nat, k);
}

} // verus!
