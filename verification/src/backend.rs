//! Backend selection for the 64-bit-lane permutation.
//!
//! A caller asks once for a permutation bound to a round count and then
//! invokes it repeatedly.  Selection is a pure choice, never a fallible
//! operation: the portable implementation is always correct and always
//! available.  Hardware kernels are unchecked, architecture-specific code
//! that this library cannot hold; a layer above may route around the
//! portable backend, gated by its own capability probe, but every backend
//! must agree bit for bit with `keccak_p_spec`.

use crate::keccak::{keccak_p, keccak_p_spec};
use vstd::prelude::*;

verus! {

/// A permutation function bound to a backend and a round count by
/// `dispatch_permutation`.
pub struct PermutationFn {
    rounds: usize,
}

impl PermutationFn {
    /// The round count the function was bound to.
    pub closed spec fn rounds_spec(&self) -> usize {
        self.rounds
    }

    /// The bound round count lies between one and twenty-four.
    pub closed spec fn wf(&self) -> bool {
        1 <= self.rounds <= 24
    }

    /// The round count the function was bound to.
    pub fn rounds(&self) -> (r: usize)
        ensures
            r == self.rounds_spec(),
    {
        self.rounds
    }

    /// Apply the bound permutation to one 25-lane state, in place.
    pub fn call(&self, state: &mut [u64; 25])
        requires
            self.wf(),
        ensures
            final(state)@ == keccak_p_spec::<u64>(old(state)@, self.rounds_spec() as int),
    {
        keccak_p(state, self.rounds);
    }
}

/// Pick the backend for 64-bit lanes and bind it to `rounds` rounds.  The
/// portable path is always available, so dispatch never fails; a round
/// count outside one to twenty-four is a programming error, not a
/// recoverable condition.
pub fn dispatch_permutation(rounds: usize) -> (f: PermutationFn)
    requires
        1 <= rounds <= 24,
    ensures
        f.wf(),
        f.rounds_spec() == rounds,
{
    PermutationFn { rounds }
}

/// Trait implemented by a Keccak backend: one call advances a fixed number
/// of independent 25-lane states in lockstep, and every backend computes
/// exactly the permutation `keccak_p_spec` describes.
pub trait ParBackend {
    /// Degree of parallelism supported by the backend.
    spec fn par_size_spec() -> usize;

    /// Every backend advances at least one state per call.
    proof fn par_size_bounds()
        ensures
            Self::par_size_spec() >= 1,
    ;

    /// Degree of parallelism supported by the backend.
    fn par_size() -> (r: usize)
        ensures
            r == Self::par_size_spec(),
    ;

    /// Apply `p1600` with the given round count to the parallel state.
    fn par_p1600(state: &mut Vec<[u64; 25]>, round_count: usize)
        requires
            old(state).len() == Self::par_size_spec(),
            round_count <= 24,
        ensures
            final(state).len() == old(state).len(),
            forall|i: int|
                0 <= i < old(state)@.len() ==> #[trigger] final(state)@[i]@ == keccak_p_spec::<
                    u64,
                >(old(state)@[i]@, round_count as int),
    ;

    /// Apply `f1600`, the full 24 rounds, to the parallel state.
    fn par_f1600(state: &mut Vec<[u64; 25]>)
        requires
            old(state).len() == Self::par_size_spec(),
        ensures
            final(state).len() == old(state).len(),
            forall|i: int|
                0 <= i < old(state)@.len() ==> #[trigger] final(state)@[i]@ == keccak_p_spec::<
                    u64,
                >(old(state)@[i]@, 24),
    {
        Self::par_p1600(state, 24);
    }
}

/// The portable software backend: it advances one state per call.
pub struct SoftBackend;

impl ParBackend for SoftBackend {
    open spec fn par_size_spec() -> usize {
        1
    }

    proof fn par_size_bounds() {
    }

    fn par_size() -> usize {
        1
    }

    fn par_p1600(state: &mut Vec<[u64; 25]>, round_count: usize) {
        let mut lanes = state[0];
        keccak_p(&mut lanes, round_count);
        state[0] = lanes;
    }
}

/// How many independent states the selected backend advances per call.
pub fn parallel_degree() -> (r: usize)
    ensures
        r == SoftBackend::par_size_spec(),
{
    SoftBackend::par_size()
}

/// Trait used to define a closure which operates over Keccak backends: the
/// selection layer hands the chosen backend to `call_once` as a type
/// argument.
pub trait BackendClosure: Sized {
    /// Execute the closure with the provided backend.
    fn call_once<B: ParBackend>(self);
}

} // verus!
