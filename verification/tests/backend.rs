use sponges::backend::{dispatch_permutation, parallel_degree, ParBackend, SoftBackend};
use sponges::keccak::p1600;

/// Dispatch succeeds and returns a usable function for every round count
/// from one to twenty-four, and the returned function agrees with the
/// direct permutation call.
#[test]
fn dispatch_covers_every_round_count() {
    let base: [u64; 25] = {
        let mut s = [0u64; 25];
        for i in 0..25 {
            s[i] = (i as u64 + 1) * 0x0123456789ABCDEF;
        }
        s
    };
    for r in 1..=24 {
        let f = dispatch_permutation(r);
        assert_eq!(f.rounds(), r);
        let mut via_dispatch = base;
        f.call(&mut via_dispatch);
        let mut direct = base;
        p1600(&mut direct, r);
        assert_eq!(via_dispatch, direct);
    }
}

/// The same dispatched function applied twice to byte-identical inputs
/// gives byte-identical outputs, across repeated dispatches.
#[test]
fn dispatch_is_deterministic() {
    let mut input = [0u64; 25];
    for i in 0..25 {
        input[i] = 0x5DEECE66D + (i as u64) * 0xB;
    }
    let f = dispatch_permutation(12);
    let g = dispatch_permutation(12);
    let mut a = input;
    let mut b = input;
    f.call(&mut a);
    g.call(&mut b);
    assert_eq!(a, b);
    let mut c = input;
    f.call(&mut c);
    assert_eq!(a, c);
}

#[test]
fn software_backend_parallel_degree() {
    assert_eq!(parallel_degree(), 1);
    assert_eq!(SoftBackend::par_size(), 1);
}

#[test]
fn software_backend_par_calls() {
    let mut single = [0u64; 25];
    for i in 0..25 {
        single[i] = (i as u64) << 32 | 0xABCD;
    }
    let mut expected = single;
    p1600(&mut expected, 24);

    let mut states = vec![single];
    SoftBackend::par_f1600(&mut states);
    assert_eq!(states[0], expected);

    let mut states = vec![single];
    SoftBackend::par_p1600(&mut states, 24);
    assert_eq!(states[0], expected);
}
