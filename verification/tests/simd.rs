use sponges::keccak::f1600;
use sponges::simd::{f1600x2, f1600x4, f1600x8, U64x2, U64x4, U64x8};

/// A small deterministic generator for the randomized lockstep trials.
struct XorShift(u64);

impl XorShift {
    fn next_u64(&mut self) -> u64 {
        let mut x = self.0;
        x ^= x << 13;
        x ^= x >> 7;
        x ^= x << 17;
        self.0 = x;
        x
    }
}

#[test]
fn test_f1600x2() {
    let mut rng = XorShift(0x9E3779B97F4A7C15);
    for _ in 0..100 {
        let mut buf = [U64x2::splat(0); 25];
        let mut buf2 = [0u64; 25];
        for j in 0..25 {
            buf2[j] = rng.next_u64();
            buf[j] = U64x2::splat(buf2[j]);
        }

        f1600(&mut buf2);
        f1600x2(&mut buf);

        for j in 0..25 {
            for l in 0..2 {
                assert_eq!(buf2[j], buf[j].extract(l));
            }
        }
    }
}

#[test]
fn test_f1600x4() {
    let mut rng = XorShift(0xD1B54A32D192ED03);
    for _ in 0..100 {
        let mut buf = [U64x4::splat(0); 25];
        let mut buf2 = [0u64; 25];
        for j in 0..25 {
            buf2[j] = rng.next_u64();
            buf[j] = U64x4::splat(buf2[j]);
        }

        f1600(&mut buf2);
        f1600x4(&mut buf);

        for j in 0..25 {
            for l in 0..4 {
                assert_eq!(buf2[j], buf[j].extract(l));
            }
        }
    }
}

#[test]
fn test_f1600x8() {
    let mut rng = XorShift(0x2545F4914F6CDD1D);
    for _ in 0..100 {
        let mut buf = [U64x8::splat(0); 25];
        let mut buf2 = [0u64; 25];
        for j in 0..25 {
            buf2[j] = rng.next_u64();
            buf[j] = U64x8::splat(buf2[j]);
        }

        f1600(&mut buf2);
        f1600x8(&mut buf);

        for j in 0..25 {
            for l in 0..8 {
                assert_eq!(buf2[j], buf[j].extract(l));
            }
        }
    }
}

/// Packs whose slots differ advance each slot independently.
#[test]
fn independent_slots() {
    let mut rng = XorShift(0x853C49E6748FEA9B);
    let mut pack = [U64x2::splat(0); 25];
    let mut left = [0u64; 25];
    let mut right = [0u64; 25];
    for j in 0..25 {
        left[j] = rng.next_u64();
        right[j] = rng.next_u64();
        pack[j] = U64x2 { l0: left[j], l1: right[j] };
    }

    f1600x2(&mut pack);
    f1600(&mut left);
    f1600(&mut right);

    for j in 0..25 {
        assert_eq!(pack[j].extract(0), left[j]);
        assert_eq!(pack[j].extract(1), right[j]);
    }
}
