//! Sponge permutation primitives: the Keccak-p family over several lane
//! widths with a software backend and dispatch layer, the bash-f sponge of
//! STB 34.101.77, and the Ascon permutation.

pub mod aead;
pub mod ascon;
pub mod backend;
pub mod bash;
pub mod belt;
pub mod keccak;
pub mod ops;
pub mod simd;
pub mod util;
