//! Monolith hash construction over the Goldilocks prime field
//! (p = 2^64 - 2^32 + 1): the permutation, a duplex sponge, a
//! fixed-input collision-resistant hash, and a two-to-one
//! compression function.

pub mod codec;
pub mod crh;
pub mod field;
pub mod mds;
pub mod mds_inv;
pub mod params;
pub mod permute;
pub mod sbox;
pub mod serialize;
pub mod sponge;
