//! The `bar` S-box: a byte-local permutation of a 64-bit word.
//!
//! A field element is viewed as eight little-endian bytes; each byte b is
//! replaced by s(b) = rotl1(b xor (not rotl1(b) and rotl2(b) and rotl3(b))),
//! and the bytes are reassembled. An equivalent bit-parallel form applies
//! the three rotations across all eight bytes at once with fixed masks.
//! For the Goldilocks prime the map sends canonical residues to canonical
//! residues, so no reduction is ever needed.

use crate::field::{Fp, P};
use vstd::prelude::*;

verus! {

/// Left rotation of a byte by `k` positions, 0 < k < 8.
pub open spec fn rotl8(b: u8, k: u8) -> u8 {
    (b << k) | (b >> ((8 - k) as u8))
}

/// The single-byte S-box.
pub open spec fn s_box(b: u8) -> u8 {
    rotl8(b ^ (!rotl8(b, 1) & rotl8(b, 2) & rotl8(b, 3)), 1)
}

/// The S-box applied to each of the eight little-endian bytes of a word.
pub open spec fn sbox64(x: u64) -> u64 {
    (s_box((x & 0xff) as u8) as u64)
        | ((s_box(((x >> 8) & 0xff) as u8) as u64) << 8)
        | ((s_box(((x >> 16) & 0xff) as u8) as u64) << 16)
        | ((s_box(((x >> 24) & 0xff) as u8) as u64) << 24)
        | ((s_box(((x >> 32) & 0xff) as u8) as u64) << 32)
        | ((s_box(((x >> 40) & 0xff) as u8) as u64) << 40)
        | ((s_box(((x >> 48) & 0xff) as u8) as u64) << 48)
        | ((s_box(((x >> 56) & 0xff) as u8) as u64) << 56)
}

/// The bit-parallel form: the three byte rotations carried out across all
/// eight byte lanes at once with fixed 64-bit masks.
pub open spec fn sbox64_parallel(x: u64) -> u64 {
    let l1 = ((x & 0x8080808080808080) >> 7) | ((x & 0x7F7F7F7F7F7F7F7F) << 1);
    let l2 = ((x & 0xC0C0C0C0C0C0C0C0) >> 6) | ((x & 0x3F3F3F3F3F3F3F3F) << 2);
    let l3 = ((x & 0xE0E0E0E0E0E0E0E0) >> 5) | ((x & 0x1F1F1F1F1F1F1F1F) << 3);
    let y = x ^ (!l1 & l2 & l3);
    ((y & 0x8080808080808080) >> 7) | ((y & 0x7F7F7F7F7F7F7F7F) << 1)
}

/// The bytewise and the bit-parallel form agree on every 64-bit word.
pub proof fn lemma_sbox64_parallel(x: u64)
    ensures
        sbox64_parallel(x) == sbox64(x),
{
    assert(sbox64_parallel(x) == sbox64(x)) by (bit_vector);
}

/// Canonical residues map to canonical residues: the S-box output of a
/// word below p is again below p, so `bar` needs no reduction.
pub proof fn lemma_sbox64_canonical(x: u64)
    requires
        x < P,
    ensures
        sbox64(x) < P,
{
    assert(x < 0xFFFF_FFFF_0000_0001 ==> sbox64(x) < 0xFFFF_FFFF_0000_0001) by (bit_vector);
}

/// The S-box on a whole field element.
pub open spec fn bar_fp(f: Fp) -> Fp {
    Fp(sbox64(f.0))
}

/// The single-byte S-box is injective, hence a permutation of the bytes.
pub proof fn lemma_s_box_injective(a: u8, b: u8)
    requires
        s_box(a) == s_box(b),
    ensures
        a == b,
{
    assert(s_box(a) == s_box(b) ==> a == b) by (bit_vector);
}

/// The word S-box is injective, hence a permutation of the 64-bit words.
pub proof fn lemma_sbox64_injective(x: u64, y: u64)
    requires
        sbox64(x) == sbox64(y),
    ensures
        x == y,
{
    assert(sbox64(x) == sbox64(y) ==> x == y) by (bit_vector);
}

} // verus!
