//! Little-endian byte codecs for the 64-bit and 32-bit words that appear
//! in field-element serialization, parameter serialization, and
//! round-constant derivation.

use vstd::prelude::*;

verus! {

/// The 64-bit word with the given little-endian bytes.
pub open spec fn le_word(b0: u8, b1: u8, b2: u8, b3: u8, b4: u8, b5: u8, b6: u8, b7: u8) -> u64 {
    (b0 as u64) | ((b1 as u64) << 8) | ((b2 as u64) << 16) | ((b3 as u64) << 24) | ((b4 as u64)
        << 32) | ((b5 as u64) << 40) | ((b6 as u64) << 48) | ((b7 as u64) << 56)
}

/// The little-endian bytes of a 64-bit word.
pub open spec fn word_bytes(v: u64) -> Seq<u8> {
    seq![
        (v & 0xff) as u8,
        ((v >> 8) & 0xff) as u8,
        ((v >> 16) & 0xff) as u8,
        ((v >> 24) & 0xff) as u8,
        ((v >> 32) & 0xff) as u8,
        ((v >> 40) & 0xff) as u8,
        ((v >> 48) & 0xff) as u8,
        ((v >> 56) & 0xff) as u8,
    ]
}

/// The 32-bit word with the given little-endian bytes.
pub open spec fn le_word32(b0: u8, b1: u8, b2: u8, b3: u8) -> u32 {
    (b0 as u32) | ((b1 as u32) << 8) | ((b2 as u32) << 16) | ((b3 as u32) << 24)
}

/// The little-endian bytes of a 32-bit word.
pub open spec fn word32_bytes(v: u32) -> Seq<u8> {
    seq![(v & 0xff) as u8, ((v >> 8) & 0xff) as u8, ((v >> 16) & 0xff) as u8, ((v >> 24) & 0xff) as u8]
}

/// Encoding a 64-bit word and reading it back yields the word.
pub proof fn lemma_word_roundtrip(v: u64)
    ensures
        le_word(
            word_bytes(v)[0],
            word_bytes(v)[1],
            word_bytes(v)[2],
            word_bytes(v)[3],
            word_bytes(v)[4],
            word_bytes(v)[5],
            word_bytes(v)[6],
            word_bytes(v)[7],
        ) == v,
{
    assert(le_word(
        (v & 0xff) as u8,
        ((v >> 8) & 0xff) as u8,
        ((v >> 16) & 0xff) as u8,
        ((v >> 24) & 0xff) as u8,
        ((v >> 32) & 0xff) as u8,
        ((v >> 40) & 0xff) as u8,
        ((v >> 48) & 0xff) as u8,
        ((v >> 56) & 0xff) as u8,
    ) == v) by (bit_vector);
}

/// Encoding a 32-bit word and reading it back yields the word.
pub proof fn lemma_word32_roundtrip(v: u32)
    ensures
        le_word32(word32_bytes(v)[0], word32_bytes(v)[1], word32_bytes(v)[2], word32_bytes(v)[3])
            == v,
{
    assert(le_word32(
        (v & 0xff) as u8,
        ((v >> 8) & 0xff) as u8,
        ((v >> 16) & 0xff) as u8,
        ((v >> 24) & 0xff) as u8,
    ) == v) by (bit_vector);
}

/// Reads the 64-bit little-endian word at byte offset `off`.
pub fn read_word(bytes: &Vec<u8>, off: usize) -> (r: u64)
    requires
        off + 8 <= bytes@.len(),
    ensures
        r == le_word(
            bytes@[off as int],
            bytes@[off as int + 1],
            bytes@[off as int + 2],
            bytes@[off as int + 3],
            bytes@[off as int + 4],
            bytes@[off as int + 5],
            bytes@[off as int + 6],
            bytes@[off as int + 7],
        ),
{
    let n = bytes.len();
    proof {
        assert(off + 8 <= n);
    }
    (bytes[off] as u64) | ((bytes[off + 1] as u64) << 8) | ((bytes[off + 2] as u64) << 16) | ((
    bytes[off + 3] as u64) << 24) | ((bytes[off + 4] as u64) << 32) | ((bytes[off + 5] as u64)
        << 40) | ((bytes[off + 6] as u64) << 48) | ((bytes[off + 7] as u64) << 56)
}

/// Reads the 32-bit little-endian word at byte offset `off`.
pub fn read_word32(bytes: &Vec<u8>, off: usize) -> (r: u32)
    requires
        off + 4 <= bytes@.len(),
    ensures
        r == le_word32(
            bytes@[off as int],
            bytes@[off as int + 1],
            bytes@[off as int + 2],
            bytes@[off as int + 3],
        ),
{
    let n = bytes.len();
    proof {
        assert(off + 4 <= n);
    }
    (bytes[off] as u32) | ((bytes[off + 1] as u32) << 8) | ((bytes[off + 2] as u32) << 16) | ((
    bytes[off + 3] as u32) << 24)
}

/// Appends the little-endian bytes of a 64-bit word.
pub fn push_word(bytes: &mut Vec<u8>, v: u64)
    ensures
        final(bytes)@ == old(bytes)@ + word_bytes(v),
{
    bytes.push((v & 0xff) as u8);
    bytes.push(((v >> 8) & 0xff) as u8);
    bytes.push(((v >> 16) & 0xff) as u8);
    bytes.push(((v >> 24) & 0xff) as u8);
    bytes.push(((v >> 32) & 0xff) as u8);
    bytes.push(((v >> 40) & 0xff) as u8);
    bytes.push(((v >> 48) & 0xff) as u8);
    bytes.push(((v >> 56) & 0xff) as u8);
    proof {
        assert(bytes@ =~= old(bytes)@ + word_bytes(v));
    }
}

/// Appends the little-endian bytes of a 32-bit word.
pub fn push_word32(bytes: &mut Vec<u8>, v: u32)
    ensures
        final(bytes)@ == old(bytes)@ + word32_bytes(v),
{
    bytes.push((v & 0xff) as u8);
    bytes.push(((v >> 8) & 0xff) as u8);
    bytes.push(((v >> 16) & 0xff) as u8);
    bytes.push(((v >> 24) & 0xff) as u8);
    proof {
        assert(bytes@ =~= old(bytes)@ + word32_bytes(v));
    }
}

} // verus!
