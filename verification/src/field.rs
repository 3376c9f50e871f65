//! Goldilocks prime-field arithmetic.
//!
//! A field element is a residue mod p = 2^64 - 2^32 + 1, held in canonical
//! form as a single 64-bit word in `[0, p)`. The operations below are the
//! only arithmetic the rest of the crate performs on field elements, and
//! each is proved against the mathematical residue it computes.

use crate::codec::{le_word, word_bytes};
use vstd::arithmetic::div_mod::{
    lemma_fundamental_div_mod, lemma_fundamental_div_mod_converse, lemma_mod_division_less_than_divisor,
    lemma_small_mod,
};
use vstd::prelude::*;

verus! {

/// The Goldilocks prime p = 2^64 - 2^32 + 1.
pub const P: u64 = 0xFFFF_FFFF_0000_0001;

/// A Goldilocks field element. The residue is canonical exactly when
/// `wf` holds; every constructor of this crate establishes it.
#[derive(Clone, Copy, PartialEq, Eq, Structural, Debug)]
#[verifier::ext_equal]
pub struct Fp(pub u64);

impl Fp {
    /// Canonical form: the residue lies in `[0, p)`.
    pub open spec fn wf(self) -> bool {
        self.0 < P
    }
}

/// The canonical residue of `a + b`.
pub open spec fn fadd(a: Fp, b: Fp) -> Fp {
    Fp((((a.0 as int) + (b.0 as int)) % (P as int)) as u64)
}

/// The canonical residue of `a - b`.
pub open spec fn fsub(a: Fp, b: Fp) -> Fp {
    Fp((((a.0 as int) - (b.0 as int)) % (P as int)) as u64)
}

/// The canonical residue of `a * b`.
pub open spec fn fmul(a: Fp, b: Fp) -> Fp {
    Fp((((a.0 as int) * (b.0 as int)) % (P as int)) as u64)
}

impl Fp {
    /// The additive identity.
    pub fn zero() -> (r: Fp)
        ensures
            r.0 == 0,
            r.wf(),
    {
        Fp(0)
    }

    /// The multiplicative identity.
    pub fn one() -> (r: Fp)
        ensures
            r.0 == 1,
            r.wf(),
    {
        Fp(1)
    }

    /// Field addition of canonical residues.
    pub fn add(self, other: Fp) -> (r: Fp)
        requires
            self.wf(),
            other.wf(),
        ensures
            r == fadd(self, other),
            r.wf(),
    {
        let s: u128 = (self.0 as u128) + (other.0 as u128);
        let p: u128 = P as u128;
        if s >= p {
            proof {
                lemma_fundamental_div_mod_converse(s as int, P as int, 1, s - P);
            }
            Fp((s - p) as u64)
        } else {
            proof {
                lemma_small_mod(s as nat, P as nat);
            }
            Fp(s as u64)
        }
    }

    /// Field subtraction of canonical residues.
    pub fn sub(self, other: Fp) -> (r: Fp)
        requires
            self.wf(),
            other.wf(),
        ensures
            r == fsub(self, other),
            r.wf(),
    {
        if self.0 >= other.0 {
            proof {
                lemma_small_mod((self.0 - other.0) as nat, P as nat);
            }
            Fp(self.0 - other.0)
        } else {
            proof {
                lemma_fundamental_div_mod_converse(
                    (self.0 as int) - (other.0 as int),
                    P as int,
                    -1,
                    (self.0 as int) - (other.0 as int) + (P as int),
                );
            }
            Fp(self.0 + (P - other.0))
        }
    }

    /// Field multiplication: the 128-bit product reduced to a canonical
    /// 64-bit residue.
    pub fn mul(self, other: Fp) -> (r: Fp)
        requires
            self.wf(),
            other.wf(),
        ensures
            r == fmul(self, other),
            r.wf(),
    {
        proof {
            assert((self.0 as int) * (other.0 as int) <= (P - 1) * (P - 1)) by (nonlinear_arith)
                requires
                    self.0 < P,
                    other.0 < P,
            ;
        }
        let prod: u128 = (self.0 as u128) * (other.0 as u128);
        let r: u128 = prod % (P as u128);
        Fp(r as u64)
    }

    /// Field squaring.
    pub fn square(self) -> (r: Fp)
        requires
            self.wf(),
        ensures
            r == fmul(self, self),
            r.wf(),
    {
        self.mul(self)
    }

    /// The canonical 64-bit encoding of the residue.
    pub fn to_canonical_u64(self) -> (r: u64)
        ensures
            r == self.0,
    {
        self.0
    }

    /// The element with canonical residue `v`.
    pub fn from_canonical_u64(v: u64) -> (r: Fp)
        requires
            v < P,
        ensures
            r == Fp(v),
            r.wf(),
    {
        Fp(v)
    }

    /// Rejection-sampling constructor: the little-endian word of the eight
    /// bytes is accepted exactly when it is already a canonical residue.
    pub fn from_random_bytes(bytes: &[u8]) -> (r: Option<Fp>)
        requires
            bytes@.len() == 8,
        ensures
            r == spec_from_random_bytes(bytes@),
            r matches Some(f) ==> f.wf(),
    {
        let w = (bytes[0] as u64) | ((bytes[1] as u64) << 8) | ((bytes[2] as u64) << 16) | ((
        bytes[3] as u64) << 24) | ((bytes[4] as u64) << 32) | ((bytes[5] as u64) << 40) | ((
        bytes[6] as u64) << 48) | ((bytes[7] as u64) << 56);
        if w < P {
            Some(Fp(w))
        } else {
            None
        }
    }

    /// The canonical little-endian 8-byte serialization of the residue.
    pub fn to_bytes_le(self) -> (r: Vec<u8>)
        ensures
            r@ == word_bytes(self.0),
            r@.len() == 8,
    {
        let mut out: Vec<u8> = Vec::new();
        crate::codec::push_word(&mut out, self.0);
        out
    }
}

/// Field addition of canonical residues cancels: adding the same element
/// to two residues gives equal sums only for equal residues.
pub proof fn lemma_fadd_cancel(a: Fp, b: Fp, c: Fp)
    requires
        a.wf(),
        b.wf(),
        fadd(a, c) == fadd(b, c),
    ensures
        a == b,
{
    let p = P as int;
    let x = (a.0 as int) + (c.0 as int);
    let y = (b.0 as int) + (c.0 as int);
    lemma_fundamental_div_mod(x, p);
    lemma_fundamental_div_mod(y, p);
    lemma_mod_division_less_than_divisor(x, p);
    lemma_mod_division_less_than_divisor(y, p);
    assert(x % p == y % p);
    let dx = x / p;
    let dy = y / p;
    assert(x - y == p * dx - p * dy);
    assert(p * dx - p * dy == p * (dx - dy)) by (nonlinear_arith);
    assert(dx == dy) by (nonlinear_arith)
        requires
            x - y == p * (dx - dy),
            -p < x - y < p,
            p >= 1,
    ;
    assert(a.0 == b.0);
    assert(a =~= b);
}

/// A field addition always yields a canonical residue.
pub proof fn lemma_fadd_wf(a: Fp, b: Fp)
    ensures
        fadd(a, b).wf(),
{
    lemma_mod_division_less_than_divisor((a.0 as int) + (b.0 as int), P as int);
}

/// A field multiplication always yields a canonical residue.
pub proof fn lemma_fmul_wf(a: Fp, b: Fp)
    ensures
        fmul(a, b).wf(),
{
    lemma_mod_division_less_than_divisor((a.0 as int) * (b.0 as int), P as int);
}

/// Every element of the sequence is canonical.
pub open spec fn all_wf(s: Seq<Fp>) -> bool {
    forall|i: int| 0 <= i < s.len() ==> (#[trigger] s[i]).wf()
}

/// What `Fp::from_random_bytes` returns: the little-endian word when it is
/// below p, and nothing otherwise.
pub open spec fn spec_from_random_bytes(bytes: Seq<u8>) -> Option<Fp> {
    if le_word(bytes[0], bytes[1], bytes[2], bytes[3], bytes[4], bytes[5], bytes[6], bytes[7])
        < P {
        Some(Fp(le_word(bytes[0], bytes[1], bytes[2], bytes[3], bytes[4], bytes[5], bytes[6], bytes[7])))
    } else {
        None
    }
}

} // verus!
