//! Circulant MDS linear layers.
//!
//! For each supported width t a fixed t-by-t circulant matrix M over the
//! Goldilocks field is given by a single generator row r: row i of M is the
//! right-cyclic shift of row i-1, so M[i][j] = r[(j - i) mod t]. Two
//! interchangeable evaluators are provided: a direct inner-product
//! evaluator over field operations, and a u128-staged evaluator that
//! accumulates the whole inner product without intermediate reduction and
//! reduces once at the end. Both are proved against the same inner-product
//! specification, so they agree on every input.

use crate::field::{fadd, Fp, P};
use vstd::arithmetic::div_mod::{lemma_add_mod_noop, lemma_mod_add_multiples_vanish};
use vstd::prelude::*;

verus! {

/// Generator row of the width-12 circulant matrix.
pub open spec fn row12() -> Seq<u64> {
    seq![7u64, 23, 8, 26, 13, 10, 9, 7, 6, 22, 21, 8]
}

/// Generator row of the width-8 circulant matrix.
pub open spec fn row8() -> Seq<u64> {
    seq![23u64, 8, 13, 10, 7, 6, 21, 8]
}

/// The matrix coefficient in row `i`, column `j`: M[i][j] = r[(j - i) mod t].
pub open spec fn mds_coeff(row: Seq<u64>, i: int, j: int) -> u64 {
    row[(j - i) % (row.len() as int)]
}

/// The inner product of row `i` of M with the first `n` lanes of `x`,
/// as an unreduced integer.
pub open spec fn mds_dot(row: Seq<u64>, x: Seq<Fp>, i: int, n: int) -> int
    decreases n,
{
    if n <= 0 {
        0
    } else {
        mds_dot(row, x, i, n - 1) + mds_coeff(row, i, n - 1) * x[n - 1].0
    }
}

/// Lane `i` of M*x, reduced to canonical form.
pub open spec fn mds_entry(row: Seq<u64>, x: Seq<Fp>, i: int) -> Fp {
    Fp((mds_dot(row, x, i, x.len() as int) % (P as int)) as u64)
}

/// M*x.
pub open spec fn mds_apply(row: Seq<u64>, x: Seq<Fp>) -> Seq<Fp> {
    Seq::new(x.len(), |i| mds_entry(row, x, i))
}

/// M*x + rc, lane-wise.
pub open spec fn mds_apply_rc(row: Seq<u64>, x: Seq<Fp>, rc: Seq<Fp>) -> Seq<Fp> {
    Seq::new(x.len(), |i| fadd(mds_entry(row, x, i), rc[i]))
}

/// A generator row is usable when it is short and its coefficients are
/// small; both fixed rows satisfy this.
pub open spec fn row_wf(row: Seq<u64>) -> bool {
    &&& 1 <= row.len() <= 64
    &&& forall|j: int| 0 <= j < row.len() ==> row[j] <= 31
}

/// The width-12 generator row as a vector.
pub(crate) fn row12_vec() -> (r: Vec<u64>)
    ensures
        r@ == row12(),
{
    let r: Vec<u64> = vec![7u64, 23, 8, 26, 13, 10, 9, 7, 6, 22, 21, 8];
    proof {
        assert(r@ =~= row12());
    }
    r
}

/// The width-8 generator row as a vector.
pub(crate) fn row8_vec() -> (r: Vec<u64>)
    ensures
        r@ == row8(),
{
    let r: Vec<u64> = vec![23u64, 8, 13, 10, 7, 6, 21, 8];
    proof {
        assert(r@ =~= row8());
    }
    r
}

/// Direct evaluator: replaces `x` with M*x using one field multiplication
/// and one field addition per matrix entry.
pub(crate) fn apply(x: &mut Vec<Fp>, row: &Vec<u64>)
    requires
        old(x)@.len() == row@.len(),
        row_wf(row@),
        forall|k: int| 0 <= k < old(x)@.len() ==> old(x)@[k].wf(),
    ensures
        final(x)@ == mds_apply(row@, old(x)@),
        final(x)@.len() == old(x)@.len(),
        forall|k: int| 0 <= k < final(x)@.len() ==> final(x)@[k].wf(),
{
    let t = x.len();
    let mut out: Vec<Fp> = Vec::new();
    let mut i: usize = 0;
    while i < t
        invariant
            x@.len() == t,
            row@.len() == t,
            row_wf(row@),
            forall|k: int| 0 <= k < t ==> x@[k].wf(),
            i <= t,
            out@.len() == i,
            forall|k: int| 0 <= k < i ==> out@[k] == mds_entry(row@, x@, k),
        decreases t - i,
    {
        let mut acc = Fp(0);
        let mut j: usize = 0;
        while j < t
            invariant
                x@.len() == t,
                row@.len() == t,
                row_wf(row@),
                forall|k: int| 0 <= k < t ==> x@[k].wf(),
                i < t,
                j <= t,
                acc.wf(),
                acc.0 == mds_dot(row@, x@, i as int, j as int) % (P as int),
            decreases t - j,
        {
            let idx = (j + t - i) % t;
            proof {
                lemma_mod_add_multiples_vanish((j - i) as int, t as int);
            }
            let c = Fp(row[idx]);
            let term = c.mul(x[j]);
            proof {
                lemma_add_mod_noop(
                    mds_dot(row@, x@, i as int, j as int),
                    (c.0 as int) * (x@[j as int].0 as int),
                    P as int,
                );
            }
            acc = acc.add(term);
            j = j + 1;
        }
        out.push(acc);
        i = i + 1;
    }
    proof {
        assert(out@ =~= mds_apply(row@, x@));
    }
    *x = out;
}

/// Accumulator evaluator: replaces `x` with M*x, accumulating each inner
/// product in a u128 without intermediate reduction and reducing once.
pub(crate) fn apply_u128(x: &mut Vec<Fp>, row: &Vec<u64>)
    requires
        old(x)@.len() == row@.len(),
        row_wf(row@),
        forall|k: int| 0 <= k < old(x)@.len() ==> old(x)@[k].wf(),
    ensures
        final(x)@ == mds_apply(row@, old(x)@),
        final(x)@.len() == old(x)@.len(),
        forall|k: int| 0 <= k < final(x)@.len() ==> final(x)@[k].wf(),
{
    let t = x.len();
    let mut out: Vec<Fp> = Vec::new();
    let mut i: usize = 0;
    while i < t
        invariant
            x@.len() == t,
            row@.len() == t,
            row_wf(row@),
            forall|k: int| 0 <= k < t ==> x@[k].wf(),
            i <= t,
            out@.len() == i,
            forall|k: int| 0 <= k < i ==> out@[k] == mds_entry(row@, x@, k),
        decreases t - i,
    {
        let mut acc: u128 = 0;
        let mut j: usize = 0;
        while j < t
            invariant
                x@.len() == t,
                row@.len() == t,
                row_wf(row@),
                forall|k: int| 0 <= k < t ==> x@[k].wf(),
                i < t,
                j <= t,
                acc == mds_dot(row@, x@, i as int, j as int),
                acc <= (j as int) * 31 * ((P - 1) as int),
            decreases t - j,
        {
            let idx = (j + t - i) % t;
            proof {
                lemma_mod_add_multiples_vanish((j - i) as int, t as int);
            }
            let c = row[idx];
            proof {
                assert((c as int) * (x@[j as int].0 as int) <= 31 * ((P - 1) as int))
                    by (nonlinear_arith)
                    requires
                        c <= 31,
                        x@[j as int].0 < P,
                ;
                assert((j as int) * 31 * ((P - 1) as int) + 31 * ((P - 1) as int) == ((j + 1)
                    as int) * 31 * ((P - 1) as int)) by (nonlinear_arith);
                assert(((j + 1) as int) * 31 * ((P - 1) as int) <= 64 * 31 * ((P - 1) as int))
                    by (nonlinear_arith)
                    requires
                        0 <= j,
                        j + 1 <= 64,
                ;
            }
            let term: u128 = (c as u128) * (x[j].0 as u128);
            proof {
                assert(((j + 1) as int) * 31 * ((P - 1) as int) <= u128::MAX) by (nonlinear_arith)
                    requires
                        0 <= j,
                        j + 1 <= 64,
                        P == 0xFFFF_FFFF_0000_0001u64,
                ;
                assert(acc + term <= ((j + 1) as int) * 31 * ((P - 1) as int));
            }
            acc = acc + term;
            j = j + 1;
        }
        let lane: u64 = (acc % (P as u128)) as u64;
        out.push(Fp(lane));
        i = i + 1;
    }
    proof {
        assert(out@ =~= mds_apply(row@, x@));
    }
    *x = out;
}

} // verus!
