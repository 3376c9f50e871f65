//! The Monolith permutation P over widths 8 and 12.
//!
//! P is an initial linear layer (`concrete`), then R rounds of: the S-box
//! on the first `bar_per_round` lanes (`bars`), the quadratic mixer
//! (`bricks`), and the linear layer with round-constant injection
//! (`concrete_wrc`). Because the final round constant is all-zero, the
//! last round degenerates to a plain linear layer.

use crate::field::{all_wf, fadd, fmul, Fp};
use crate::mds::{mds_apply, mds_apply_rc, row12, row12_vec, row8, row8_vec};
use crate::params::{MonolithParams, ParamsModel};
use crate::sbox::{bar_fp, lemma_sbox64_canonical, lemma_sbox64_parallel, sbox64_parallel};
use vstd::prelude::*;

verus! {

/// The S-box layer: `bar` on the first `k` lanes, the rest unchanged.
pub open spec fn bars_spec(s: Seq<Fp>, k: int) -> Seq<Fp> {
    Seq::new(
        s.len(),
        |i: int|
            if i < k {
                bar_fp(s[i])
            } else {
                s[i]
            },
    )
}

/// The quadratic mixer: each lane above the first gains the square of the
/// lane below it, all reads from the state before the layer.
pub open spec fn bricks_spec(s: Seq<Fp>) -> Seq<Fp> {
    Seq::new(
        s.len(),
        |i: int|
            if i == 0 {
                s[0]
            } else {
                fadd(s[i], fmul(s[i - 1], s[i - 1]))
            },
    )
}

/// The generator row used for a state of width `t`.
pub open spec fn row_for(t: int) -> Seq<u64> {
    if t == 8 {
        row8()
    } else {
        row12()
    }
}

/// The plain linear layer: multiplication by the circulant matrix.
pub open spec fn concrete_spec(s: Seq<Fp>) -> Seq<Fp> {
    mds_apply(row_for(s.len() as int), s)
}

/// The linear layer with round-constant injection.
pub open spec fn concrete_rc_spec(s: Seq<Fp>, rc: Seq<Fp>) -> Seq<Fp> {
    mds_apply_rc(row_for(s.len() as int), s, rc)
}

/// One full round: bars, bricks, then concrete with the round constant.
pub open spec fn round_spec(s: Seq<Fp>, bar_k: int, rc: Seq<Fp>) -> Seq<Fp> {
    concrete_rc_spec(bricks_spec(bars_spec(s, bar_k)), rc)
}

/// The state after applying rounds `r..R` to `s`.
pub open spec fn rounds_from(p: ParamsModel, s: Seq<Fp>, r: int) -> Seq<Fp>
    decreases p.round_constants.len() - r,
{
    if r < 0 || r >= p.round_constants.len() {
        s
    } else {
        rounds_from(p, round_spec(s, p.bar_per_round as int, p.round_constants[r]), r + 1)
    }
}

/// The whole permutation: the initial linear layer, then all rounds.
pub open spec fn permute_spec(p: ParamsModel, s: Seq<Fp>) -> Seq<Fp> {
    rounds_from(p, concrete_spec(s), 0)
}

/// The Monolith permutation over a state of field elements.
pub struct MonolithPermute;

impl MonolithPermute {
    /// The S-box on one element, in the bit-parallel form: the three byte
    /// rotations across all eight byte lanes at once.
    pub fn bar(element: Fp) -> (r: Fp)
        requires
            element.wf(),
        ensures
            r == bar_fp(element),
            r.wf(),
    {
        let x = element.0;
        let l1 = ((x & 0x8080808080808080) >> 7) | ((x & 0x7F7F7F7F7F7F7F7F) << 1);
        let l2 = ((x & 0xC0C0C0C0C0C0C0C0) >> 6) | ((x & 0x3F3F3F3F3F3F3F3F) << 2);
        let l3 = ((x & 0xE0E0E0E0E0E0E0E0) >> 5) | ((x & 0x1F1F1F1F1F1F1F1F) << 3);
        let y = x ^ (!l1 & l2 & l3);
        let out = ((y & 0x8080808080808080) >> 7) | ((y & 0x7F7F7F7F7F7F7F7F) << 1);
        proof {
            assert(out == sbox64_parallel(x));
            lemma_sbox64_parallel(x);
            lemma_sbox64_canonical(x);
        }
        Fp(out)
    }

    /// The S-box layer: `bar` on the first `bar_per_round` lanes.
    pub fn bars(input: &mut Vec<Fp>, params: &MonolithParams)
        requires
            all_wf(old(input)@),
            params.wf(),
            old(input)@.len() == params@.state_size,
        ensures
            final(input)@ == bars_spec(old(input)@, params@.bar_per_round as int),
            final(input)@.len() == old(input)@.len(),
            all_wf(final(input)@),
    {
        let ghost orig = input@;
        let k: usize = params.bar_per_round as usize;
        let mut i: usize = 0;
        while i < k
            invariant
                k <= orig.len(),
                input@.len() == orig.len(),
                i <= k,
                forall|j: int| 0 <= j < i ==> #[trigger] input@[j] == bar_fp(orig[j]),
                forall|j: int| i <= j < orig.len() ==> #[trigger] input@[j] == orig[j],
                all_wf(input@),
            decreases k - i,
        {
            let b = Self::bar(input[i]);
            input.set(i, b);
            i = i + 1;
        }
        proof {
            assert(input@ =~= bars_spec(orig, k as int));
        }
    }

    /// The quadratic mixer: for each lane from the top down, add the square
    /// of the lane below; every read sees the state before the layer.
    pub fn bricks(input: &mut Vec<Fp>)
        requires
            all_wf(old(input)@),
        ensures
            final(input)@ == bricks_spec(old(input)@),
            final(input)@.len() == old(input)@.len(),
            all_wf(final(input)@),
    {
        let ghost orig = input@;
        let t = input.len();
        let mut i: usize = t;
        while i > 1
            invariant
                input@.len() == t,
                orig.len() == t,
                i <= t,
                t == 0 || i >= 1,
                forall|j: int| 0 <= j < i ==> #[trigger] input@[j] == orig[j],
                forall|j: int|
                    i <= j < t ==> #[trigger] input@[j] == fadd(
                        orig[j],
                        fmul(orig[j - 1], orig[j - 1]),
                    ),
                all_wf(input@),
            decreases i,
        {
            i = i - 1;
            let sq = input[i - 1].square();
            let v = input[i].add(sq);
            input.set(i, v);
        }
        proof {
            assert(input@ =~= bricks_spec(orig));
        }
    }

    /// The plain linear layer: multiplication by the width's circulant
    /// matrix, via the direct evaluator.
    pub fn concrete(input: &mut Vec<Fp>)
        requires
            all_wf(old(input)@),
            old(input)@.len() == 8 || old(input)@.len() == 12,
        ensures
            final(input)@ == concrete_spec(old(input)@),
            final(input)@.len() == old(input)@.len(),
            all_wf(final(input)@),
    {
        if input.len() == 8 {
            let row = row8_vec();
            crate::mds::apply(input, &row);
        } else {
            let row = row12_vec();
            crate::mds::apply(input, &row);
        }
    }

    /// The plain linear layer via the u128 accumulator evaluator; agrees
    /// with `concrete` on every input.
    pub fn concrete_u128(input: &mut Vec<Fp>)
        requires
            all_wf(old(input)@),
            old(input)@.len() == 8 || old(input)@.len() == 12,
        ensures
            final(input)@ == concrete_spec(old(input)@),
            final(input)@.len() == old(input)@.len(),
            all_wf(final(input)@),
    {
        if input.len() == 8 {
            let row = row8_vec();
            crate::mds::apply_u128(input, &row);
        } else {
            let row = row12_vec();
            crate::mds::apply_u128(input, &row);
        }
    }

    /// The linear layer with round-constant injection, via the direct
    /// evaluator.
    pub fn concrete_wrc(input: &mut Vec<Fp>, round_constant: &Vec<Fp>)
        requires
            all_wf(old(input)@),
            all_wf(round_constant@),
            old(input)@.len() == round_constant@.len(),
            old(input)@.len() == 8 || old(input)@.len() == 12,
        ensures
            final(input)@ == concrete_rc_spec(old(input)@, round_constant@),
            final(input)@.len() == old(input)@.len(),
            all_wf(final(input)@),
    {
        if input.len() == 8 {
            let row = row8_vec();
            crate::mds::apply(input, &row);
        } else {
            let row = row12_vec();
            crate::mds::apply(input, &row);
        }
        Self::add_rc(input, round_constant);
        proof {
            assert(input@ =~= concrete_rc_spec(old(input)@, round_constant@));
        }
    }

    /// The linear layer with round-constant injection, via the u128
    /// accumulator evaluator; agrees with `concrete_wrc` on every input.
    pub fn concrete_wrc_u128(input: &mut Vec<Fp>, round_constant: &Vec<Fp>)
        requires
            all_wf(old(input)@),
            all_wf(round_constant@),
            old(input)@.len() == round_constant@.len(),
            old(input)@.len() == 8 || old(input)@.len() == 12,
        ensures
            final(input)@ == concrete_rc_spec(old(input)@, round_constant@),
            final(input)@.len() == old(input)@.len(),
            all_wf(final(input)@),
    {
        if input.len() == 8 {
            let row = row8_vec();
            crate::mds::apply_u128(input, &row);
        } else {
            let row = row12_vec();
            crate::mds::apply_u128(input, &row);
        }
        Self::add_rc(input, round_constant);
        proof {
            assert(input@ =~= concrete_rc_spec(old(input)@, round_constant@));
        }
    }

    /// Lane-wise addition of a round-constant vector.
    fn add_rc(input: &mut Vec<Fp>, round_constant: &Vec<Fp>)
        requires
            all_wf(old(input)@),
            all_wf(round_constant@),
            old(input)@.len() == round_constant@.len(),
        ensures
            final(input)@.len() == old(input)@.len(),
            forall|j: int|
                0 <= j < old(input)@.len() ==> #[trigger] final(input)@[j] == fadd(
                    old(input)@[j],
                    round_constant@[j],
                ),
            all_wf(final(input)@),
    {
        let ghost orig = input@;
        let t = input.len();
        let mut i: usize = 0;
        while i < t
            invariant
                input@.len() == t,
                orig.len() == t,
                round_constant@.len() == t,
                all_wf(round_constant@),
                i <= t,
                forall|j: int|
                    0 <= j < i ==> #[trigger] input@[j] == fadd(orig[j], round_constant@[j]),
                forall|j: int| i <= j < t ==> #[trigger] input@[j] == orig[j],
                all_wf(input@),
            decreases t - i,
        {
            let v = input[i].add(round_constant[i]);
            input.set(i, v);
            i = i + 1;
        }
    }

    /// The whole permutation: `concrete`, then every round in order.
    pub fn permute(input: &mut Vec<Fp>, params: &MonolithParams)
        requires
            all_wf(old(input)@),
            params.wf(),
            old(input)@.len() == params@.state_size,
        ensures
            final(input)@ == permute_spec(params@, old(input)@),
            final(input)@.len() == old(input)@.len(),
            all_wf(final(input)@),
    {
        let ghost target = permute_spec(params@, input@);
        Self::concrete(input);
        let rounds = params.round_constants.len();
        let mut r: usize = 0;
        while r < rounds
            invariant
                params.wf(),
                rounds == params@.round_constants.len(),
                input@.len() == params@.state_size,
                all_wf(input@),
                r <= rounds,
                rounds_from(params@, input@, r as int) == target,
            decreases rounds - r,
        {
            let ghost before = input@;
            Self::bars(input, params);
            Self::bricks(input);
            Self::concrete_wrc(input, &params.round_constants[r]);
            proof {
                assert(params@.round_constants[r as int] == params.round_constants@[r as int]@);
                assert(input@ == round_spec(
                    before,
                    params@.bar_per_round as int,
                    params@.round_constants[r as int],
                ));
            }
            r = r + 1;
        }
    }
}

/// The S-box layer is injective: equal `bars` outputs come only from
/// equal states.
pub proof fn lemma_bars_injective(s1: Seq<Fp>, s2: Seq<Fp>, k: int)
    requires
        s1.len() == s2.len(),
        bars_spec(s1, k) == bars_spec(s2, k),
    ensures
        s1 == s2,
{
    assert forall|i: int| 0 <= i < s1.len() implies s1[i] == s2[i] by {
        assert(bars_spec(s1, k)[i] == bars_spec(s2, k)[i]);
        if i < k {
            crate::sbox::lemma_sbox64_injective(s1[i].0, s2[i].0);
            assert(s1[i] =~= s2[i]);
        }
    }
    assert(s1 =~= s2);
}

/// One lane of `bricks` injectivity: equal outputs force equal inputs up
/// to the given lane.
proof fn lemma_bricks_lane(s1: Seq<Fp>, s2: Seq<Fp>, i: int)
    requires
        s1.len() == s2.len(),
        all_wf(s1),
        all_wf(s2),
        bricks_spec(s1) == bricks_spec(s2),
        0 <= i < s1.len(),
    ensures
        s1[i] == s2[i],
    decreases i,
{
    assert(bricks_spec(s1)[i] == bricks_spec(s2)[i]);
    if i > 0 {
        lemma_bricks_lane(s1, s2, i - 1);
        crate::field::lemma_fadd_cancel(s1[i], s2[i], fmul(s1[i - 1], s1[i - 1]));
    }
}

/// The quadratic mixer is injective on well-formed states: equal `bricks`
/// outputs come only from equal states.
pub proof fn lemma_bricks_injective(s1: Seq<Fp>, s2: Seq<Fp>)
    requires
        s1.len() == s2.len(),
        all_wf(s1),
        all_wf(s2),
        bricks_spec(s1) == bricks_spec(s2),
    ensures
        s1 == s2,
{
    assert forall|i: int| 0 <= i < s1.len() implies s1[i] == s2[i] by {
        lemma_bricks_lane(s1, s2, i);
    }
    assert(s1 =~= s2);
}

/// The S-box layer keeps every lane canonical.
pub proof fn lemma_bars_wf(s: Seq<Fp>, k: int)
    requires
        all_wf(s),
    ensures
        all_wf(bars_spec(s, k)),
{
    assert forall|i: int| 0 <= i < s.len() implies (#[trigger] bars_spec(s, k)[i]).wf() by {
        if i < k {
            crate::sbox::lemma_sbox64_canonical(s[i].0);
        }
    }
}

/// The quadratic mixer keeps every lane canonical.
pub proof fn lemma_bricks_wf(s: Seq<Fp>)
    requires
        all_wf(s),
    ensures
        all_wf(bricks_spec(s)),
{
    assert forall|i: int| 0 <= i < s.len() implies (#[trigger] bricks_spec(s)[i]).wf() by {
        if i > 0 {
            crate::field::lemma_fadd_wf(s[i], fmul(s[i - 1], s[i - 1]));
        }
    }
}

/// The linear layers keep every lane canonical.
pub proof fn lemma_mds_apply_wf(row: Seq<u64>, x: Seq<Fp>)
    ensures
        all_wf(mds_apply(row, x)),
{
    assert forall|i: int| 0 <= i < x.len() implies (#[trigger] mds_apply(row, x)[i]).wf() by {
        vstd::arithmetic::div_mod::lemma_mod_division_less_than_divisor(
            crate::mds::mds_dot(row, x, i, x.len() as int),
            crate::field::P as int,
        );
    }
}

/// A full round keeps every lane canonical.
pub proof fn lemma_round_wf(s: Seq<Fp>, k: int, rc: Seq<Fp>)
    ensures
        all_wf(round_spec(s, k, rc)),
        round_spec(s, k, rc).len() == s.len(),
{
    let b = bricks_spec(bars_spec(s, k));
    assert forall|i: int| 0 <= i < s.len() implies (#[trigger] round_spec(s, k, rc)[i]).wf() by {
        crate::field::lemma_fadd_wf(
            crate::mds::mds_entry(row_for(b.len() as int), b, i),
            rc[i],
        );
    }
}

/// The plain linear layer is injective on well-formed states of a
/// supported width.
pub proof fn lemma_concrete_injective(s1: Seq<Fp>, s2: Seq<Fp>)
    requires
        s1.len() == s2.len(),
        s1.len() == 8 || s1.len() == 12,
        all_wf(s1),
        all_wf(s2),
        concrete_spec(s1) == concrete_spec(s2),
    ensures
        s1 == s2,
{
    if s1.len() == 8 {
        crate::mds_inv::lemma_rows_inverse_8();
        crate::mds_inv::lemma_mds_apply_injective(row8(), crate::mds_inv::row8_inv(), s1, s2);
    } else {
        crate::mds_inv::lemma_rows_inverse_12();
        crate::mds_inv::lemma_mds_apply_injective(row12(), crate::mds_inv::row12_inv(), s1, s2);
    }
}

/// The linear layer with round-constant injection is injective on
/// well-formed states of a supported width.
pub proof fn lemma_concrete_rc_injective(s1: Seq<Fp>, s2: Seq<Fp>, rc: Seq<Fp>)
    requires
        s1.len() == s2.len(),
        s1.len() == 8 || s1.len() == 12,
        all_wf(s1),
        all_wf(s2),
        concrete_rc_spec(s1, rc) == concrete_rc_spec(s2, rc),
    ensures
        s1 == s2,
{
    let row = row_for(s1.len() as int);
    lemma_mds_apply_wf(row, s1);
    lemma_mds_apply_wf(row, s2);
    assert forall|i: int| 0 <= i < s1.len() implies mds_apply(row, s1)[i] == mds_apply(
        row,
        s2,
    )[i] by {
        assert(concrete_rc_spec(s1, rc)[i] == concrete_rc_spec(s2, rc)[i]);
        crate::field::lemma_fadd_cancel(
            crate::mds::mds_entry(row, s1, i),
            crate::mds::mds_entry(row, s2, i),
            rc[i],
        );
    }
    assert(mds_apply(row, s1) =~= mds_apply(row, s2));
    lemma_concrete_injective(s1, s2);
}

/// One full round is injective on well-formed states of a supported width.
pub proof fn lemma_round_injective(s1: Seq<Fp>, s2: Seq<Fp>, k: int, rc: Seq<Fp>)
    requires
        s1.len() == s2.len(),
        s1.len() == 8 || s1.len() == 12,
        all_wf(s1),
        all_wf(s2),
        round_spec(s1, k, rc) == round_spec(s2, k, rc),
    ensures
        s1 == s2,
{
    let b1 = bars_spec(s1, k);
    let b2 = bars_spec(s2, k);
    lemma_bars_wf(s1, k);
    lemma_bars_wf(s2, k);
    lemma_bricks_wf(b1);
    lemma_bricks_wf(b2);
    lemma_concrete_rc_injective(bricks_spec(b1), bricks_spec(b2), rc);
    lemma_bricks_injective(b1, b2);
    lemma_bars_injective(s1, s2, k);
}

/// The remaining rounds are injective on well-formed states.
proof fn lemma_rounds_from_injective(p: ParamsModel, s1: Seq<Fp>, s2: Seq<Fp>, r: int)
    requires
        p.wf(),
        s1.len() == p.state_size,
        s2.len() == p.state_size,
        all_wf(s1),
        all_wf(s2),
        rounds_from(p, s1, r) == rounds_from(p, s2, r),
        0 <= r,
    ensures
        s1 == s2,
    decreases p.round_constants.len() - r,
{
    if r < p.round_constants.len() {
        let k = p.bar_per_round as int;
        let rc = p.round_constants[r];
        lemma_round_wf(s1, k, rc);
        lemma_round_wf(s2, k, rc);
        lemma_rounds_from_injective(p, round_spec(s1, k, rc), round_spec(s2, k, rc), r + 1);
        lemma_round_injective(s1, s2, k, rc);
    }
}

/// The whole permutation is injective: on a finite state space this makes
/// it a bijection. Distinct well-formed states have distinct images.
pub proof fn lemma_permute_injective(p: ParamsModel, s1: Seq<Fp>, s2: Seq<Fp>)
    requires
        p.wf(),
        s1.len() == p.state_size,
        s2.len() == p.state_size,
        all_wf(s1),
        all_wf(s2),
        permute_spec(p, s1) == permute_spec(p, s2),
    ensures
        s1 == s2,
{
    let row = row_for(s1.len() as int);
    lemma_mds_apply_wf(row, s1);
    lemma_mds_apply_wf(row, s2);
    lemma_rounds_from_injective(p, concrete_spec(s1), concrete_spec(s2), 0);
    lemma_concrete_injective(s1, s2);
}

} // verus!
