//! The user-facing hash interfaces: the fixed-input collision-resistant
//! hash over the width-12 sponge, and the two-to-one compression over the
//! width-8 permutation.

use crate::field::{all_wf, fadd, Fp};
use crate::params::{
    derive_params, setup_accepted, spec_params, MonolithError, MonolithParams, ParamsModel,
};
use crate::permute::{permute_spec, MonolithPermute};
use crate::sbox::{bar_fp, lemma_sbox64_canonical, s_box, sbox64};
use crate::sponge::{
    absorbing, spec_absorb, spec_squeeze, zero_state, CfgV, MonolithSponge, SpongeConfig,
};
use vstd::prelude::*;

verus! {

/// The sponge configuration the hash uses: rate 8, capacity 4.
pub open spec fn crh_cfg(p: ParamsModel) -> CfgV {
    CfgV { rate: 8, capacity: 4, params: p }
}

/// The digest of `input`: absorb it into a fresh rate-8, capacity-4 sponge
/// and squeeze four elements.
pub open spec fn spec_crh_digest(p: ParamsModel, input: Seq<Fp>) -> Seq<Fp> {
    let cfg = crh_cfg(p);
    let a = spec_absorb(cfg, zero_state(p.state_size as int), absorbing(0), input);
    spec_squeeze(cfg, a.0, a.1, 4).0
}

/// The truncated digest: the single element squeezed after absorbing.
pub open spec fn spec_crh_truncated(p: ParamsModel, input: Seq<Fp>) -> Fp {
    let cfg = crh_cfg(p);
    let a = spec_absorb(cfg, zero_state(p.state_size as int), absorbing(0), input);
    spec_squeeze(cfg, a.0, a.1, 1).0[0]
}

/// The two-to-one compression: permute `left || right` with the width-8
/// permutation and feed the left half forward into the first four lanes.
pub open spec fn spec_compress(p: ParamsModel, left: Seq<Fp>, right: Seq<Fp>) -> Seq<Fp> {
    Seq::new(4, |i: int| fadd(permute_spec(p, left + right)[i], left[i]))
}

/// The fixed-input-length collision-resistant hash.
pub struct CRH64;

impl CRH64 {
    /// The single-byte S-box.
    pub fn s(byt: u8) -> (r: u8)
        ensures
            r == s_box(byt),
    {
        let r1 = (byt << 1u8) | (byt >> 7u8);
        let r2 = (byt << 2u8) | (byt >> 6u8);
        let r3 = (byt << 3u8) | (byt >> 5u8);
        let y = byt ^ (!r1 & r2 & r3);
        (y << 1u8) | (y >> 7u8)
    }

    /// The S-box on one element, in the bytewise form: the single-byte
    /// S-box on each of the eight little-endian bytes. Agrees with the
    /// bit-parallel `MonolithPermute::bar` on every element.
    pub fn bar(element: Fp) -> (r: Fp)
        requires
            element.wf(),
        ensures
            r == bar_fp(element),
            r.wf(),
    {
        let x = element.0;
        let b0 = Self::s((x & 0xff) as u8);
        let b1 = Self::s(((x >> 8) & 0xff) as u8);
        let b2 = Self::s(((x >> 16) & 0xff) as u8);
        let b3 = Self::s(((x >> 24) & 0xff) as u8);
        let b4 = Self::s(((x >> 32) & 0xff) as u8);
        let b5 = Self::s(((x >> 40) & 0xff) as u8);
        let b6 = Self::s(((x >> 48) & 0xff) as u8);
        let b7 = Self::s(((x >> 56) & 0xff) as u8);
        let out = (b0 as u64) | ((b1 as u64) << 8) | ((b2 as u64) << 16) | ((b3 as u64) << 24) | ((
        b4 as u64) << 32) | ((b5 as u64) << 40) | ((b6 as u64) << 48) | ((b7 as u64) << 56);
        proof {
            assert(out == sbox64(x));
            lemma_sbox64_canonical(x);
        }
        Fp(out)
    }

    /// Derives the width-12 parameters. Deterministic: the result is a
    /// function of the width alone, so any two calls agree.
    pub fn setup() -> (r: Result<MonolithParams, MonolithError>)
        ensures
            r is Ok <==> setup_accepted(12).len() >= 60,
            r matches Ok(p) ==> p@ == spec_params(12) && p.wf() && p@.state_size == 12,
            r matches Err(e) ==> e == MonolithError::XofRead,
    {
        derive_params(12)
    }

    /// Hashes the input to a four-element digest.
    pub fn evaluate(parameters: &MonolithParams, input: &Vec<Fp>) -> (r: Vec<Fp>)
        requires
            parameters.wf(),
            parameters@.state_size == 12,
            all_wf(input@),
        ensures
            r@ == spec_crh_digest(parameters@, input@),
            r@.len() == 4,
            all_wf(r@),
    {
        let sponge_params = SpongeConfig::new(8, 4, parameters);
        proof {
            assert(sponge_params@ =~= crh_cfg(parameters@));
        }
        let mut sponge = MonolithSponge::new(&sponge_params);
        proof {
            assert(sponge.parameters@ =~= crh_cfg(parameters@));
        }
        sponge.absorb(input);
        sponge.squeeze_field_elements(4)
    }

    /// Hashes the input to a single field element: the first squeezed lane.
    pub fn evaluate_truncated(parameters: &MonolithParams, input: &Vec<Fp>) -> (r: Fp)
        requires
            parameters.wf(),
            parameters@.state_size == 12,
            all_wf(input@),
        ensures
            r == spec_crh_truncated(parameters@, input@),
            r.wf(),
    {
        let sponge_params = SpongeConfig::new(8, 4, parameters);
        proof {
            assert(sponge_params@ =~= crh_cfg(parameters@));
        }
        let mut sponge = MonolithSponge::new(&sponge_params);
        proof {
            assert(sponge.parameters@ =~= crh_cfg(parameters@));
        }
        sponge.absorb(input);
        let res = sponge.squeeze_field_elements(1);
        res[0]
    }
}

/// The digest is a function of the parameters and the input alone: two
/// evaluations on equal arguments give equal digests.
pub proof fn lemma_crh_deterministic(p: ParamsModel, input: Seq<Fp>, r1: Seq<Fp>, r2: Seq<Fp>)
    requires
        r1 == spec_crh_digest(p, input),
        r2 == spec_crh_digest(p, input),
    ensures
        r1 == r2,
{
}

/// The two-to-one compression scheme over the width-8 permutation.
pub struct TwoToOneCrhScheme64;

impl TwoToOneCrhScheme64 {
    /// Derives the width-8 parameters. Deterministic: the result is a
    /// function of the width alone, so any two calls agree.
    pub fn setup() -> (r: Result<MonolithParams, MonolithError>)
        ensures
            r is Ok <==> setup_accepted(8).len() >= 40,
            r matches Ok(p) ==> p@ == spec_params(8) && p.wf() && p@.state_size == 8,
            r matches Err(e) ==> e == MonolithError::XofRead,
    {
        derive_params(8)
    }

    /// Compresses two four-element digests into one: permute the
    /// concatenation, then add the left input lane-wise into the first
    /// four output lanes.
    pub fn compress(parameters: &MonolithParams, left_input: &Vec<Fp>, right_input: &Vec<Fp>) -> (r:
        Vec<Fp>)
        requires
            parameters.wf(),
            parameters@.state_size == 8,
            left_input@.len() == 4,
            right_input@.len() == 4,
            all_wf(left_input@),
            all_wf(right_input@),
        ensures
            r@ == spec_compress(parameters@, left_input@, right_input@),
            r@.len() == 4,
            forall|i: int|
                0 <= i < 4 ==> #[trigger] r@[i] == fadd(
                    permute_spec(parameters@, left_input@ + right_input@)[i],
                    left_input@[i],
                ),
            all_wf(r@),
    {
        let mut inp: Vec<Fp> = Vec::new();
        let mut i: usize = 0;
        while i < 4
            invariant
                left_input@.len() == 4,
                all_wf(left_input@),
                i <= 4,
                inp@ =~= left_input@.take(i as int),
            decreases 4 - i,
        {
            inp.push(left_input[i]);
            i = i + 1;
        }
        let mut j: usize = 0;
        while j < 4
            invariant
                left_input@.len() == 4,
                right_input@.len() == 4,
                all_wf(left_input@),
                all_wf(right_input@),
                j <= 4,
                inp@ =~= left_input@ + right_input@.take(j as int),
            decreases 4 - j,
        {
            inp.push(right_input[j]);
            j = j + 1;
        }
        proof {
            assert(inp@ =~= left_input@ + right_input@);
        }
        MonolithPermute::permute(&mut inp, parameters);
        let mut out: Vec<Fp> = Vec::new();
        let mut k: usize = 0;
        while k < 4
            invariant
                inp@ == permute_spec(parameters@, left_input@ + right_input@),
                inp@.len() == 8,
                all_wf(inp@),
                left_input@.len() == 4,
                all_wf(left_input@),
                k <= 4,
                out@.len() == k,
                forall|q: int|
                    0 <= q < k ==> #[trigger] out@[q] == fadd(inp@[q], left_input@[q]),
            decreases 4 - k,
        {
            let v = inp[k].add(left_input[k]);
            out.push(v);
            k = k + 1;
        }
        proof {
            assert(out@ =~= spec_compress(parameters@, left_input@, right_input@));
        }
        out
    }

    /// Compression under the hash-scheme interface name.
    pub fn evaluate(parameters: &MonolithParams, left_input: &Vec<Fp>, right_input: &Vec<Fp>) -> (r:
        Vec<Fp>)
        requires
            parameters.wf(),
            parameters@.state_size == 8,
            left_input@.len() == 4,
            right_input@.len() == 4,
            all_wf(left_input@),
            all_wf(right_input@),
        ensures
            r@ == spec_compress(parameters@, left_input@, right_input@),
            r@.len() == 4,
            all_wf(r@),
    {
        Self::compress(parameters, left_input, right_input)
    }
}

/// Absorbing streams through the hash: splitting the input into two
/// absorb calls and then squeezing four elements yields exactly the digest
/// of the whole input.
pub proof fn lemma_crh_streaming(p: ParamsModel, x1: Seq<Fp>, x2: Seq<Fp>)
    ensures
        ({
            let cfg = crh_cfg(p);
            let a1 = spec_absorb(cfg, zero_state(p.state_size as int), absorbing(0), x1);
            let a2 = spec_absorb(cfg, a1.0, a1.1, x2);
            spec_squeeze(cfg, a2.0, a2.1, 4).0 == spec_crh_digest(p, x1 + x2)
        }),
{
    crate::sponge::lemma_absorb_streaming(
        crh_cfg(p),
        zero_state(p.state_size as int),
        absorbing(0),
        x1,
        x2,
    );
}

} // verus!
