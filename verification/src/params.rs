//! Monolith parameters and their deterministic derivation.
//!
//! Round constants are derived from a domain-separation tag with the
//! SHAKE128 extendable-output function: the tag is the ASCII bytes
//! "Monolith", the width and round count, the field modulus little-endian,
//! and the eight limb widths. The XOF stream is read as 8-byte words;
//! a word is accepted exactly when it is a canonical residue, and the
//! accepted words fill R-1 vectors of t constants. The final vector is
//! all-zero. No caller-supplied randomness enters the derivation.

use crate::codec::le_word;
use crate::field::{Fp, P};
use sha3::digest::{ExtendableOutput, Update, XofReader};
use vstd::arithmetic::div_mod::lemma_fundamental_div_mod;
use vstd::prelude::*;

verus! {

/// Everything that can go wrong in this crate.
#[derive(Clone, Copy, PartialEq, Eq, Structural, Debug)]
pub enum MonolithError {
    /// A width other than 8 or 12 was requested.
    InvalidWidth,
    /// A canonical parameter encoding could not be decoded.
    ParamDeserializationError,
    /// The XOF stream ran out before enough canonical words were found.
    XofRead,
}

/// Parameters of a Monolith instance.
pub struct MonolithParams {
    /// How many leading lanes go through the S-box each round.
    pub bar_per_round: u8,
    /// The round count R.
    pub rounds: u8,
    /// The state width t.
    pub state_size: u32,
    /// R vectors of t round constants; the last one is all-zero.
    pub round_constants: Vec<Vec<Fp>>,
}

/// The mathematical content of `MonolithParams`.
#[verifier::ext_equal]
pub struct ParamsModel {
    /// How many leading lanes go through the S-box each round.
    pub bar_per_round: u8,
    /// The round count R.
    pub rounds: u8,
    /// The state width t.
    pub state_size: u32,
    /// R vectors of t round constants.
    pub round_constants: Seq<Seq<Fp>>,
}

/// The element sequences held by a vector of vectors.
pub open spec fn vecs_view(v: Seq<Vec<Fp>>) -> Seq<Seq<Fp>> {
    Seq::new(v.len(), |i: int| v[i]@)
}

impl View for MonolithParams {
    type V = ParamsModel;

    open spec fn view(&self) -> ParamsModel {
        ParamsModel {
            bar_per_round: self.bar_per_round,
            rounds: self.rounds,
            state_size: self.state_size,
            round_constants: vecs_view(self.round_constants@),
        }
    }
}

impl ParamsModel {
    /// Structural soundness: a supported width, a round-constant vector per
    /// round, each of width t, all entries canonical.
    pub open spec fn wf(self) -> bool {
        &&& (self.state_size == 8 || self.state_size == 12)
        &&& self.bar_per_round <= self.state_size
        &&& self.round_constants.len() == self.rounds
        &&& forall|r: int|
            0 <= r < self.round_constants.len() ==> (#[trigger] self.round_constants[r]).len()
                == self.state_size
        &&& forall|r: int, i: int|
            0 <= r < self.round_constants.len() && 0 <= i < self.round_constants[r].len() ==> (
            #[trigger] self.round_constants[r][i]).wf()
    }
}

impl MonolithParams {
    /// Structural soundness of the parameters.
    pub open spec fn wf(self) -> bool {
        self@.wf()
    }
}

impl Clone for MonolithParams {
    /// A deep copy with the same mathematical content.
    fn clone(&self) -> (res: Self)
        ensures
            res@ == self@,
    {
        let mut rc: Vec<Vec<Fp>> = Vec::new();
        let mut r: usize = 0;
        while r < self.round_constants.len()
            invariant
                r <= self.round_constants@.len(),
                rc@.len() == r,
                forall|k: int| 0 <= k < r ==> (#[trigger] rc@[k])@ == self.round_constants@[k]@,
            decreases self.round_constants@.len() - r,
        {
            let src: &Vec<Fp> = &self.round_constants[r];
            let mut inner: Vec<Fp> = Vec::new();
            let mut i: usize = 0;
            while i < src.len()
                invariant
                    i <= src@.len(),
                    inner@ =~= src@.take(i as int),
                decreases src@.len() - i,
            {
                inner.push(src[i]);
                i = i + 1;
            }
            proof {
                assert(inner@ =~= src@);
            }
            rc.push(inner);
            r = r + 1;
        }
        let res = MonolithParams {
            bar_per_round: self.bar_per_round,
            rounds: self.rounds,
            state_size: self.state_size,
            round_constants: rc,
        };
        proof {
            assert(vecs_view(rc@) =~= vecs_view(self.round_constants@));
            assert(res@ =~= self@);
        }
        res
    }
}

/// Byte `i` of the SHAKE128 output stream for the given seed.
pub uninterp spec fn shake128_byte(seed: Seq<u8>, i: nat) -> u8;

/// Relies on sha3::Shake128 (through digest's Update, ExtendableOutput and
/// XofReader): absorbing `seed` and reading `n` output bytes. The XOF output
/// is a function of the absorbed bytes alone, so successive bytes are named
/// by `shake128_byte`.
#[verifier::external_body]
fn shake128_read(seed: &Vec<u8>, n: usize) -> (r: Vec<u8>)
    ensures
        r@.len() == n,
        forall|i: int| 0 <= i < n ==> r@[i] == shake128_byte(seed@, i as nat),
{
    let mut hasher = sha3::Shake128::default();
    hasher.update(seed.as_slice());
    let mut reader = hasher.finalize_xof();
    let mut out = vec![0u8; n];
    reader.read(&mut out);
    out
}

/// The domain-separation tag for width `t`: "Monolith", then [t, R],
/// then the modulus little-endian, then the eight limb widths.
pub open spec fn domain_tag(t: u8) -> Seq<u8> {
    seq![
        77u8,
        111,
        110,
        111,
        108,
        105,
        116,
        104,
        t,
        6,
        1,
        0,
        0,
        0,
        255,
        255,
        255,
        255,
        8,
        8,
        8,
        8,
        8,
        8,
        8,
        8,
    ]
}

/// How many XOF bytes the derivation reads. The derivation needs
/// 8 * 5 * t bytes when no word is rejected; this allows for far more
/// rejections than the stream can plausibly show.
pub const SETUP_XOF_BYTES: usize = 65536;

/// The 8-byte little-endian word at word index `j` of a byte stream.
pub open spec fn word_at(bytes: Seq<u8>, j: int) -> u64 {
    le_word(
        bytes[8 * j],
        bytes[8 * j + 1],
        bytes[8 * j + 2],
        bytes[8 * j + 3],
        bytes[8 * j + 4],
        bytes[8 * j + 5],
        bytes[8 * j + 6],
        bytes[8 * j + 7],
    )
}

/// The canonical words among the first `n` words of a byte stream, in
/// stream order: exactly the words the rejection sampler accepts.
pub open spec fn accepted_words(bytes: Seq<u8>, n: int) -> Seq<u64>
    decreases n,
{
    if n <= 0 {
        Seq::empty()
    } else if word_at(bytes, n - 1) < P {
        accepted_words(bytes, n - 1).push(word_at(bytes, n - 1))
    } else {
        accepted_words(bytes, n - 1)
    }
}

/// Scanning more words only extends the accepted sequence.
pub proof fn lemma_accepted_words_prefix(bytes: Seq<u8>, n: int, m: int)
    requires
        0 <= n <= m,
    ensures
        accepted_words(bytes, n).len() <= accepted_words(bytes, m).len(),
        forall|k: int|
            0 <= k < accepted_words(bytes, n).len() ==> accepted_words(bytes, m)[k]
                == accepted_words(bytes, n)[k],
    decreases m - n,
{
    if n < m {
        lemma_accepted_words_prefix(bytes, n, m - 1);
    }
}

/// Every accepted word is a canonical residue, and at most one word is
/// accepted per word scanned.
pub proof fn lemma_accepted_words_bounded(bytes: Seq<u8>, n: int)
    ensures
        forall|k: int|
            0 <= k < accepted_words(bytes, n).len() ==> #[trigger] accepted_words(bytes, n)[k] < P,
        accepted_words(bytes, n).len() <= if n >= 0 {
            n
        } else {
            0
        },
    decreases n,
{
    if n > 0 {
        lemma_accepted_words_bounded(bytes, n - 1);
    }
}

/// The round-constant table built from a sequence of accepted words:
/// five derived vectors of width t, then the all-zero vector.
pub open spec fn constants_of(acc: Seq<u64>, t: int) -> Seq<Seq<Fp>> {
    Seq::new(
        6,
        |r: int|
            if r < 5 {
                Seq::new(t as nat, |i: int| Fp(acc[r * t + i]))
            } else {
                Seq::new(t as nat, |i: int| Fp(0))
            },
    )
}

/// The first `SETUP_XOF_BYTES` bytes of the XOF stream for width `t`.
pub open spec fn setup_stream(t: u32) -> Seq<u8> {
    Seq::new(SETUP_XOF_BYTES as nat, |i: int| shake128_byte(domain_tag(t as u8), i as nat))
}

/// The canonical words the derivation for width `t` accepts.
pub open spec fn setup_accepted(t: u32) -> Seq<u64> {
    accepted_words(setup_stream(t), SETUP_XOF_BYTES as int / 8)
}

/// The parameters that `setup` derives for width `t`.
pub open spec fn spec_params(t: u32) -> ParamsModel {
    ParamsModel {
        bar_per_round: 4,
        rounds: 6,
        state_size: t,
        round_constants: constants_of(setup_accepted(t), t as int),
    }
}

/// Rejection sampling over a byte stream: collects the first 5*t canonical
/// words into five vectors of width t and appends the all-zero vector.
/// Fails exactly when the stream holds fewer than 5*t canonical words.
pub fn round_constants_from_bytes(bytes: &Vec<u8>, t: usize) -> (r: Result<
    Vec<Vec<Fp>>,
    MonolithError,
>)
    requires
        t == 8 || t == 12,
    ensures
        r is Ok <==> accepted_words(bytes@, bytes@.len() as int / 8).len() >= 5 * t,
        r matches Ok(v) ==> vecs_view(v@) == constants_of(
            accepted_words(bytes@, bytes@.len() as int / 8),
            t as int,
        ),
        r matches Ok(v) ==> v@.len() == 6 && forall|k: int|
            0 <= k < 6 ==> (#[trigger] v@[k])@.len() == t,
        r matches Err(e) ==> e == MonolithError::XofRead,
{
    let nbytes: usize = bytes.len();
    let total_words: usize = nbytes / 8;
    let needed: usize = 5 * t;
    let ghost stream = bytes@;
    let mut vals: Vec<Fp> = Vec::new();
    let mut w: usize = 0;
    while w < total_words && vals.len() < needed
        invariant
            t == 8 || t == 12,
            needed == 5 * t,
            stream == bytes@,
            nbytes == stream.len(),
            total_words == stream.len() as int / 8,
            w <= total_words,
            vals@.len() <= needed,
            vals@.len() == accepted_words(stream, w as int).len(),
            forall|k: int|
                0 <= k < vals@.len() ==> vals@[k] == Fp(
                    #[trigger] accepted_words(stream, w as int)[k],
                ),
        decreases total_words - w,
    {
        proof {
            lemma_fundamental_div_mod(nbytes as int, 8);
            assert(8 * (w as int) + 8 <= nbytes);
        }
        let base = w * 8;
        let word = crate::codec::read_word(bytes, base);
        proof {
            assert(word == word_at(stream, w as int));
            assert(accepted_words(stream, w as int + 1) == if word_at(stream, w as int) < P {
                accepted_words(stream, w as int).push(word_at(stream, w as int))
            } else {
                accepted_words(stream, w as int)
            });
        }
        if word < P {
            vals.push(Fp(word));
        }
        w = w + 1;
    }
    let ghost full = accepted_words(stream, total_words as int);
    proof {
        lemma_accepted_words_prefix(stream, w as int, total_words as int);
    }
    if vals.len() < needed {
        return Err(MonolithError::XofRead);
    }
    // vals holds the first 5*t accepted words of the whole stream.
    proof {
        assert(full.len() >= needed);
        assert(forall|k: int| 0 <= k < needed ==> vals@[k] == Fp(#[trigger] full[k]));
    }
    let mut rc: Vec<Vec<Fp>> = Vec::new();
    let mut r: usize = 0;
    while r < 5
        invariant
            t == 8 || t == 12,
            needed == 5 * t,
            vals@.len() == needed,
            forall|k: int| 0 <= k < needed ==> vals@[k] == Fp(#[trigger] full[k]),
            r <= 5,
            rc@.len() == r,
            forall|k: int|
                0 <= k < r ==> (#[trigger] rc@[k])@ == Seq::new(
                    t as nat,
                    |i: int| Fp(full[k * t + i]),
                ),
        decreases 5 - r,
    {
        let mut inner: Vec<Fp> = Vec::new();
        let mut i: usize = 0;
        while i < t
            invariant
                t == 8 || t == 12,
                needed == 5 * t,
                vals@.len() == needed,
                forall|k: int| 0 <= k < needed ==> vals@[k] == Fp(#[trigger] full[k]),
                r < 5,
                i <= t,
                inner@.len() == i,
                forall|q: int| 0 <= q < i ==> inner@[q] == Fp(full[r * t + q]),
            decreases t - i,
        {
            proof {
                assert(r * t + i < 5 * t) by (nonlinear_arith)
                    requires
                        0 <= r < 5,
                        0 <= i < t,
                ;
            }
            inner.push(vals[r * t + i]);
            i = i + 1;
        }
        proof {
            assert(inner@ =~= Seq::new(t as nat, |i: int| Fp(full[r as int * t + i])));
        }
        rc.push(inner);
        r = r + 1;
    }
    let mut zeros: Vec<Fp> = Vec::new();
    let mut i: usize = 0;
    while i < t
        invariant
            i <= t,
            zeros@ =~= Seq::new(i as nat, |q: int| Fp(0)),
        decreases t - i,
    {
        zeros.push(Fp(0));
        i = i + 1;
    }
    rc.push(zeros);
    proof {
        assert(vecs_view(rc@) =~= constants_of(full, t as int));
    }
    Ok(rc)
}

/// Derives the parameters for width `t` from the SHAKE128 stream of the
/// domain tag. Deterministic: no randomness enters. Fails only when the
/// stream holds fewer canonical words than the derivation needs.
pub(crate) fn derive_params(t: u32) -> (r: Result<MonolithParams, MonolithError>)
    requires
        t == 8 || t == 12,
    ensures
        r is Ok <==> setup_accepted(t).len() >= 5 * t,
        r matches Ok(p) ==> p@ == spec_params(t) && p.wf(),
        r matches Err(e) ==> e == MonolithError::XofRead,
{
    let t_byte: u8 = t as u8;
    let seed: Vec<u8> = vec![
        77u8,
        111,
        110,
        111,
        108,
        105,
        116,
        104,
        t_byte,
        6,
        1,
        0,
        0,
        0,
        255,
        255,
        255,
        255,
        8,
        8,
        8,
        8,
        8,
        8,
        8,
        8,
    ];
    proof {
        assert(seed@ =~= domain_tag(t as u8));
    }
    let buf = shake128_read(&seed, SETUP_XOF_BYTES);
    proof {
        assert(buf@ =~= setup_stream(t));
    }
    match round_constants_from_bytes(&buf, t as usize) {
        Ok(v) => {
            let p = MonolithParams {
                bar_per_round: 4,
                rounds: 6,
                state_size: t,
                round_constants: v,
            };
            proof {
                lemma_accepted_words_bounded(setup_stream(t), SETUP_XOF_BYTES as int / 8);
                assert(p@ =~= spec_params(t));
                assert(p@.wf());
            }
            Ok(p)
        },
        Err(e) => Err(e),
    }
}

/// The derivation is a pure function of the width: any two parameter sets
/// it returns for one width are equal.
pub proof fn lemma_setup_deterministic(p1: ParamsModel, p2: ParamsModel, t: u32)
    requires
        p1 == spec_params(t),
        p2 == spec_params(t),
    ensures
        p1 == p2,
{
}

/// The final round-constant vector is all-zero, so the last round ends in
/// a plain linear layer.
pub proof fn lemma_final_round_constant_zero(t: u32)
    ensures
        spec_params(t).round_constants.len() == 6,
        spec_params(t).round_constants[5] == Seq::new(t as nat, |i: int| Fp(0)),
        forall|i: int|
            0 <= i < t ==> (#[trigger] spec_params(t).round_constants[5][i]).0 == 0,
{
    assert(spec_params(t).round_constants[5] =~= Seq::new(t as nat, |i: int| Fp(0)));
}

} // verus!
