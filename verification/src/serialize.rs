//! Canonical parameter serialization.
//!
//! The encoding is: `bar_per_round` (1 byte), `rounds` (1 byte),
//! `state_size` (4 bytes little-endian), then every round constant in
//! order, each as 8 little-endian bytes. Decoding accepts exactly the
//! well-formed encodings and is proved to invert encoding.

use crate::codec::{
    le_word32, lemma_word32_roundtrip, lemma_word_roundtrip, read_word, read_word32, word32_bytes,
    word_bytes,
};
use crate::field::{Fp, P};
use crate::params::{vecs_view, word_at, MonolithError, MonolithParams, ParamsModel};
use vstd::arithmetic::div_mod::{
    lemma_fundamental_div_mod, lemma_mod_division_less_than_divisor,
};
use vstd::prelude::*;

verus! {

/// The concatenated 8-byte encodings of the first `n` elements.
pub open spec fn ser_elems(v: Seq<Fp>, n: int) -> Seq<u8>
    decreases n,
{
    if n <= 0 {
        Seq::empty()
    } else {
        ser_elems(v, n - 1) + word_bytes(v[n - 1].0)
    }
}

/// The concatenated encodings of the first `n` round-constant vectors.
pub open spec fn ser_vecs(rc: Seq<Seq<Fp>>, n: int) -> Seq<u8>
    decreases n,
{
    if n <= 0 {
        Seq::empty()
    } else {
        ser_vecs(rc, n - 1) + ser_elems(rc[n - 1], rc[n - 1].len() as int)
    }
}

/// The canonical encoding of a parameter set.
pub open spec fn serialize_params(m: ParamsModel) -> Seq<u8> {
    seq![m.bar_per_round, m.rounds] + word32_bytes(m.state_size) + ser_vecs(
        m.round_constants,
        m.round_constants.len() as int,
    )
}

/// What decoding a byte string yields: the unique parameter set that
/// encodes to it, or the error naming what is wrong with it.
pub open spec fn parse_params(bytes: Seq<u8>) -> Result<ParamsModel, MonolithError> {
    if bytes.len() < 6 {
        Err(MonolithError::ParamDeserializationError)
    } else {
        let bar = bytes[0];
        let rounds = bytes[1];
        let t = le_word32(bytes[2], bytes[3], bytes[4], bytes[5]);
        if t != 8 && t != 12 {
            Err(MonolithError::InvalidWidth)
        } else if bar as int > t as int {
            Err(MonolithError::ParamDeserializationError)
        } else if bytes.len() != 6 + (rounds as int) * (t as int) * 8 {
            Err(MonolithError::ParamDeserializationError)
        } else if exists|j: int|
            0 <= j < (rounds as int) * (t as int) && word_at(bytes.skip(6), j) >= P {
            Err(MonolithError::ParamDeserializationError)
        } else {
            Ok(
                ParamsModel {
                    bar_per_round: bar,
                    rounds,
                    state_size: t,
                    round_constants: Seq::new(
                        rounds as nat,
                        |r: int|
                            Seq::new(
                                t as nat,
                                |i: int| Fp(word_at(bytes.skip(6), r * (t as int) + i)),
                            ),
                    ),
                },
            )
        }
    }
}

/// The encoding of `n` elements takes 8n bytes.
proof fn lemma_ser_elems_len(v: Seq<Fp>, n: int)
    requires
        n >= 0,
    ensures
        ser_elems(v, n).len() == 8 * n,
    decreases n,
{
    if n > 0 {
        lemma_ser_elems_len(v, n - 1);
    }
}

/// Element `i` sits at byte offset 8i of the element encoding.
proof fn lemma_ser_elems_word(v: Seq<Fp>, n: int, i: int)
    requires
        0 <= i < n,
    ensures
        ser_elems(v, n).len() == 8 * n,
        forall|k: int| 0 <= k < 8 ==> ser_elems(v, n)[8 * i + k] == word_bytes(v[i].0)[k],
    decreases n,
{
    lemma_ser_elems_len(v, n);
    lemma_ser_elems_len(v, n - 1);
    if i < n - 1 {
        lemma_ser_elems_word(v, n - 1, i);
    }
}

/// The encoding of `n` width-`t` vectors takes 8tn bytes.
proof fn lemma_ser_vecs_len(rc: Seq<Seq<Fp>>, n: int, t: int)
    requires
        n >= 0,
        forall|r: int| 0 <= r < n ==> (#[trigger] rc[r]).len() == t,
    ensures
        ser_vecs(rc, n).len() == 8 * t * n,
    decreases n,
{
    if n > 0 {
        lemma_ser_vecs_len(rc, n - 1, t);
        lemma_ser_elems_len(rc[n - 1], t);
        assert(8 * t * (n - 1) + 8 * t == 8 * t * n) by (nonlinear_arith);
    } else {
        assert(8 * t * n == 0) by (nonlinear_arith)
            requires
                n == 0,
        ;
    }
}

/// Element `i` of vector `r` sits at byte offset 8(rt + i) of the
/// round-constant encoding.
proof fn lemma_ser_vecs_word(rc: Seq<Seq<Fp>>, n: int, t: int, r: int, i: int)
    requires
        0 <= r < n,
        0 <= i < t,
        forall|q: int| 0 <= q < n ==> (#[trigger] rc[q]).len() == t,
    ensures
        ser_vecs(rc, n).len() == 8 * t * n,
        forall|k: int|
            0 <= k < 8 ==> ser_vecs(rc, n)[8 * (r * t + i) + k] == word_bytes(rc[r][i].0)[k],
    decreases n,
{
    lemma_ser_vecs_len(rc, n, t);
    lemma_ser_vecs_len(rc, n - 1, t);
    if r == n - 1 {
        lemma_ser_elems_word(rc[r], t, i);
        assert(8 * (r * t + i) == 8 * t * (n - 1) + 8 * i) by (nonlinear_arith)
            requires
                r == n - 1,
        ;
        assert forall|k: int| 0 <= k < 8 implies ser_vecs(rc, n)[8 * (r * t + i) + k] == word_bytes(
            rc[r][i].0,
        )[k] by {
            assert(8 * (r * t + i) + k == 8 * t * (n - 1) + (8 * i + k));
            assert(ser_vecs(rc, n)[8 * t * (n - 1) + (8 * i + k)] == ser_elems(rc[r], t)[8 * i
                + k]);
        }
    } else {
        lemma_ser_vecs_word(rc, n - 1, t, r, i);
        assert(0 <= 8 * (r * t + i) && 8 * (r * t + i) + 8 <= 8 * t * (n - 1)) by (nonlinear_arith)
            requires
                0 <= r < n - 1,
                0 <= i < t,
        ;
    }
}

/// The word at index `rt + i` of the round-constant encoding is element
/// `i` of vector `r`.
proof fn lemma_body_word(m: ParamsModel, r: int, i: int)
    requires
        m.wf(),
        0 <= r < m.rounds,
        0 <= i < m.state_size,
    ensures
        word_at(serialize_params(m).skip(6), r * (m.state_size as int) + i) == m.round_constants[r][i].0,
{
    let t = m.state_size as int;
    let rounds = m.rounds as int;
    let body = ser_vecs(m.round_constants, rounds);
    let b = serialize_params(m);
    lemma_ser_vecs_word(m.round_constants, rounds, t, r, i);
    let j = r * t + i;
    assert(0 <= 8 * j && 8 * j + 8 <= 8 * t * rounds) by (nonlinear_arith)
        requires
            0 <= r < rounds,
            0 <= i < t,
            j == r * t + i,
    ;
    assert(b.len() == 6 + 8 * t * rounds);
    assert forall|k: int| 0 <= k < 8 implies b.skip(6)[8 * j + k] == word_bytes(
        m.round_constants[r][i].0,
    )[k] by {
        assert(b.skip(6)[8 * j + k] == b[6 + 8 * j + k]);
        assert(b[6 + 8 * j + k] == body[8 * j + k]);
    }
    lemma_word_roundtrip(m.round_constants[r][i].0);
}

/// Decoding inverts encoding: parsing the canonical encoding of any
/// well-formed parameter set yields that parameter set.
pub proof fn lemma_params_roundtrip(m: ParamsModel)
    requires
        m.wf(),
    ensures
        parse_params(serialize_params(m)) == Result::<ParamsModel, MonolithError>::Ok(m),
{
    let b = serialize_params(m);
    let t = m.state_size;
    let rounds = m.rounds as int;
    lemma_ser_vecs_len(m.round_constants, rounds, t as int);
    assert(b.len() == 6 + 8 * (t as int) * rounds);
    assert(b[0] == m.bar_per_round);
    assert(b[1] == m.rounds);
    assert(b[2] == word32_bytes(t)[0] && b[3] == word32_bytes(t)[1] && b[4] == word32_bytes(t)[2]
        && b[5] == word32_bytes(t)[3]);
    lemma_word32_roundtrip(t);
    assert(le_word32(b[2], b[3], b[4], b[5]) == t);
    assert(6 + (rounds as int) * (t as int) * 8 == 6 + 8 * (t as int) * rounds)
        by (nonlinear_arith);
    assert forall|j: int| 0 <= j < rounds * (t as int) implies word_at(b.skip(6), j) < P by {
        let r = j / (t as int);
        let i = j % (t as int);
        lemma_fundamental_div_mod(j, t as int);
        lemma_mod_division_less_than_divisor(j, t as int);
        assert(r >= 0) by (nonlinear_arith)
            requires
                j >= 0,
                t >= 1,
                r == j / (t as int),
        ;
        assert(r < rounds) by (nonlinear_arith)
            requires
                j < rounds * (t as int),
                t >= 1,
                j == (t as int) * r + i,
                i >= 0,
        ;
        assert(j == r * (t as int) + i) by (nonlinear_arith)
            requires
                j == (t as int) * r + i,
        ;
        lemma_body_word(m, r, i);
    }
    let parsed = Seq::new(
        m.rounds as nat,
        |r: int|
            Seq::new(
                t as nat,
                |i: int| Fp(word_at(b.skip(6), r * (t as int) + i)),
            ),
    );
    assert forall|r: int| 0 <= r < rounds implies parsed[r] == m.round_constants[r] by {
        assert forall|i: int| 0 <= i < t implies parsed[r][i] == m.round_constants[r][i] by {
            lemma_body_word(m, r, i);
        }
        assert(parsed[r] =~= m.round_constants[r]);
    }
    assert(parsed =~= m.round_constants);
    assert(parse_params(b) == Result::<ParamsModel, MonolithError>::Ok(m)) by {
        assert(parse_params(b) matches Ok(p) && p =~= m);
    }
}

impl MonolithParams {
    /// Encodes the parameters canonically.
    pub fn to_bytes(&self) -> (r: Vec<u8>)
        ensures
            r@ == serialize_params(self@),
    {
        let mut out: Vec<u8> = Vec::new();
        out.push(self.bar_per_round);
        out.push(self.rounds);
        crate::codec::push_word32(&mut out, self.state_size);
        let ghost header = out@;
        let nvecs = self.round_constants.len();
        let mut r: usize = 0;
        while r < nvecs
            invariant
                nvecs == self.round_constants@.len(),
                r <= nvecs,
                out@ == header + ser_vecs(self@.round_constants, r as int),
            decreases nvecs - r,
        {
            let v: &Vec<Fp> = &self.round_constants[r];
            let ghost sofar = out@;
            let ne = v.len();
            let mut i: usize = 0;
            while i < ne
                invariant
                    ne == v@.len(),
                    i <= ne,
                    out@ == sofar + ser_elems(v@, i as int),
                decreases ne - i,
            {
                crate::codec::push_word(&mut out, v[i].0);
                i = i + 1;
            }
            proof {
                assert(self@.round_constants[r as int] == v@);
                assert(out@ == header + ser_vecs(self@.round_constants, r as int + 1));
            }
            r = r + 1;
        }
        proof {
            assert(out@ =~= serialize_params(self@));
        }
        out
    }

    /// Decodes canonically encoded parameters; accepts exactly the
    /// well-formed encodings.
    #[verifier::loop_isolation(false)]
    pub fn from_bytes(bytes: &Vec<u8>) -> (r: Result<MonolithParams, MonolithError>)
        ensures
            r matches Ok(p) ==> parse_params(bytes@) == Result::<ParamsModel, MonolithError>::Ok(
                p@,
            ) && p.wf(),
            r matches Err(e) ==> parse_params(bytes@) == Result::<ParamsModel, MonolithError>::Err(
                e,
            ),
    {
        let n = bytes.len();
        if n < 6 {
            return Err(MonolithError::ParamDeserializationError);
        }
        let bar = bytes[0];
        let rounds = bytes[1];
        let t = read_word32(bytes, 2);
        if !(t == 8 || t == 12) {
            return Err(MonolithError::InvalidWidth);
        }
        if (bar as u32) > t {
            return Err(MonolithError::ParamDeserializationError);
        }
        let tu: usize = t as usize;
        let ru: usize = rounds as usize;
        proof {
            assert(ru * tu * 8 <= 255 * 12 * 8) by (nonlinear_arith)
                requires
                    ru <= 255,
                    tu <= 12,
            ;
        }
        let body_len: usize = ru * tu * 8;
        proof {
            assert((rounds as int) * (t as int) * 8 == body_len);
        }
        if n != 6 + body_len {
            return Err(MonolithError::ParamDeserializationError);
        }
        let ghost body = bytes@.skip(6);
        let mut rc: Vec<Vec<Fp>> = Vec::new();
        let mut r: usize = 0;
        while r < ru
            invariant
                tu == t,
                ru == rounds,
                t == 8 || t == 12,
                n == bytes@.len(),
                n == 6 + ru * tu * 8,
                body == bytes@.skip(6),
                r <= ru,
                rc@.len() == r,
                forall|q: int|
                    0 <= q < r ==> (#[trigger] rc@[q])@ == Seq::new(
                        tu as nat,
                        |i: int| Fp(word_at(body, q * (tu as int) + i)),
                    ),
                forall|q: int, i: int|
                    0 <= q < r && 0 <= i < tu ==> #[trigger] word_at(body, q * (tu as int) + i)
                        < P,
            decreases ru - r,
        {
            let mut inner: Vec<Fp> = Vec::new();
            let mut i: usize = 0;
            while i < tu
                invariant
                    tu == t,
                    ru == rounds,
                    t == 8 || t == 12,
                    n == bytes@.len(),
                    n == 6 + ru * tu * 8,
                    body == bytes@.skip(6),
                    r < ru,
                    i <= tu,
                    inner@.len() == i,
                    forall|q: int|
                        0 <= q < i ==> #[trigger] inner@[q] == Fp(
                            word_at(body, r as int * (tu as int) + q),
                        ),
                    forall|q: int| 0 <= q < i ==> #[trigger] word_at(body, r as int * (tu as int) + q) < P,
                decreases tu - i,
            {
                proof {
                    assert(r * tu + i < ru * tu) by (nonlinear_arith)
                        requires
                            0 <= r < ru,
                            0 <= i < tu,
                    ;
                    assert((r * tu + i) * 8 + 8 <= ru * tu * 8) by (nonlinear_arith)
                        requires
                            r * tu + i < ru * tu,
                            0 <= r * tu + i,
                    ;
                }
                let j = r * tu + i;
                let off = 6 + j * 8;
                let w = read_word(bytes, off);
                proof {
                    assert(8 * (j as int) == (j as int) * 8) by (nonlinear_arith);
                    assert(w == word_at(body, j as int));
                }
                if w >= P {
                    proof {
                        assert((j as int) < (rounds as int) * (t as int)) by (nonlinear_arith)
                            requires
                                0 <= r < ru,
                                0 <= i < tu,
                                j == r * tu + i,
                                tu == t,
                                ru == rounds,
                        ;
                        assert(word_at(bytes@.skip(6), j as int) >= P);
                        assert(exists|q: int|
                            0 <= q < (rounds as int) * (t as int) && word_at(bytes@.skip(6), q)
                                >= P);
                    }
                    return Err(MonolithError::ParamDeserializationError);
                }
                inner.push(Fp(w));
                i = i + 1;
            }
            proof {
                assert(inner@ =~= Seq::new(
                    tu as nat,
                    |q: int| Fp(word_at(body, r as int * (tu as int) + q)),
                ));
            }
            rc.push(inner);
            r = r + 1;
        }
        let p = MonolithParams { bar_per_round: bar, rounds, state_size: t, round_constants: rc };
        proof {
            assert forall|j: int| 0 <= j < (rounds as int) * (t as int) implies word_at(body, j)
                < P by {
                let q = j / (t as int);
                let i = j % (t as int);
                lemma_fundamental_div_mod(j, t as int);
                lemma_mod_division_less_than_divisor(j, t as int);
                assert(q >= 0) by (nonlinear_arith)
                    requires
                        j >= 0,
                        t >= 1,
                        q == j / (t as int),
                ;
                assert(q < rounds as int) by (nonlinear_arith)
                    requires
                        j < (rounds as int) * (t as int),
                        t >= 1,
                        j == (t as int) * q + i,
                        i >= 0,
                ;
                assert(j == q * (t as int) + i) by (nonlinear_arith)
                    requires
                        j == (t as int) * q + i,
                ;
            }
            assert((rounds as int) * (t as int) * 8 == body_len as int);
            let parsed = Seq::new(
                rounds as nat,
                |q: int|
                    Seq::new(t as nat, |i: int| Fp(word_at(bytes@.skip(6), q * (t as int) + i))),
            );
            assert(vecs_view(rc@) =~= parsed);
            assert(p@ =~= parse_params(bytes@)->Ok_0);
        }
        Ok(p)
    }
}

} // verus!
