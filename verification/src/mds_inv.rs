//! Injectivity of the circulant linear layers, and of the permutation.
//!
//! Each generator row has an inverse generator row over the field: the
//! circular convolution of the two is the unit row. Combining the lanes of
//! M*x with the rotated inverse row therefore recovers each lane of x, so
//! the linear layers send distinct states to distinct states; composed
//! with the injectivity of the S-box and quadratic layers, the whole
//! permutation does too.

use crate::field::{all_wf, Fp, P};
use crate::mds::{mds_apply, mds_coeff, mds_dot, row12, row8};
use vstd::prelude::*;

verus! {

/// Inverse generator row of the width-8 circulant matrix: the circular
/// convolution of this row with the width-8 generator row is the unit row.
pub open spec fn row8_inv() -> Seq<u64> {
    seq![
        10671399028204489528u64,
        15436289366139187412,
        4624329233769728317,
        18200084821960740316,
        8736112961492104393,
        1953609990965186349,
        12477339747250042564,
        1495657543820456485,
    ]
}

/// Inverse generator row of the width-12 circulant matrix.
pub open spec fn row12_inv() -> Seq<u64> {
    seq![
        14868391535953158196u64,
        13278298489594233127,
        389999932707070822,
        9782021734907796003,
        4829905704463175582,
        7567822018949214430,
        14205019324568680367,
        15489674211196160593,
        17636013826542227504,
        16254215311946436093,
        3641486184877122796,
        11069068059762973582,
    ]
}

/// Weighted integer sum of the first `n` lanes: the sum of c[j] * x[j].
spec fn wsum(c: Seq<int>, x: Seq<Fp>, n: int) -> int
    decreases n,
{
    if n <= 0 {
        0
    } else {
        wsum(c, x, n - 1) + c[n - 1] * x[n - 1].0
    }
}

/// Row `k` of the circulant matrix, as integer coefficients.
spec fn row_coeffs(row: Seq<u64>, k: int) -> Seq<int> {
    Seq::new(row.len(), |j: int| mds_coeff(row, k, j) as int)
}

/// The inner product of a matrix row with the state is a weighted sum.
proof fn lemma_dot_is_wsum(row: Seq<u64>, x: Seq<Fp>, k: int, n: int)
    requires
        n <= row.len(),
    ensures
        mds_dot(row, x, k, n) == wsum(row_coeffs(row, k), x, n),
    decreases n,
{
    if n > 0 {
        lemma_dot_is_wsum(row, x, k, n - 1);
    }
}

/// Weighted sums add lane-wise.
proof fn lemma_wsum_add(c1: Seq<int>, c2: Seq<int>, x: Seq<Fp>, n: int)
    requires
        n <= c1.len(),
        n <= c2.len(),
    ensures
        wsum(c1, x, n) + wsum(c2, x, n) == wsum(
            Seq::new(vstd::math::min(c1.len() as int, c2.len() as int) as nat, |j: int| c1[j] + c2[j]),
            x,
            n,
        ),
    decreases n,
{
    if n > 0 {
        lemma_wsum_add(c1, c2, x, n - 1);
        let c = Seq::new(
            vstd::math::min(c1.len() as int, c2.len() as int) as nat,
            |j: int| c1[j] + c2[j],
        );
        assert((c1[n - 1] + c2[n - 1]) * x[n - 1].0 == c1[n - 1] * x[n - 1].0 + c2[n - 1] * x[n
            - 1].0) by (nonlinear_arith);
    }
}

/// Weighted sums scale lane-wise.
proof fn lemma_wsum_scale(a: int, c: Seq<int>, x: Seq<Fp>, n: int)
    requires
        n <= c.len(),
    ensures
        a * wsum(c, x, n) == wsum(Seq::new(c.len(), |j: int| a * c[j]), x, n),
    decreases n,
{
    if n <= 0 {
        assert(a * wsum(c, x, n) == 0) by (nonlinear_arith)
            requires
                wsum(c, x, n) == 0,
        ;
    } else {
        lemma_wsum_scale(a, c, x, n - 1);
        assert(a * (wsum(c, x, n - 1) + c[n - 1] * x[n - 1].0) == a * wsum(c, x, n - 1) + (a * c[n
            - 1]) * x[n - 1].0) by (nonlinear_arith);
    }
}

/// The combination of the first `n` lanes of `y` weighted by the inverse
/// row rotated to lane `m`.
spec fn rot_comb(a: Seq<u64>, y: Seq<Fp>, m: int, n: int) -> int
    decreases n,
{
    if n <= 0 {
        0
    } else {
        rot_comb(a, y, m, n - 1) + (a[(n - 1 - m) % (a.len() as int)] as int) * y[n - 1].0
    }
}

/// The same combination applied to the unreduced inner products.
spec fn rot_dots(a: Seq<u64>, row: Seq<u64>, x: Seq<Fp>, m: int, n: int) -> int
    decreases n,
{
    if n <= 0 {
        0
    } else {
        rot_dots(a, row, x, m, n - 1) + (a[(n - 1 - m) % (a.len() as int)] as int) * mds_dot(
            row,
            x,
            n - 1,
            row.len() as int,
        )
    }
}

/// The coefficient that lane `j` of the state receives in the rotated
/// combination of the first `n` matrix rows: a partial circular
/// convolution of the inverse row with the generator row.
spec fn conv_rot(a: Seq<u64>, row: Seq<u64>, m: int, j: int, n: int) -> int
    decreases n,
{
    if n <= 0 {
        0
    } else {
        conv_rot(a, row, m, j, n - 1) + (a[(n - 1 - m) % (a.len() as int)] as int) * (mds_coeff(
            row,
            n - 1,
            j,
        ) as int)
    }
}

/// Exchanging the two sums: the rotated combination of the inner products
/// is a single weighted sum of the state, with convolution coefficients.
proof fn lemma_exchange(a: Seq<u64>, row: Seq<u64>, x: Seq<Fp>, m: int, n: int)
    requires
        a.len() == row.len(),
        x.len() == row.len(),
    ensures
        rot_dots(a, row, x, m, n) == wsum(
            Seq::new(row.len(), |j: int| conv_rot(a, row, m, j, n)),
            x,
            row.len() as int,
        ),
    decreases n,
{
    let t = row.len() as int;
    if n <= 0 {
        lemma_wsum_zero(Seq::new(row.len(), |j: int| conv_rot(a, row, m, j, n)), x, t);
    } else {
        lemma_exchange(a, row, x, m, n - 1);
        let ak = a[(n - 1 - m) % (a.len() as int)] as int;
        lemma_dot_is_wsum(row, x, n - 1, t);
        lemma_wsum_scale(ak, row_coeffs(row, n - 1), x, t);
        let prev = Seq::new(row.len(), |j: int| conv_rot(a, row, m, j, n - 1));
        let scaled = Seq::new(row_coeffs(row, n - 1).len(), |j: int| ak * row_coeffs(row, n - 1)[j]);
        lemma_wsum_add(prev, scaled, x, t);
        assert(Seq::new(
            vstd::math::min(prev.len() as int, scaled.len() as int) as nat,
            |j: int| prev[j] + scaled[j],
        ) =~= Seq::new(row.len(), |j: int| conv_rot(a, row, m, j, n)));
    }
}

/// A weighted sum over all-zero coefficients is zero.
proof fn lemma_wsum_zero(c: Seq<int>, x: Seq<Fp>, n: int)
    requires
        n <= c.len(),
        forall|j: int| 0 <= j < n ==> c[j] == 0,
    ensures
        wsum(c, x, n) == 0,
    decreases n,
{
    if n > 0 {
        lemma_wsum_zero(c, x, n - 1);
        assert(c[n - 1] * x[n - 1].0 == 0) by (nonlinear_arith)
            requires
                c[n - 1] == 0,
        ;
    }
}

/// The rotated convolution coefficient, summed over matrix rows
/// `lo..hi`.
spec fn conv_rot_r(a: Seq<u64>, row: Seq<u64>, m: int, j: int, lo: int, hi: int) -> int
    decreases hi - lo,
{
    if hi <= lo {
        0
    } else {
        conv_rot_r(a, row, m, j, lo, hi - 1) + (a[(hi - 1 - m) % (a.len() as int)] as int)
            * (mds_coeff(row, hi - 1, j) as int)
    }
}

/// The circular convolution of the inverse row with the generator row at
/// distance `d`, summed over positions `lo..hi`.
pub open spec fn conv_shift_r(a: Seq<u64>, row: Seq<u64>, d: int, lo: int, hi: int) -> int
    decreases hi - lo,
{
    if hi <= lo {
        0
    } else {
        conv_shift_r(a, row, d, lo, hi - 1) + (a[hi - 1] as int) * (row[(d - (hi - 1)) % (
        row.len() as int)] as int)
    }
}

/// The full circular convolution of the two rows at distance `d`.
pub open spec fn conv_shift(a: Seq<u64>, row: Seq<u64>, d: int) -> int {
    conv_shift_r(a, row, d, 0, row.len() as int)
}

/// Two rows are inverse to each other when their circular convolution is
/// the unit row: one at distance zero, zero elsewhere.
pub open spec fn rows_inverse(row: Seq<u64>, a: Seq<u64>) -> bool {
    &&& a.len() == row.len()
    &&& 1 <= row.len()
    &&& forall|d: int|
        0 <= d < row.len() ==> #[trigger] conv_shift(a, row, d) % (P as int) == if d == 0 {
            1int
        } else {
            0int
        }
}

/// The whole-prefix convolution coefficient equals the range form.
proof fn lemma_conv_rot_range(a: Seq<u64>, row: Seq<u64>, m: int, j: int, n: int)
    ensures
        conv_rot(a, row, m, j, n) == conv_rot_r(a, row, m, j, 0, n),
    decreases n,
{
    if n > 0 {
        lemma_conv_rot_range(a, row, m, j, n - 1);
    }
}

/// Range sums split at any midpoint.
proof fn lemma_rot_split(a: Seq<u64>, row: Seq<u64>, m: int, j: int, lo: int, mid: int, hi: int)
    requires
        lo <= mid <= hi,
    ensures
        conv_rot_r(a, row, m, j, lo, hi) == conv_rot_r(a, row, m, j, lo, mid) + conv_rot_r(
            a,
            row,
            m,
            j,
            mid,
            hi,
        ),
    decreases hi - mid,
{
    if mid < hi {
        lemma_rot_split(a, row, m, j, lo, mid, hi - 1);
    }
}

/// Range sums split at any midpoint.
proof fn lemma_shift_split(a: Seq<u64>, row: Seq<u64>, d: int, lo: int, mid: int, hi: int)
    requires
        lo <= mid <= hi,
    ensures
        conv_shift_r(a, row, d, lo, hi) == conv_shift_r(a, row, d, lo, mid) + conv_shift_r(
            a,
            row,
            d,
            mid,
            hi,
        ),
    decreases hi - mid,
{
    if mid < hi {
        lemma_shift_split(a, row, d, lo, mid, hi - 1);
    }
}

/// Rows `m..hi` of the rotated combination match convolution positions
/// `0..hi-m`.
proof fn lemma_rot_upper(a: Seq<u64>, row: Seq<u64>, m: int, j: int, hi: int)
    requires
        a.len() == row.len(),
        1 <= row.len(),
        0 <= m <= hi <= row.len(),
    ensures
        conv_rot_r(a, row, m, j, m, hi) == conv_shift_r(
            a,
            row,
            (j - m) % (row.len() as int),
            0,
            hi - m,
        ),
    decreases hi - m,
{
    let t = row.len() as int;
    let d = (j - m) % t;
    if m < hi {
        lemma_rot_upper(a, row, m, j, hi - 1);
        let k = hi - 1;
        let u = hi - 1 - m;
        vstd::arithmetic::div_mod::lemma_small_mod(u as nat, t as nat);
        // row index: (j - k) % t == (d - u) % t
        vstd::arithmetic::div_mod::lemma_add_mod_noop_right(0 - u, j - m, t);
        assert((d - u) % t == ((j - m) - u) % t);
        assert((j - m) - u == j - k);
    }
}

/// Rows `0..hi` of the rotated combination match convolution positions
/// `t-m..t-m+hi`.
proof fn lemma_rot_lower(a: Seq<u64>, row: Seq<u64>, m: int, j: int, hi: int)
    requires
        a.len() == row.len(),
        1 <= row.len(),
        0 <= hi <= m < row.len(),
    ensures
        conv_rot_r(a, row, m, j, 0, hi) == conv_shift_r(
            a,
            row,
            (j - m) % (row.len() as int),
            row.len() - m,
            row.len() - m + hi,
        ),
    decreases hi,
{
    let t = row.len() as int;
    let d = (j - m) % t;
    if hi > 0 {
        lemma_rot_lower(a, row, m, j, hi - 1);
        let k = hi - 1;
        let u = t - m + hi - 1;
        // a index: (k - m) % t == u
        vstd::arithmetic::div_mod::lemma_fundamental_div_mod_converse(k - m, t, -1, k - m + t);
        assert((k - m) % t == u);
        // row index: (j - k) % t == (d - u) % t
        vstd::arithmetic::div_mod::lemma_add_mod_noop_right(0 - u, j - m, t);
        assert((d - u) % t == ((j - m) - u) % t);
        vstd::arithmetic::div_mod::lemma_mod_add_multiples_vanish(j - k - t, t);
        assert(((j - m) - u) % t == (j - k) % t);
    }
}

/// The rotated convolution coefficient depends only on the circular
/// distance between the output lane and the recovered lane.
proof fn lemma_conv_rot_is_shift(a: Seq<u64>, row: Seq<u64>, m: int, j: int)
    requires
        a.len() == row.len(),
        1 <= row.len(),
        0 <= m < row.len(),
    ensures
        conv_rot(a, row, m, j, row.len() as int) == conv_shift(a, row, (j - m) % (row.len() as int)),
    decreases row.len(),
{
    let t = row.len() as int;
    let d = (j - m) % t;
    lemma_conv_rot_range(a, row, m, j, t);
    lemma_rot_split(a, row, m, j, 0, m, t);
    lemma_rot_upper(a, row, m, j, t);
    lemma_rot_lower(a, row, m, j, m);
    lemma_shift_split(a, row, d, 0, t - m, t);
}

/// The width-8 rows are inverse to each other.
pub proof fn lemma_rows_inverse_8()
    ensures
        rows_inverse(row8(), row8_inv()),
{
    reveal_with_fuel(conv_shift_r, 9);
    assert(conv_shift(row8_inv(), row8(), 0) == 830103483123656294446);
    vstd::arithmetic::div_mod::lemma_fundamental_div_mod_converse(
        830103483123656294446,
        P as int,
        45,
        1,
    );
    assert(conv_shift(row8_inv(), row8(), 1) == 1069911156026045890618);
    vstd::arithmetic::div_mod::lemma_fundamental_div_mod_converse(
        1069911156026045890618,
        P as int,
        58,
        0,
    );
    assert(conv_shift(row8_inv(), row8(), 2) == 811656739054241710124);
    vstd::arithmetic::div_mod::lemma_fundamental_div_mod_converse(
        811656739054241710124,
        P as int,
        44,
        0,
    );
    assert(conv_shift(row8_inv(), row8(), 3) == 959230691609558384692);
    vstd::arithmetic::div_mod::lemma_fundamental_div_mod_converse(
        959230691609558384692,
        P as int,
        52,
        0,
    );
    assert(conv_shift(row8_inv(), row8(), 4) == 922337203470729216050);
    vstd::arithmetic::div_mod::lemma_fundamental_div_mod_converse(
        922337203470729216050,
        P as int,
        50,
        0,
    );
    assert(conv_shift(row8_inv(), row8(), 5) == 700976274637754204198);
    vstd::arithmetic::div_mod::lemma_fundamental_div_mod_converse(
        700976274637754204198,
        P as int,
        38,
        0,
    );
    assert(conv_shift(row8_inv(), row8(), 6) == 959230691609558384692);
    vstd::arithmetic::div_mod::lemma_fundamental_div_mod_converse(
        959230691609558384692,
        P as int,
        52,
        0,
    );
    assert(conv_shift(row8_inv(), row8(), 7) == 811656739054241710124);
    vstd::arithmetic::div_mod::lemma_fundamental_div_mod_converse(
        811656739054241710124,
        P as int,
        44,
        0,
    );
    assert forall|d: int| 0 <= d < 8 implies #[trigger] conv_shift(row8_inv(), row8(), d)
        % (P as int) == (if d == 0 { 1int } else { 0int }) by {
        if d == 0 {
        } else if d == 1 {
        } else if d == 2 {
        } else if d == 3 {
        } else if d == 4 {
        } else if d == 5 {
        } else if d == 6 {
        } else if d == 7 {
        }
    }
}

/// The width-12 rows are inverse to each other.
pub proof fn lemma_rows_inverse_12()
    ensures
        rows_inverse(row12(), row12_inv()),
{
    reveal_with_fuel(conv_shift_r, 13);
    assert(conv_shift(row12_inv(), row12(), 0) == 1733993942524970926175);
    vstd::arithmetic::div_mod::lemma_fundamental_div_mod_converse(
        1733993942524970926175,
        P as int,
        94,
        1,
    );
    assert(conv_shift(row12_inv(), row12(), 1) == 1604866734039068835927);
    vstd::arithmetic::div_mod::lemma_fundamental_div_mod_converse(
        1604866734039068835927,
        P as int,
        87,
        0,
    );
    assert(conv_shift(row12_inv(), row12(), 2) == 1623313478108483420248);
    vstd::arithmetic::div_mod::lemma_fundamental_div_mod_converse(
        1623313478108483420248,
        P as int,
        88,
        0,
    );
    assert(conv_shift(row12_inv(), row12(), 3) == 1623313478108483420248);
    vstd::arithmetic::div_mod::lemma_fundamental_div_mod_converse(
        1623313478108483420248,
        P as int,
        88,
        0,
    );
    assert(conv_shift(row12_inv(), row12(), 4) == 1863121151010873016421);
    vstd::arithmetic::div_mod::lemma_fundamental_div_mod_converse(
        1863121151010873016421,
        P as int,
        101,
        0,
    );
    assert(conv_shift(row12_inv(), row12(), 5) == 1623313478108483420248);
    vstd::arithmetic::div_mod::lemma_fundamental_div_mod_converse(
        1623313478108483420248,
        P as int,
        88,
        0,
    );
    assert(conv_shift(row12_inv(), row12(), 6) == 1789334174733214679137);
    vstd::arithmetic::div_mod::lemma_fundamental_div_mod_converse(
        1789334174733214679137,
        P as int,
        97,
        0,
    );
    assert(conv_shift(row12_inv(), row12(), 7) == 1604866734039068835927);
    vstd::arithmetic::div_mod::lemma_fundamental_div_mod_converse(
        1604866734039068835927,
        P as int,
        87,
        0,
    );
    assert(conv_shift(row12_inv(), row12(), 8) == 1586419989969654251606);
    vstd::arithmetic::div_mod::lemma_fundamental_div_mod_converse(
        1586419989969654251606,
        P as int,
        86,
        0,
    );
    assert(conv_shift(row12_inv(), row12(), 9) == 1918461383219116769384);
    vstd::arithmetic::div_mod::lemma_fundamental_div_mod_converse(
        1918461383219116769384,
        P as int,
        104,
        0,
    );
    assert(conv_shift(row12_inv(), row12(), 10) == 2010695103566189690989);
    vstd::arithmetic::div_mod::lemma_fundamental_div_mod_converse(
        2010695103566189690989,
        P as int,
        109,
        0,
    );
    assert(conv_shift(row12_inv(), row12(), 11) == 1660206966247312588890);
    vstd::arithmetic::div_mod::lemma_fundamental_div_mod_converse(
        1660206966247312588890,
        P as int,
        90,
        0,
    );
    assert forall|d: int| 0 <= d < 12 implies #[trigger] conv_shift(row12_inv(), row12(), d)
        % (P as int) == (if d == 0 { 1int } else { 0int }) by {
        if d == 0 {
        } else if d == 1 {
        } else if d == 2 {
        } else if d == 3 {
        } else if d == 4 {
        } else if d == 5 {
        } else if d == 6 {
        } else if d == 7 {
        } else if d == 8 {
        } else if d == 9 {
        } else if d == 10 {
        } else if d == 11 {
        }
    }
}
/// Entry `k` of M*x is the reduced inner product of row `k`.
proof fn lemma_apply_entry(row: Seq<u64>, x: Seq<Fp>, k: int)
    requires
        x.len() == row.len(),
        0 <= k < row.len(),
    ensures
        mds_apply(row, x)[k].0 == mds_dot(row, x, k, row.len() as int) % (P as int),
{
    vstd::arithmetic::div_mod::lemma_mod_division_less_than_divisor(
        mds_dot(row, x, k, row.len() as int),
        P as int,
    );
}

/// Combining the reduced lanes of M*x agrees, mod p, with combining the
/// unreduced inner products.
proof fn lemma_rot_comb_mod(a: Seq<u64>, row: Seq<u64>, x: Seq<Fp>, m: int, n: int)
    requires
        a.len() == row.len(),
        x.len() == row.len(),
        n <= row.len(),
    ensures
        rot_comb(a, mds_apply(row, x), m, n) % (P as int) == rot_dots(a, row, x, m, n) % (P as int),
    decreases n,
{
    let p = P as int;
    if n > 0 {
        lemma_rot_comb_mod(a, row, x, m, n - 1);
        let c = a[(n - 1 - m) % (a.len() as int)] as int;
        let dot = mds_dot(row, x, n - 1, row.len() as int);
        lemma_apply_entry(row, x, n - 1);
        let s1 = rot_comb(a, mds_apply(row, x), m, n - 1);
        let s2 = rot_dots(a, row, x, m, n - 1);
        vstd::arithmetic::div_mod::lemma_mul_mod_noop_right(c, dot, p);
        vstd::arithmetic::div_mod::lemma_add_mod_noop(s1, c * (dot % p), p);
        vstd::arithmetic::div_mod::lemma_add_mod_noop(s2, c * dot, p);
        assert((c * (dot % p)) % p == (c * dot) % p);
    }
}

/// A weighted sum whose coefficients are one at lane `m` and zero
/// elsewhere, mod p, reduces to lane `m` itself.
proof fn lemma_wsum_delta(c: Seq<int>, x: Seq<Fp>, m: int, n: int)
    requires
        0 <= m,
        n <= c.len(),
        n <= x.len(),
        all_wf(x),
        forall|j: int|
            0 <= j < n ==> #[trigger] c[j] % (P as int) == if j == m {
                1int
            } else {
                0int
            },
    ensures
        wsum(c, x, n) % (P as int) == if m < n {
            x[m].0 as int
        } else {
            0int
        },
    decreases n,
{
    let p = P as int;
    if n > 0 {
        lemma_wsum_delta(c, x, m, n - 1);
        let w = wsum(c, x, n - 1);
        let cj = c[n - 1];
        let v = x[n - 1].0 as int;
        vstd::arithmetic::div_mod::lemma_add_mod_noop(w, cj * v, p);
        vstd::arithmetic::div_mod::lemma_mul_mod_noop_left(cj, v, p);
        if n - 1 == m {
            assert((cj % p) * v == v) by (nonlinear_arith)
                requires
                    cj % p == 1,
            ;
            vstd::arithmetic::div_mod::lemma_small_mod(v as nat, P as nat);
            assert((w % p + (cj * v) % p) == v);
            vstd::arithmetic::div_mod::lemma_small_mod(v as nat, P as nat);
        } else {
            assert((cj % p) * v == 0) by (nonlinear_arith)
                requires
                    cj % p == 0,
            ;
            assert((0int) % p == 0) by {
                vstd::arithmetic::div_mod::lemma_small_mod(0nat, P as nat);
            }
            if m < n - 1 {
                vstd::arithmetic::div_mod::lemma_small_mod(x[m].0 as nat, P as nat);
            } else {
                vstd::arithmetic::div_mod::lemma_small_mod(0nat, P as nat);
            }
        }
    }
}

/// Combining the lanes of M*x with the inverse row rotated to lane `m`
/// recovers lane `m` of x, mod p.
proof fn lemma_recover(a: Seq<u64>, row: Seq<u64>, x: Seq<Fp>, m: int)
    requires
        rows_inverse(row, a),
        x.len() == row.len(),
        all_wf(x),
        0 <= m < row.len(),
    ensures
        rot_comb(a, mds_apply(row, x), m, row.len() as int) % (P as int) == x[m].0 as int,
{
    let t = row.len() as int;
    let p = P as int;
    lemma_rot_comb_mod(a, row, x, m, t);
    lemma_exchange(a, row, x, m, t);
    let coeffs = Seq::new(row.len(), |j: int| conv_rot(a, row, m, j, t));
    assert forall|j: int| 0 <= j < t implies #[trigger] coeffs[j] % p == (if j == m {
        1int
    } else {
        0int
    }) by {
        lemma_conv_rot_is_shift(a, row, m, j);
        let d = (j - m) % t;
        if j == m {
            vstd::arithmetic::div_mod::lemma_small_mod(0nat, t as nat);
        } else if j > m {
            vstd::arithmetic::div_mod::lemma_small_mod((j - m) as nat, t as nat);
            assert(d == j - m);
        } else {
            vstd::arithmetic::div_mod::lemma_fundamental_div_mod_converse(
                j - m,
                t,
                -1,
                j - m + t,
            );
            assert(d == j - m + t);
        }
        assert(0 <= d < t);
    }
    lemma_wsum_delta(coeffs, x, m, t);
}

/// The circulant layer is injective: states with equal images under M are
/// equal.
pub proof fn lemma_mds_apply_injective(row: Seq<u64>, a: Seq<u64>, x: Seq<Fp>, y: Seq<Fp>)
    requires
        rows_inverse(row, a),
        x.len() == row.len(),
        y.len() == row.len(),
        all_wf(x),
        all_wf(y),
        mds_apply(row, x) == mds_apply(row, y),
    ensures
        x == y,
{
    let t = row.len() as int;
    assert forall|m: int| 0 <= m < t implies x[m] == y[m] by {
        lemma_recover(a, row, x, m);
        lemma_recover(a, row, y, m);
        assert(x[m] =~= y[m]);
    }
    assert(x =~= y);
}

} // verus!
