//! Histogram utilities: accumulation, Otsu threshold selection,
//! equalization and median. Threshold selection maximizes the between-class
//! variance exactly, comparing candidates by cross-multiplied integers
//! rather than by rounded quotients.
use vstd::arithmetic::div_mod::{lemma_fundamental_div_mod, lemma_mod_bound};
use vstd::prelude::*;

verus! {

/// Low half of a 128-bit word.
const LOW_HALF: u128 = 0x10000000000000000;

/// Full product of two 128-bit values, returned as high and low halves of
/// a 256-bit result.
fn mul_u128(a: u128, b: u128) -> (r: (u128, u128))
    ensures
        (r.0 as int) * 0x100000000000000000000000000000000int + r.1 == (a as int) * (b as int),
        (r.1 as int) < 0x100000000000000000000000000000000int,
{
    let ghost bb: int = 0x10000000000000000;
    let al = a % LOW_HALF;
    let ah = a / LOW_HALF;
    let bl = b % LOW_HALF;
    let bh = b / LOW_HALF;
    proof {
        lemma_fundamental_div_mod(a as int, bb);
        lemma_mod_bound(a as int, bb);
        lemma_fundamental_div_mod(b as int, bb);
        lemma_mod_bound(b as int, bb);
        assert(ah < LOW_HALF && bh < LOW_HALF) by (nonlinear_arith)
            requires
                a as int == bb * (ah as int) + (al as int),
                b as int == bb * (bh as int) + (bl as int),
                0 <= al < bb,
                0 <= bl < bb,
                a <= u128::MAX,
                b <= u128::MAX,
                bb == 0x10000000000000000,
                LOW_HALF == 0x10000000000000000,
        ;
        assert((al as int) * (bl as int) <= (bb - 1) * (bb - 1) && (al as int) * (bh as int) <= (bb
            - 1) * (bb - 1) && (ah as int) * (bl as int) <= (bb - 1) * (bb - 1) && (ah as int) * (
        bh as int) <= (bb - 1) * (bb - 1)) by (nonlinear_arith)
            requires
                0 <= al < bb,
                0 <= ah < bb,
                0 <= bl < bb,
                0 <= bh < bb,
        ;
        assert((bb - 1) * (bb - 1) < u128::MAX) by (nonlinear_arith)
            requires
                bb == 0x10000000000000000,
        ;
    }
    let ll = al * bl;
    let lh = al * bh;
    let hl = ah * bl;
    let hh = ah * bh;
    let llh = ll / LOW_HALF;
    let lll = ll % LOW_HALF;
    let lhh = lh / LOW_HALF;
    let lhl = lh % LOW_HALF;
    let hlh = hl / LOW_HALF;
    let hll = hl % LOW_HALF;
    proof {
        lemma_fundamental_div_mod(ll as int, bb);
        lemma_mod_bound(ll as int, bb);
        lemma_fundamental_div_mod(lh as int, bb);
        lemma_mod_bound(lh as int, bb);
        lemma_fundamental_div_mod(hl as int, bb);
        lemma_mod_bound(hl as int, bb);
        assert(llh <= bb - 2 && lhh <= bb - 2 && hlh <= bb - 2) by (nonlinear_arith)
            requires
                ll as int == bb * (llh as int) + (lll as int),
                lh as int == bb * (lhh as int) + (lhl as int),
                hl as int == bb * (hlh as int) + (hll as int),
                0 <= lll < bb,
                0 <= lhl < bb,
                0 <= hll < bb,
                ll as int <= (bb - 1) * (bb - 1),
                lh as int <= (bb - 1) * (bb - 1),
                hl as int <= (bb - 1) * (bb - 1),
                bb == 0x10000000000000000,
        ;
    }
    let m1 = llh + lhl + hll;
    let m1h = m1 / LOW_HALF;
    let m1l = m1 % LOW_HALF;
    proof {
        lemma_fundamental_div_mod(m1 as int, bb);
        lemma_mod_bound(m1 as int, bb);
        assert(m1h <= 2) by (nonlinear_arith)
            requires
                m1 as int == bb * (m1h as int) + (m1l as int),
                0 <= m1l < bb,
                m1 as int <= 3 * bb - 4,
                bb == 0x10000000000000000,
        ;
        assert((m1l as int) * bb <= (bb - 1) * bb) by (nonlinear_arith)
            requires
                0 <= m1l < bb,
                bb == 0x10000000000000000,
        ;
        assert((bb - 1) * bb + bb - 1 < 0x100000000000000000000000000000000int) by (nonlinear_arith)
            requires
                bb == 0x10000000000000000,
        ;
    }
    let lo = lll + m1l * LOW_HALF;
    proof {
        assert((hh as int) + (lhh as int) + (hlh as int) + (m1h as int)
            < 0x100000000000000000000000000000000int) by (nonlinear_arith)
            requires
                hh as int <= (bb - 1) * (bb - 1),
                lhh as int <= bb - 2,
                hlh as int <= bb - 2,
                m1h as int <= 2,
                bb == 0x10000000000000000,
        ;
    }
    let hi = hh + lhh + hlh + m1h;
    proof {
        assert((hi as int) * 0x100000000000000000000000000000000int + (lo as int) == (a as int) * (
        b as int)) by (nonlinear_arith)
            requires
                a as int == bb * (ah as int) + (al as int),
                b as int == bb * (bh as int) + (bl as int),
                ll as int == (al as int) * (bl as int),
                lh as int == (al as int) * (bh as int),
                hl as int == (ah as int) * (bl as int),
                hh as int == (ah as int) * (bh as int),
                ll as int == bb * (llh as int) + (lll as int),
                lh as int == bb * (lhh as int) + (lhl as int),
                hl as int == bb * (hlh as int) + (hll as int),
                m1 as int == (llh as int) + (lhl as int) + (hll as int),
                m1 as int == bb * (m1h as int) + (m1l as int),
                lo as int == (lll as int) + (m1l as int) * bb,
                hi as int == (hh as int) + (lhh as int) + (hlh as int) + (m1h as int),
                bb == 0x10000000000000000,
        ;
        assert((lo as int) < 0x100000000000000000000000000000000int) by (nonlinear_arith)
            requires
                lo as int <= (bb - 1) + (bb - 1) * bb,
                bb == 0x10000000000000000,
        ;
    }
    (hi, lo)
}

/// Whether `da * da * wb >= db * db * wa`: compares two between-class
/// variances written as exact fractions `d^2 / w` by cross-multiplying in
/// 256-bit arithmetic.
fn sq_mul_ge(da: u128, wa: u128, db: u128, wb: u128) -> (r: bool)
    requires
        da < 0x10000000000000000000000,
        db < 0x10000000000000000000000,
        wa < 0x100000000000000000000,
        wb < 0x100000000000000000000,
    ensures
        r == ((da as int) * (da as int) * (wb as int) >= (db as int) * (db as int) * (wa as int)),
{
    let ghost pp: int = 0x100000000000000000000000000000000int;
    let (sah, sal) = mul_u128(da, da);
    let (sbh, sbl) = mul_u128(db, db);
    let (xc2h, xc2l) = mul_u128(sah, wb);
    let (xc1h, xc1l) = mul_u128(sal, wb);
    let (yc2h, yc2l) = mul_u128(sbh, wa);
    let (yc1h, yc1l) = mul_u128(sbl, wa);
    proof {
        // the high halves of the squares are small, so the top products fit
        assert((sah as int) < 0x1000000000000 && (sbh as int) < 0x1000000000000)
            by (nonlinear_arith)
            requires
                (sah as int) * pp + (sal as int) == (da as int) * (da as int),
                (sbh as int) * pp + (sbl as int) == (db as int) * (db as int),
                0 <= sal,
                0 <= sbl,
                da < 0x10000000000000000000000,
                db < 0x10000000000000000000000,
                pp == 0x100000000000000000000000000000000int,
        ;
        assert(xc2h == 0 && yc2h == 0) by (nonlinear_arith)
            requires
                (xc2h as int) * pp + (xc2l as int) == (sah as int) * (wb as int),
                (yc2h as int) * pp + (yc2l as int) == (sbh as int) * (wa as int),
                0 <= xc2l,
                0 <= yc2l,
                (sah as int) < 0x1000000000000,
                (sbh as int) < 0x1000000000000,
                wa < 0x100000000000000000000,
                wb < 0x100000000000000000000,
                pp == 0x100000000000000000000000000000000int,
        ;
        assert((xc2l as int) * pp + (xc1h as int) * pp + (xc1l as int) == (da as int) * (da as int)
            * (wb as int) && (yc2l as int) * pp + (yc1h as int) * pp + (yc1l as int) == (db as int)
            * (db as int) * (wa as int)) by (nonlinear_arith)
            requires
                (sah as int) * pp + (sal as int) == (da as int) * (da as int),
                (sbh as int) * pp + (sbl as int) == (db as int) * (db as int),
                (xc2h as int) * pp + (xc2l as int) == (sah as int) * (wb as int),
                (xc1h as int) * pp + (xc1l as int) == (sal as int) * (wb as int),
                (yc2h as int) * pp + (yc2l as int) == (sbh as int) * (wa as int),
                (yc1h as int) * pp + (yc1l as int) == (sbl as int) * (wa as int),
                xc2h == 0,
                yc2h == 0,
                pp == 0x100000000000000000000000000000000int,
        ;
        assert((da as int) * (da as int) * (wb as int) < pp * pp && (db as int) * (db as int) * (
        wa as int) < pp * pp) by (nonlinear_arith)
            requires
                da < 0x10000000000000000000000,
                db < 0x10000000000000000000000,
                wa < 0x100000000000000000000,
                wb < 0x100000000000000000000,
                pp == 0x100000000000000000000000000000000int,
        ;
        assert((xc2l as int) + (xc1h as int) < pp && (yc2l as int) + (yc1h as int) < pp)
            by (nonlinear_arith)
            requires
                (xc2l as int) * pp + (xc1h as int) * pp + (xc1l as int) == (da as int) * (
                da as int) * (wb as int),
                (yc2l as int) * pp + (yc1h as int) * pp + (yc1l as int) == (db as int) * (
                db as int) * (wa as int),
                (da as int) * (da as int) * (wb as int) < pp * pp,
                (db as int) * (db as int) * (wa as int) < pp * pp,
                0 <= xc1l,
                0 <= yc1l,
                0 <= xc2l,
                0 <= yc2l,
                0 <= xc1h,
                0 <= yc1h,
                pp == 0x100000000000000000000000000000000int,
        ;
    }
    let xh = xc2l + xc1h;
    let xl = xc1l;
    let yh = yc2l + yc1h;
    let yl = yc1l;
    proof {
        assert((xh as int) * pp + (xl as int) == (da as int) * (da as int) * (wb as int) && (
        yh as int) * pp + (yl as int) == (db as int) * (db as int) * (wa as int))
            by (nonlinear_arith)
            requires
                (xc2l as int) * pp + (xc1h as int) * pp + (xc1l as int) == (da as int) * (
                da as int) * (wb as int),
                (yc2l as int) * pp + (yc1h as int) * pp + (yc1l as int) == (db as int) * (
                db as int) * (wa as int),
                xh as int == (xc2l as int) + (xc1h as int),
                yh as int == (yc2l as int) + (yc1h as int),
                xl == xc1l,
                yl == yc1l,
                pp == 0x100000000000000000000000000000000int,
        ;
        // a 256-bit comparison is lexicographic on the halves
        assert(((xh as int) * pp + (xl as int) >= (yh as int) * pp + (yl as int)) == ((xh > yh) || (
        xh == yh && xl >= yl))) by (nonlinear_arith)
            requires
                xl < pp,
                yl < pp,
                xh >= 0,
                yh >= 0,
                pp == 0x100000000000000000000000000000000int,
        ;
    }
    (xh > yh) || (xh == yh && xl >= yl)
}

/// Sum of the first `t` buckets.
pub open spec fn hist_sum(h: Seq<u32>, t: int) -> int
    decreases t,
{
    if t <= 0 {
        0
    } else {
        hist_sum(h, t - 1) + h[t - 1]
    }
}

/// Weighted sum (bucket value times count) of the first `t` buckets.
pub open spec fn hist_moment(h: Seq<u32>, t: int) -> int
    decreases t,
{
    if t <= 0 {
        0
    } else {
        hist_moment(h, t - 1) + h[t - 1] * (t - 1)
    }
}

/// Candidate threshold `t` splits the histogram into two nonempty classes.
pub open spec fn valid_threshold(h: Seq<u32>, t: int) -> bool {
    &&& 1 <= t < 256
    &&& hist_sum(h, t) > 0
    &&& hist_sum(h, 256) - hist_sum(h, t) > 0
}

/// Numerator of the between-class mean difference at `t`, scaled by both
/// class weights: `mu0' * omega1 - mu1' * omega0`.
pub open spec fn spec_dd(h: Seq<u32>, t: int) -> int {
    hist_moment(h, t) * (hist_sum(h, 256) - hist_sum(h, t)) - (hist_moment(h, 256) - hist_moment(
        h,
        t,
    )) * hist_sum(h, t)
}

/// Product of the two class weights at `t`.
pub open spec fn spec_weight(h: Seq<u32>, t: int) -> int {
    hist_sum(h, t) * (hist_sum(h, 256) - hist_sum(h, t))
}

/// The between-class variance at `t` is at least the one at `u`:
/// `dd(t)^2 / weight(t) >= dd(u)^2 / weight(u)`, cross-multiplied.
pub open spec fn sigma_ge(h: Seq<u32>, t: int, u: int) -> bool {
    spec_dd(h, t) * spec_dd(h, t) * spec_weight(h, u) >= spec_dd(h, u) * spec_dd(h, u)
        * spec_weight(h, t)
}

proof fn lemma_hist_bounds(h: Seq<u32>, t: int)
    requires
        0 <= t <= 256,
        t <= h.len(),
    ensures
        0 <= hist_sum(h, t) <= t * 0xFFFFFFFF,
        0 <= hist_moment(h, t) <= 255 * hist_sum(h, t),
    decreases t,
{
    if t > 0 {
        lemma_hist_bounds(h, t - 1);
        assert(h[t - 1] * (t - 1) <= h[t - 1] * 255) by (nonlinear_arith)
            requires
                0 <= t - 1 <= 255,
                h[t - 1] >= 0,
        ;
        assert(h[t - 1] * (t - 1) >= 0) by (nonlinear_arith)
            requires
                0 <= t - 1,
                h[t - 1] >= 0,
        ;
    }
}

proof fn lemma_hist_sum_mono(h: Seq<u32>, t1: int, t2: int)
    requires
        0 <= t1 <= t2,
    ensures
        hist_sum(h, t1) <= hist_sum(h, t2),
        hist_moment(h, t1) <= hist_moment(h, t2),
    decreases t2,
{
    if t1 < t2 {
        lemma_hist_sum_mono(h, t1, t2 - 1);
        assert(h[t2 - 1] * (t2 - 1) >= 0) by (nonlinear_arith)
            requires
                0 <= t2 - 1,
                h[t2 - 1] >= 0,
        ;
    }
}

/// The exact variance comparison is transitive through any candidate whose
/// weight is positive.
proof fn lemma_sigma_ge_trans(h: Seq<u32>, t: int, b: int, u: int)
    requires
        sigma_ge(h, t, b),
        sigma_ge(h, b, u),
        spec_weight(h, b) > 0,
        spec_weight(h, t) >= 0,
        spec_weight(h, u) >= 0,
    ensures
        sigma_ge(h, t, u),
{
    let a1 = spec_dd(h, t) * spec_dd(h, t);
    let a2 = spec_dd(h, b) * spec_dd(h, b);
    let a3 = spec_dd(h, u) * spec_dd(h, u);
    let wt = spec_weight(h, t);
    let wb = spec_weight(h, b);
    let wu = spec_weight(h, u);
    assert(a1 >= 0 && a2 >= 0 && a3 >= 0) by (nonlinear_arith)
        requires
            a1 == spec_dd(h, t) * spec_dd(h, t),
            a2 == spec_dd(h, b) * spec_dd(h, b),
            a3 == spec_dd(h, u) * spec_dd(h, u),
    ;
    assert(a1 * wu >= a3 * wt) by (nonlinear_arith)
        requires
            a1 * wb >= a2 * wt,
            a2 * wu >= a3 * wb,
            wb > 0,
            wt >= 0,
            wu >= 0,
            a1 >= 0,
            a2 >= 0,
            a3 >= 0,
    ;
}

proof fn lemma_weight_pos(h: Seq<u32>, t: int)
    requires
        valid_threshold(h, t),
    ensures
        spec_weight(h, t) > 0,
{
    assert(hist_sum(h, t) * (hist_sum(h, 256) - hist_sum(h, t)) > 0) by (nonlinear_arith)
        requires
            hist_sum(h, t) > 0,
            hist_sum(h, 256) - hist_sum(h, t) > 0,
    ;
}

/// Finds the threshold maximizing the between-class variance of the first
/// 256 buckets (Otsu's method), sweeping candidates with incrementally
/// updated class sums. Returns `None` exactly when every candidate leaves
/// one class empty (a uniform histogram); among candidates of equal
/// variance the largest wins.
pub fn find_threshold(histogram: &Vec<u32>) -> (r: Option<usize>)
    requires
        histogram@.len() >= 256,
    ensures
        r is None <==> (forall|t: int| !valid_threshold(histogram@, t)),
        r matches Some(t) ==> {
            &&& valid_threshold(histogram@, t as int)
            &&& (forall|u: int|
                valid_threshold(histogram@, u) ==> sigma_ge(histogram@, t as int, u))
            &&& (forall|u: int|
                valid_threshold(histogram@, u) && u > t ==> !sigma_ge(histogram@, u, t as int))
        },
{
    let ghost h = histogram@;
    let mut total: u64 = 0;
    let mut m_total: u64 = 0;
    let mut i: usize = 0;
    while i < 256
        invariant
            histogram@.len() >= 256,
            h == histogram@,
            i <= 256,
            total == hist_sum(h, i as int),
            m_total == hist_moment(h, i as int),
            total <= i * 0xFFFFFFFF,
            m_total <= 255 * total,
        decreases 256 - i,
    {
        proof {
            lemma_hist_bounds(h, i as int + 1);
            lemma_hist_bounds(h, i as int);
            assert(h[i as int] * (i as int) <= 0xFFFFFFFF * 255) by (nonlinear_arith)
                requires
                    0 <= h[i as int] <= 0xFFFFFFFF,
                    0 <= i < 256,
            ;
        }
        total = total + (histogram[i] as u64);
        m_total = m_total + (histogram[i] as u64) * (i as u64);
        i = i + 1;
    }

    let mut omega0: u64 = 0;
    let mut mu0p: u64 = 0;
    let mut have_best = false;
    let mut bt: usize = 0;
    let mut bda: u128 = 0;
    let mut bw: u128 = 0;
    let mut t: usize = 1;
    while t < 256
        invariant
            histogram@.len() >= 256,
            h == histogram@,
            1 <= t <= 256,
            total == hist_sum(h, 256),
            m_total == hist_moment(h, 256),
            total <= 256 * 0xFFFFFFFF,
            m_total <= 255 * total,
            omega0 == hist_sum(h, t as int - 1),
            mu0p == hist_moment(h, t as int - 1),
            omega0 <= total,
            mu0p <= m_total,
            !have_best ==> (forall|u: int| u < t ==> !valid_threshold(h, u)),
            have_best ==> {
                &&& 1 <= bt < t
                &&& valid_threshold(h, bt as int)
                &&& (bda as int) * (bda as int) == spec_dd(h, bt as int) * spec_dd(h, bt as int)
                &&& bw == spec_weight(h, bt as int)
                &&& bda < 0x10000000000000000000000
                &&& bw < 0x100000000000000000000
                &&& (forall|u: int|
                    u < t && valid_threshold(h, u) ==> sigma_ge(h, bt as int, u))
                &&& (forall|u: int|
                    u < t && valid_threshold(h, u) && u > bt ==> !sigma_ge(h, u, bt as int))
            },
        decreases 256 - t,
    {
        proof {
            lemma_hist_bounds(h, t as int);
            lemma_hist_bounds(h, t as int - 1);
            lemma_hist_sum_mono(h, t as int, 256);
            assert(h[t as int - 1] * (t as int - 1) >= 0) by (nonlinear_arith)
                requires
                    0 <= t as int - 1,
                    h[t as int - 1] >= 0,
            ;
        }
        let bucket = histogram[t - 1] as u64;
        let dmu = bucket * ((t - 1) as u64);
        proof {
            assert(bucket * (t as int - 1) <= 0xFFFFFFFF * 255) by (nonlinear_arith)
                requires
                    0 <= bucket <= 0xFFFFFFFF,
                    0 <= t as int - 1 <= 255,
            ;
        }
        let omega0n = omega0 + bucket;
        let mu0pn = mu0p + dmu;
        omega0 = omega0n;
        mu0p = mu0pn;
        let omega1 = total - omega0;
        let mu1p = m_total - mu0p;
        proof {
            lemma_hist_sum_mono(h, t as int, 256);
        }
        if omega0 != 0 && omega1 != 0 {
            proof {
                assert(mu1p <= 255 * total && omega1 <= total);
                assert(0 <= mu0p <= 0xFEFFFFFF0100 && 0 <= mu1p <= 0xFEFFFFFF0100 && 0 <= omega0
                    <= 0xFFFFFFFF00 && 0 <= omega1 <= 0xFFFFFFFF00) by (nonlinear_arith)
                    requires
                        mu0p <= 255 * total,
                        mu1p <= 255 * total,
                        omega0 <= total,
                        omega1 <= total,
                        total <= 256 * 0xFFFFFFFF,
                ;
                assert((mu0p as int) * (omega1 as int) <= 0xFEFFFFFF0100 * 0xFFFFFFFF00 && (
                mu1p as int) * (omega0 as int) <= 0xFEFFFFFF0100 * 0xFFFFFFFF00 && (
                mu0p as int) * (omega1 as int) >= 0 && (mu1p as int) * (omega0 as int) >= 0)
                    by (nonlinear_arith)
                    requires
                        0 <= mu0p <= 0xFEFFFFFF0100,
                        0 <= mu1p <= 0xFEFFFFFF0100,
                        0 <= omega0 <= 0xFFFFFFFF00,
                        0 <= omega1 <= 0xFFFFFFFF00,
                ;
                assert((omega0 as int) * (omega1 as int) < 0x100000000000000000000 && (
                omega0 as int) * (omega1 as int) > 0) by (nonlinear_arith)
                    requires
                        0 < omega0 <= 0xFFFFFFFF00,
                        0 < omega1 <= 0xFFFFFFFF00,
                ;
            }
            // exact integer form of the between-class variance at t
            let dd: i128 = (mu0p as i128) * (omega1 as i128) - (mu1p as i128) * (omega0 as i128);
            let da: u128 = if dd >= 0 {
                dd as u128
            } else {
                (-dd) as u128
            };
            let wcur: u128 = (omega0 as u128) * (omega1 as u128);
            proof {
                assert((da as int) < 0x10000000000000000000000) by (nonlinear_arith)
                    requires
                        (da as int) == (dd as int) || (da as int) == -(dd as int),
                        (dd as int) == (mu0p as int) * (omega1 as int) - (mu1p as int) * (
                        omega0 as int),
                        (mu0p as int) * (omega1 as int) <= 0xFEFFFFFF0100 * 0xFFFFFFFF00,
                        (mu1p as int) * (omega0 as int) <= 0xFEFFFFFF0100 * 0xFFFFFFFF00,
                        (mu0p as int) * (omega1 as int) >= 0,
                        (mu1p as int) * (omega0 as int) >= 0,
                ;
                // da is the magnitude of dd, so their squares agree
                assert((da as int) * (da as int) == (dd as int) * (dd as int))
                    by (nonlinear_arith)
                    requires
                        da == dd || (da as int) == -(dd as int),
                ;
                assert(dd == spec_dd(h, t as int));
                assert(wcur == spec_weight(h, t as int));
                assert(valid_threshold(h, t as int));
            }
            let take_it = if !have_best {
                true
            } else {
                sq_mul_ge(da, wcur, bda, bw)
            };
            if take_it {
                proof {
                    if have_best {
                        assert(sigma_ge(h, t as int, bt as int));
                        assert forall|u: int|
                            u < t + 1 && valid_threshold(h, u) implies sigma_ge(
                            h,
                            t as int,
                            u,
                        ) by {
                            if u < t {
                                lemma_weight_pos(h, bt as int);
                                lemma_weight_pos(h, u);
                                lemma_weight_pos(h, t as int);
                                lemma_sigma_ge_trans(h, t as int, bt as int, u);
                            }
                        }
                    }
                }
                have_best = true;
                bt = t;
                bda = da;
                bw = wcur;
            } else {
                proof {
                    assert(!sigma_ge(h, t as int, bt as int));
                    assert(sigma_ge(h, bt as int, t as int));
                }
            }
        }
        t = t + 1;
    }
    if have_best {
        Some(bt)
    } else {
        None
    }
}

/// Occurrences of `v` in `s`.
pub open spec fn count_byte(s: Seq<u8>, v: u8) -> nat
    decreases s.len(),
{
    if s.len() == 0 {
        0
    } else {
        count_byte(s.drop_last(), v) + (if s.last() == v {
            1nat
        } else {
            0nat
        })
    }
}

proof fn lemma_count_take_step(s: Seq<u8>, k: int, v: u8)
    requires
        0 <= k < s.len(),
    ensures
        count_byte(s.take(k + 1), v) == count_byte(s.take(k), v) + (if s[k] == v {
            1nat
        } else {
            0nat
        }),
{
    assert(s.take(k + 1).drop_last() =~= s.take(k));
}

proof fn lemma_count_take_le(s: Seq<u8>, k: int, v: u8)
    requires
        0 <= k <= s.len(),
    ensures
        count_byte(s.take(k), v) <= count_byte(s, v),
    decreases s.len() - k,
{
    if k == s.len() {
        assert(s.take(k) =~= s);
    } else {
        lemma_count_take_step(s, k, v);
        lemma_count_take_le(s, k + 1, v);
    }
}

/// Single pass over a pixel stream into 256 luma buckets: bucket `v` grows
/// by the number of occurrences of `v`; buckets past 255 are untouched.
pub fn accumulate_histogram(out: &mut Vec<u32>, values: &Vec<u8>)
    requires
        old(out)@.len() >= 256,
        forall|v: int|
            0 <= v < 256 ==> old(out)@[v] + count_byte(values@, v as u8) <= u32::MAX,
    ensures
        final(out)@.len() == old(out)@.len(),
        forall|v: int|
            0 <= v < 256 ==> final(out)@[v] == old(out)@[v] + count_byte(values@, v as u8),
        forall|v: int| 256 <= v < final(out)@.len() ==> final(out)@[v] == old(out)@[v],
{
    let mut k: usize = 0;
    while k < values.len()
        invariant
            out@.len() == old(out)@.len(),
            old(out)@.len() >= 256,
            k <= values@.len(),
            forall|v: int|
                0 <= v < 256 ==> old(out)@[v] + count_byte(values@, v as u8) <= u32::MAX,
            forall|v: int|
                0 <= v < 256 ==> out@[v] == old(out)@[v] + count_byte(
                    values@.take(k as int),
                    v as u8,
                ),
            forall|v: int| 256 <= v < out@.len() ==> out@[v] == old(out)@[v],
        decreases values@.len() - k,
    {
        let b = values[k];
        proof {
            lemma_count_take_step(values@, k as int, b);
            lemma_count_take_le(values@, k as int + 1, b);
            assert forall|v: int| 0 <= v < 256 && v != b implies #[trigger] count_byte(
                values@.take(k as int + 1),
                v as u8,
            ) == count_byte(values@.take(k as int), v as u8) by {
                lemma_count_take_step(values@, k as int, v as u8);
            }
        }
        let cur = out[b as usize];
        out[b as usize] = cur + 1;
        k = k + 1;
    }
    proof {
        assert(values@.take(values@.len() as int) =~= values@);
    }
}

/// Histogram-equalization transfer map: `out[v]` becomes the running
/// fraction of pixels below luma `v`, scaled to the byte range and capped
/// at 255. An all-zero histogram leaves the map untouched.
pub fn equalization_map(out: &mut Vec<u8>, histogram: &Vec<u32>)
    requires
        old(out)@.len() == 256,
        histogram@.len() >= 256,
        hist_sum(histogram@, 256) <= u32::MAX,
    ensures
        final(out)@.len() == 256,
        hist_sum(histogram@, 256) == 0 ==> final(out)@ == old(out)@,
        hist_sum(histogram@, 256) > 0 ==> (forall|i: int|
            0 <= i < 256 ==> (#[trigger] final(out)@[i]) as int == ({
                let q = hist_sum(histogram@, i) * 256 / hist_sum(histogram@, 256);
                if q > 255 {
                    255
                } else {
                    q
                }
            })),
{
    let ghost h = histogram@;
    let mut sum: u32 = 0;
    let mut i: usize = 0;
    while i < 256
        invariant
            h == histogram@,
            histogram@.len() >= 256,
            hist_sum(h, 256) <= u32::MAX,
            i <= 256,
            sum == hist_sum(h, i as int),
        decreases 256 - i,
    {
        proof {
            lemma_hist_sum_mono(h, i as int + 1, 256);
        }
        sum = sum + histogram[i];
        i = i + 1;
    }
    if sum == 0 {
        // avoid zero division
        return ;
    }
    let mut partial: u64 = 0;
    let mut j: usize = 0;
    while j < 256
        invariant
            h == histogram@,
            histogram@.len() >= 256,
            out@.len() == 256,
            hist_sum(h, 256) <= u32::MAX,
            sum == hist_sum(h, 256),
            sum > 0,
            j <= 256,
            partial == hist_sum(h, j as int),
            partial <= sum,
            forall|i2: int|
                0 <= i2 < j ==> (#[trigger] out@[i2]) as int == ({
                    let q = hist_sum(h, i2) * 256 / hist_sum(h, 256);
                    if q > 255 {
                        255
                    } else {
                        q
                    }
                }),
        decreases 256 - j,
    {
        let q = partial * 256 / (sum as u64);
        let luma: u8 = if q > 255 {
            255
        } else {
            q as u8
        };
        out[j] = luma;
        proof {
            lemma_hist_sum_mono(h, j as int + 1, 256);
        }
        partial = partial + (histogram[j] as u64);
        j = j + 1;
    }
}

/// Index of the first bucket at which the running total reaches half of
/// the histogram's mass.
pub fn median(histogram: &Vec<u32>) -> (r: usize)
    requires
        histogram@.len() >= 1,
        hist_sum(histogram@, histogram@.len() as int) <= u32::MAX,
    ensures
        r < histogram@.len(),
        2 * hist_sum(histogram@, r as int + 1) >= hist_sum(histogram@, histogram@.len() as int),
        forall|i: int|
            0 <= i < r ==> 2 * #[trigger] hist_sum(histogram@, i + 1) < hist_sum(
                histogram@,
                histogram@.len() as int,
            ),
{
    let ghost h = histogram@;
    let n = histogram.len();
    let mut sum: u32 = 0;
    let mut i: usize = 0;
    while i < n
        invariant
            h == histogram@,
            n == histogram@.len(),
            hist_sum(h, n as int) <= u32::MAX,
            i <= n,
            sum == hist_sum(h, i as int),
        decreases n - i,
    {
        proof {
            lemma_hist_sum_mono(h, i as int + 1, n as int);
        }
        sum = sum + histogram[i];
        i = i + 1;
    }
    let mut partial: u64 = 0;
    let mut j: usize = 0;
    while j < n
        invariant
            h == histogram@,
            n == histogram@.len(),
            n >= 1,
            hist_sum(h, n as int) <= u32::MAX,
            sum == hist_sum(h, n as int),
            j <= n,
            partial == hist_sum(h, j as int),
            partial <= sum,
            forall|i2: int| 0 <= i2 < j ==> 2 * #[trigger] hist_sum(h, i2 + 1) < sum,
        decreases n - j,
    {
        proof {
            lemma_hist_sum_mono(h, j as int + 1, n as int);
        }
        partial = partial + (histogram[j] as u64);
        if 2 * partial >= (sum as u64) {
            return j;
        }
        j = j + 1;
    }
    proof {
        lemma_hist_sum_mono(h, 0, n as int);
        assert(2 * hist_sum(h, (n - 1) as int + 1) < sum);
        assert(false);
    }
    vstd::pervasive::unreached()
}

} // verus!
