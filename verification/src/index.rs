//! Build-time index construction: turns an ordered glyph catalog into a
//! total fragment-to-glyph assignment by approximate nearest-pattern search.
//!
//! Construction seeds every exact catalog pattern at distance 0 (first entry
//! wins on duplicates), then runs two breadth-first phases: a
//! dilation-biased phase that only sets zero bits lying next to a foreground
//! bit, and an exhaustive completion phase that flips any single bit. Every
//! produced value inherits the glyph of the value it was derived from, one
//! distance deeper, and an assignment is never overwritten.
use vstd::arithmetic::power2::{lemma2_to64, lemma_pow2_adds, pow2};
use vstd::prelude::*;

use crate::bits::bit64;
use crate::glyphsets::frag_count;

verus! {

/// A glyph assignment produced by the index builder: which catalog entry a
/// fragment maps to, and the search depth at which it was first covered.
#[derive(Clone, Copy)]
pub struct IndexEntry {
    pub glyph_i: usize,
    pub distance: usize,
}

/// One catalog line: glyph text plus the exact bit pattern it depicts, in
/// visual writing order (most significant bit = top-left pixel).
pub struct CatalogEntry {
    pub glyph: String,
    pub pattern: u64,
}

/// Value of the first `i` bits of `mask` reversed: bit `k` of `mask`
/// contributes weight `2^(i-1-k)`.
pub open spec fn decode_rec(mask: u64, i: nat) -> nat
    decreases i,
{
    if i == 0 {
        0
    } else {
        2 * decode_rec(mask, (i - 1) as nat) + (if bit64(mask, (i - 1) as u64) {
            1nat
        } else {
            0nat
        })
    }
}

/// Canonical bit order of a catalog pattern: the low `wh` bits reversed, so
/// that bit 0 becomes the top-left pixel.
pub open spec fn decode_spec(mask: u64, wh: nat) -> nat {
    decode_rec(mask, wh)
}

pub proof fn lemma_decode_bound(mask: u64, i: nat)
    ensures
        decode_rec(mask, i) < pow2(i),
    decreases i,
{
    if i == 0 {
        lemma2_to64();
    } else {
        lemma_decode_bound(mask, (i - 1) as nat);
        lemma_pow2_adds((i - 1) as nat, 1);
        lemma2_to64();
    }
}

/// Converts a pattern from its visual writing-order serialization to
/// canonical bit order (bit 0 = top-left, row-major).
pub fn decode_mask(mask: u64, wh: usize) -> (r: u64)
    requires
        wh <= 9,
    ensures
        r as nat == decode_spec(mask, wh as nat),
        r < 512,
{
    let mut r: u64 = 0;
    let mut i: usize = 0;
    while i < wh
        invariant
            i <= wh,
            wh <= 9,
            r as nat == decode_rec(mask, i as nat),
            r < 512,
        decreases wh - i,
    {
        proof {
            lemma_decode_bound(mask, i as nat);
            lemma2_to64();
            vstd::arithmetic::power2::lemma_pow2_strictly_increases(i as nat, 9);
        }
        r = r * 2 + (if (mask >> (i as u64)) & 1 == 1 {
            1
        } else {
            0
        });
        i = i + 1;
    }
    proof {
        lemma_decode_bound(mask, wh as nat);
        lemma2_to64();
        if (wh as nat) < 9 {
            vstd::arithmetic::power2::lemma_pow2_strictly_increases(wh as nat, 9);
        }
    }
    r
}

/// A pattern decodes to the all-ones fragment exactly when its low `i`
/// bits are all set.
pub proof fn lemma_decode_all_ones(mask: u64, i: nat)
    requires
        i <= 9,
    ensures
        (decode_rec(mask, i) == pow2(i) - 1) == (forall|k: u64| k < i ==> bit64(mask, k)),
    decreases i,
{
    lemma2_to64();
    if i > 0 {
        lemma_decode_all_ones(mask, (i - 1) as nat);
        lemma_decode_bound(mask, (i - 1) as nat);
        lemma_pow2_adds((i - 1) as nat, 1);
        if decode_rec(mask, i) == pow2(i) - 1 {
            assert(decode_rec(mask, (i - 1) as nat) == pow2((i - 1) as nat) - 1 && bit64(
                mask,
                (i - 1) as u64,
            ));
            assert forall|k: u64| k < i implies bit64(mask, k) by {
                if k < (i - 1) as u64 {
                }
            }
        }
        if forall|k: u64| k < i ==> bit64(mask, k) {
            assert(bit64(mask, (i - 1) as u64));
            assert(forall|k: u64| k < (i - 1) as nat ==> bit64(mask, k));
        }
    }
}

/// A pattern with no low bits set decodes to zero.
pub proof fn lemma_decode_zero(mask: u64, i: nat)
    requires
        forall|k: u64| k < i ==> !bit64(mask, k),
    ensures
        decode_rec(mask, i) == 0,
    decreases i,
{
    if i > 0 {
        lemma_decode_zero(mask, (i - 1) as nat);
    }
}

/// Catalog entry `j` is the first one whose decoded pattern equals its own.
pub open spec fn is_first_pattern(entries: Seq<CatalogEntry>, wh: nat, j: int) -> bool {
    forall|k: int|
        0 <= k < j ==> decode_spec(entries[k].pattern, wh) != decode_spec(
            entries[j].pattern,
            wh,
        )
}

proof fn lemma_first_exists(entries: Seq<CatalogEntry>, wh: nat, k: int) -> (j: int)
    requires
        0 <= k < entries.len(),
    ensures
        0 <= j <= k,
        is_first_pattern(entries, wh, j),
        decode_spec(entries[j].pattern, wh) == decode_spec(entries[k].pattern, wh),
    decreases k,
{
    if is_first_pattern(entries, wh, k) {
        k
    } else {
        let k2 = choose|k2: int|
            0 <= k2 < k && decode_spec(entries[k2].pattern, wh) == decode_spec(
                entries[k].pattern,
                wh,
            );
        lemma_first_exists(entries, wh, k2)
    }
}

/// Number of assigned slots of a table.
pub open spec fn count_some(s: Seq<Option<IndexEntry>>) -> nat
    decreases s.len(),
{
    if s.len() == 0 {
        0
    } else {
        count_some(s.drop_last()) + (if s.last() is Some {
            1nat
        } else {
            0nat
        })
    }
}

proof fn lemma_count_some_le(s: Seq<Option<IndexEntry>>)
    ensures
        count_some(s) <= s.len(),
    decreases s.len(),
{
    if s.len() > 0 {
        lemma_count_some_le(s.drop_last());
    }
}

proof fn lemma_count_some_update(s: Seq<Option<IndexEntry>>, i: int, e: IndexEntry)
    requires
        0 <= i < s.len(),
        s[i] is None,
    ensures
        count_some(s.update(i, Some(e))) == count_some(s) + 1,
    decreases s.len(),
{
    let s2 = s.update(i, Some(e));
    if i == s.len() - 1 {
        assert(s2.drop_last() =~= s.drop_last());
    } else {
        assert(s2.drop_last() =~= s.drop_last().update(i, Some(e)));
        lemma_count_some_update(s.drop_last(), i, e);
    }
}

/// Bit positions `p` and `q` are orthogonal neighbors of a `w` by `h` grid
/// read in row-major order.
pub open spec fn ortho_adjacent(w: int, h: int, p: int, q: int) -> bool {
    let px = p % w;
    let py = p / w;
    let qx = q % w;
    let qy = q / w;
    &&& 0 <= p < w * h
    &&& 0 <= q < w * h
    &&& {
        ||| (qx == px + 1 && qy == py)
        ||| (qx + 1 == px && qy == py)
        ||| (qx == px && qy == py + 1)
        ||| (qx == px && qy + 1 == py)
    }
}

/// The dilation-biased mutation: `v` arises from `u` by setting one zero bit
/// that has an orthogonal foreground neighbor; a one bit is never cleared.
pub open spec fn dilation_move(w: int, h: int, u: u64, v: u64) -> bool {
    exists|p: u64|
        #![auto]
        {
            &&& p < w * h
            &&& !bit64(u, p)
            &&& (exists|q: u64|
                #![auto]
                q < w * h && ortho_adjacent(w, h, p as int, q as int) && bit64(u, q))
            &&& v == u | (1u64 << p)
        }
}

/// The unrestricted mutation: `v` arises from `u` by flipping any single bit.
pub open spec fn flip_move(wh: int, u: u64, v: u64) -> bool {
    exists|p: u64| #![auto] p < wh && v == (u ^ (1u64 << p))
}

/// `t2` extends `t1`: same length, and every assignment of `t1` is unchanged.
pub open spec fn extends(t2: Seq<Option<IndexEntry>>, t1: Seq<Option<IndexEntry>>) -> bool {
    &&& t2.len() == t1.len()
    &&& forall|v: int| 0 <= v < t1.len() && t1[v] is Some ==> t2[v] == t1[v]
}

/// Every assigned entry points at a valid catalog line.
pub open spec fn glyphs_ok(t: Seq<Option<IndexEntry>>, n_entries: nat) -> bool {
    forall|v: int|
        0 <= v < t.len() ==> ((#[trigger] t[v]) matches Some(e) ==> e.glyph_i < n_entries)
}

/// Every assigned distance is at most `d`.
pub open spec fn dist_le(t: Seq<Option<IndexEntry>>, d: int) -> bool {
    forall|v: int| 0 <= v < t.len() ==> ((#[trigger] t[v]) matches Some(e) ==> e.distance <= d)
}

/// Derivation soundness: every entry of positive distance has a generator
/// one step shallower carrying the same glyph, related by one of the two
/// mutation moves.
pub open spec fn derived_ok(t: Seq<Option<IndexEntry>>, w: int, h: int) -> bool {
    forall|v: u64|
        v < t.len() ==> ((#[trigger] t[v as int]) matches Some(e) ==> (e.distance >= 1
            ==> derived_from_some(t, w, h, v, e)))
}

/// Fragment `v` with entry `e` has a generator in `t`.
pub open spec fn derived_from_some(
    t: Seq<Option<IndexEntry>>,
    w: int,
    h: int,
    v: u64,
    e: IndexEntry,
) -> bool {
    exists|u: u64|
        #![auto]
        u < t.len() && (t[u as int] matches Some(e2)
            && e2.distance + 1 == e.distance
            && e2.glyph_i == e.glyph_i) && (dilation_move(w, h, u, v) || flip_move(w * h, u, v))
}

/// Distance-0 entries are exactly the first-listed catalog entry of their
/// decoded pattern.
pub open spec fn seeds_ok(t: Seq<Option<IndexEntry>>, entries: Seq<CatalogEntry>, wh: nat) -> bool {
    forall|v: int|
        0 <= v < t.len() ==> ((#[trigger] t[v]) matches Some(e) ==> (e.distance == 0 ==> {
            &&& e.glyph_i < entries.len()
            &&& is_first_pattern(entries, wh, e.glyph_i as int)
            &&& decode_spec(entries[e.glyph_i as int].pattern, wh) == v
        }))
}

/// All first-listed catalog patterns are assigned at distance 0.
pub open spec fn seeded(t: Seq<Option<IndexEntry>>, entries: Seq<CatalogEntry>, wh: nat) -> bool {
    forall|j: int|
        0 <= j < entries.len() && is_first_pattern(entries, wh, j)
            ==> #[trigger] t[decode_spec(entries[j].pattern, wh) as int] == Some(
            IndexEntry { glyph_i: j as usize, distance: 0 },
        )
}

/// Computes the number of distinct fragments of a `w` by `h` block.
pub fn frag_count_exec(w: usize, h: usize) -> (r: usize)
    requires
        w * h <= 9,
    ensures
        r as nat == frag_count(w, h),
        r <= 512,
{
    let wh = w * h;
    let mut r: usize = 1;
    let mut i: usize = 0;
    proof {
        lemma2_to64();
    }
    while i < wh
        invariant
            i <= wh,
            wh <= 9,
            r as nat == pow2(i as nat),
            r <= 512,
        decreases wh - i,
    {
        proof {
            lemma_pow2_adds(i as nat, 1);
            lemma2_to64();
            if (i as nat) < 9 {
                vstd::arithmetic::power2::lemma_pow2_strictly_increases(i as nat, 9);
            }
        }
        r = r * 2;
        i = i + 1;
    }
    r
}

/// Seeds the table: every catalog entry in order claims its exact decoded
/// pattern at distance 0; the first writer wins on duplicates.
fn seed_table(w: usize, h: usize, entries: &Vec<CatalogEntry>) -> (r: (
    Vec<Option<IndexEntry>>,
    usize,
))
    requires
        1 <= w,
        1 <= h,
        w * h <= 9,
    ensures
        r.0@.len() == frag_count(w, h),
        r.1 == count_some(r.0@),
        glyphs_ok(r.0@, entries@.len()),
        dist_le(r.0@, 0),
        seeds_ok(r.0@, entries@, (w * h) as nat),
        seeded(r.0@, entries@, (w * h) as nat),
{
    let wh = w * h;
    let n = frag_count_exec(w, h);
    let mut table: Vec<Option<IndexEntry>> = Vec::new();
    let mut i: usize = 0;
    while i < n
        invariant
            table@.len() == i,
            i <= n,
            count_some(table@) == 0,
            forall|v: int| 0 <= v < i ==> table@[v] is None,
        decreases n - i,
    {
        proof {
            assert(table@.push(None).drop_last() =~= table@);
        }
        table.push(None);
        i = i + 1;
    }

    let mut count: usize = 0;
    let mut j: usize = 0;
    while j < entries.len()
        invariant
            table@.len() == frag_count(w, h),
            table@.len() == n,
            n <= 512,
            wh == w * h <= 9,
            j <= entries@.len(),
            count == count_some(table@),
            count <= n,
            glyphs_ok(table@, j as nat),
            dist_le(table@, 0),
            seeds_ok(table@, entries@, wh as nat),
            forall|k: int|
                0 <= k < j && is_first_pattern(entries@, wh as nat, k)
                    ==> #[trigger] table@[decode_spec(entries@[k].pattern, wh as nat) as int]
                    == Some(IndexEntry { glyph_i: k as usize, distance: 0 }),
        decreases entries@.len() - j,
    {
        let d = decode_mask(entries[j].pattern, wh) as usize;
        proof {
            lemma_decode_bound(entries@[j as int].pattern, wh as nat);
            assert forall|k: int| 0 <= k < entries@.len() implies decode_spec(
                entries@[k].pattern,
                wh as nat,
            ) < frag_count(w, h) by {
                lemma_decode_bound(entries@[k].pattern, wh as nat);
            }
        }
        if table[d].is_none() {
            proof {
                lemma_count_some_update(table@, d as int, IndexEntry { glyph_i: j, distance: 0 });
                lemma_count_some_le(
                    table@.update(d as int, Some(IndexEntry { glyph_i: j, distance: 0 })),
                );
                // the slot being empty means no earlier entry decodes to it
                if !is_first_pattern(entries@, wh as nat, j as int) {
                    let k = choose|k: int|
                        0 <= k < j && decode_spec(entries@[k].pattern, wh as nat) == decode_spec(
                            entries@[j as int].pattern,
                            wh as nat,
                        );
                    let kf = lemma_first_exists(entries@, wh as nat, k);
                    assert(table@[decode_spec(entries@[kf].pattern, wh as nat) as int] is Some);
                    assert(false);
                }
            }
            table[d] = Some(IndexEntry { glyph_i: j, distance: 0 });
            count = count + 1;
        } else {
            proof {
                // a duplicate pattern: its first occurrence stays in place
                if is_first_pattern(entries@, wh as nat, j as int) {
                    let e = table@[d as int]->Some_0;
                    assert(decode_spec(entries@[e.glyph_i as int].pattern, wh as nat) == d);
                    assert(false);
                }
            }
        }
        j = j + 1;
    }
    (table, count)
}

proof fn lemma_grid(w: int, h: int, p: int)
    requires
        1 <= w,
        1 <= h,
        0 <= p < w * h,
    ensures
        p == w * (p / w) + (p % w),
        0 <= p % w < w,
        0 <= p / w < h,
{
    vstd::arithmetic::div_mod::lemma_fundamental_div_mod(p, w);
    vstd::arithmetic::div_mod::lemma_mod_bound(p, w);
    assert(p / w < h) by (nonlinear_arith)
        requires
            p == w * (p / w) + (p % w),
            0 <= p % w < w,
            p < w * h,
            1 <= w,
    ;
    assert(p / w >= 0) by (nonlinear_arith)
        requires
            p == w * (p / w) + (p % w),
            0 <= p % w < w,
            0 <= p,
            1 <= w,
    ;
}

/// The four orthogonal steps produce grid neighbors.
proof fn lemma_ortho_neighbor(w: int, h: int, p: int, q: int)
    requires
        1 <= w,
        1 <= h,
        0 <= p < w * h,
        ((q == p - 1 && p % w >= 1) || (q == p + 1 && p % w + 2 <= w) || (q == p - w && p / w >= 1)
            || (q == p + w && p / w + 2 <= h)),
    ensures
        ortho_adjacent(w, h, p, q),
        0 <= q < w * h,
{
    lemma_grid(w, h, p);
    let x = p % w;
    let y = p / w;
    assert(w * y == y * w) by (nonlinear_arith);
    if q == p - 1 && x >= 1 {
        vstd::arithmetic::div_mod::lemma_fundamental_div_mod_converse(q, w, y, x - 1);
    } else if q == p + 1 && x + 2 <= w {
        vstd::arithmetic::div_mod::lemma_fundamental_div_mod_converse(q, w, y, x + 1);
        assert(q < w * h) by (nonlinear_arith)
            requires
                q == y * w + x + 1,
                x + 2 <= w,
                y < h,
                1 <= w,
        ;
    } else if q == p - w && y >= 1 {
        assert((y - 1) * w == y * w - w) by (nonlinear_arith);
        vstd::arithmetic::div_mod::lemma_fundamental_div_mod_converse(q, w, y - 1, x);
    } else {
        assert((y + 1) * w == y * w + w) by (nonlinear_arith);
        vstd::arithmetic::div_mod::lemma_fundamental_div_mod_converse(q, w, y + 1, x);
        assert(q < w * h) by (nonlinear_arith)
            requires
                q == (y + 1) * w + x,
                0 <= x < w,
                y + 2 <= h,
                1 <= w,
        ;
    }
}

/// Assigning one empty slot from a generator preserves every builder
/// invariant.
proof fn lemma_insert(
    t: Seq<Option<IndexEntry>>,
    w: int,
    h: int,
    n_entries: nat,
    cand: u64,
    e_new: IndexEntry,
    src: u64,
)
    requires
        1 <= w,
        1 <= h,
        cand < t.len(),
        t[cand as int] is None,
        src < t.len(),
        t[src as int] matches Some(es) && es.distance + 1 == e_new.distance && es.glyph_i
            == e_new.glyph_i,
        dilation_move(w, h, src, cand) || flip_move(w * h, src, cand),
        derived_ok(t, w, h),
        glyphs_ok(t, n_entries),
        e_new.glyph_i < n_entries,
    ensures
        derived_ok(t.update(cand as int, Some(e_new)), w, h),
        glyphs_ok(t.update(cand as int, Some(e_new)), n_entries),
        extends(t.update(cand as int, Some(e_new)), t),
{
    let t2 = t.update(cand as int, Some(e_new));
    assert forall|v: u64| v < t2.len() implies ((#[trigger] t2[v as int]) matches Some(e) ==> (
    e.distance >= 1 ==> derived_from_some(t2, w, h, v, e))) by {
        if t2[v as int] is Some {
            let e = t2[v as int]->Some_0;
            if e.distance >= 1 {
                if v == cand {
                    assert(t2[src as int] == t[src as int]);
                    assert(derived_from_some(t2, w, h, v, e));
                } else {
                    assert(t[v as int] == t2[v as int]);
                    let u = choose|u: u64|
                        #![auto]
                        u < t.len() && (t[u as int] matches Some(e2) && e2.distance + 1
                            == e.distance && e2.glyph_i == e.glyph_i) && (dilation_move(w, h, u, v)
                            || flip_move(w * h, u, v));
                    assert(t2[u as int] == t[u as int]);
                    assert(derived_from_some(t2, w, h, v, e));
                }
            }
        }
    }
}

/// One dilation-biased sweep: expands every fragment currently at distance
/// `base`, assigning each still-empty candidate distance `base + 1`.
fn sweep_a(
    w: usize,
    h: usize,
    base: usize,
    table: &mut Vec<Option<IndexEntry>>,
    count: &mut usize,
    n_entries: Ghost<nat>,
) -> (progress: bool)
    requires
        1 <= w,
        1 <= h,
        w * h <= 9,
        base < usize::MAX,
        old(table)@.len() == frag_count(w, h),
        *old(count) == count_some(old(table)@),
        glyphs_ok(old(table)@, n_entries@),
        derived_ok(old(table)@, w as int, h as int),
        dist_le(old(table)@, base as int),
    ensures
        final(table)@.len() == old(table)@.len(),
        extends(final(table)@, old(table)@),
        *final(count) == count_some(final(table)@),
        glyphs_ok(final(table)@, n_entries@),
        derived_ok(final(table)@, w as int, h as int),
        dist_le(final(table)@, base as int + 1),
        forall|v: int|
            0 <= v < final(table)@.len() && old(table)@[v] is None ==> ((#[trigger] final(table)@[v]) matches Some(
                e,
            ) ==> e.distance == base + 1),
        !progress ==> final(table)@ == old(table)@,
        progress ==> *final(count) > *old(count),
{
    let wh = w * h;
    let n = table.len();
    proof {
        assert(w <= 9 && h <= 9) by (nonlinear_arith)
            requires
                1 <= w,
                1 <= h,
                w * h <= 9,
        ;
        lemma2_to64();
        if (wh as nat) < 9 {
            vstd::arithmetic::power2::lemma_pow2_strictly_increases(wh as nat, 9);
        }
        lemma_count_some_le(table@);
    }
    let mut progress = false;
    let mut mask: usize = 0;
    while mask < n
        invariant
            1 <= w && 1 <= h && wh == w * h && w * h <= 9 && w <= 9 && h <= 9,
            base < usize::MAX,
            n == table@.len(),
            table@.len() == old(table)@.len(),
            old(table)@.len() == frag_count(w, h),
            n <= 512,
            mask <= n,
            extends(table@, old(table)@),
            *count == count_some(table@),
            *count <= n,
            glyphs_ok(table@, n_entries@),
            derived_ok(table@, w as int, h as int),
            dist_le(table@, base as int + 1),
            forall|v: int|
                0 <= v < table@.len() && old(table)@[v] is None ==> ((
                #[trigger] table@[v]) matches Some(e) ==> e.distance == base + 1),
            *count >= *old(count),
            !progress ==> table@ == old(table)@,
            progress ==> *count > *old(count),
        decreases n - mask,
    {
        let entry_opt: Option<IndexEntry> = table[mask];
        if let Some(e) = entry_opt {
            if e.distance == base {
                let mu: u64 = mask as u64;
                let mut p: usize = 0;
                while p < wh
                    invariant
                        1 <= w && 1 <= h && wh == w * h && w * h <= 9 && w <= 9 && h <= 9,
                        base < usize::MAX,
                        n == table@.len(),
                        table@.len() == old(table)@.len(),
                        old(table)@.len() == frag_count(w, h),
                        n <= 512,
                        mask < n,
                        mu == mask as u64,
                        p <= wh,
                        table@[mask as int] == Some(e),
                        e.distance == base,
                        extends(table@, old(table)@),
                        *count == count_some(table@),
                        *count <= n,
                        glyphs_ok(table@, n_entries@),
                        derived_ok(table@, w as int, h as int),
                        dist_le(table@, base as int + 1),
                        forall|v: int|
                            0 <= v < table@.len() && old(table)@[v] is None ==> ((
                            #[trigger] table@[v]) matches Some(e3) ==> e3.distance == base + 1),
                        *count >= *old(count),
                        !progress ==> table@ == old(table)@,
                        progress ==> *count > *old(count),
                    decreases wh - p,
                {
                    if (mu >> (p as u64)) & 1 == 0 {
                        let x = p % w;
                        let y = p / w;
                        proof {
                            lemma_grid(w as int, h as int, p as int);
                            assert((w as int) * (y as int) >= 0) by (nonlinear_arith)
                                requires
                                    y as int >= 0,
                                    w as int >= 1,
                            ;
                            assert(y as int >= 1 ==> (w as int) * (y as int) >= w as int)
                                by (nonlinear_arith)
                                requires
                                    w as int >= 1,
                            ;
                        }
                        let mut nq: usize = 0;
                        let mut nei = false;
                        if x >= 1 && (mu >> ((p - 1) as u64)) & 1 == 1 {
                            nei = true;
                            nq = p - 1;
                        } else if x + 1 < w && (mu >> ((p + 1) as u64)) & 1 == 1 {
                            nei = true;
                            nq = p + 1;
                        } else if y >= 1 && (mu >> ((p - w) as u64)) & 1 == 1 {
                            nei = true;
                            nq = p - w;
                        } else if y + 1 < h && (mu >> ((p + w) as u64)) & 1 == 1 {
                            nei = true;
                            nq = p + w;
                        }
                        if nei {
                            proof {
                                lemma_ortho_neighbor(w as int, h as int, p as int, nq as int);
                                crate::bits::lemma_shl1_pow2(wh as u64);
                                assert(mu < (1u64 << (wh as u64)));
                                crate::bits::lemma_xor_bit_in_range(mu, p as u64, wh as u64);
                            }
                            let cu: u64 = mu | (1u64 << (p as u64));
                            let cand = cu as usize;
                            proof {
                                let pu: u64 = p as u64;
                                let qu: u64 = nq as u64;
                                assert(pu as int == p as int && qu as int == nq as int);
                                assert(qu < w * h && ortho_adjacent(
                                    w as int,
                                    h as int,
                                    pu as int,
                                    qu as int,
                                ) && bit64(mu, qu));
                                assert(exists|q: u64|
                                    #![auto]
                                    q < w * h && ortho_adjacent(w as int, h as int, pu as int, q as int)
                                        && bit64(mu, q));
                                assert(pu < w * h && !bit64(mu, pu) && cu == mu | (1u64 << pu));
                                assert(dilation_move(w as int, h as int, mu, cu));
                            }
                            if table[cand].is_none() {
                                let e_new = IndexEntry { glyph_i: e.glyph_i, distance: base + 1 };
                                proof {
                                    lemma_insert(
                                        table@,
                                        w as int,
                                        h as int,
                                        n_entries@,
                                        cu,
                                        e_new,
                                        mu,
                                    );
                                    lemma_count_some_update(table@, cu as int, e_new);
                                    lemma_count_some_le(table@.update(cu as int, Some(e_new)));
                                }
                                table[cand] = Some(e_new);
                                *count = *count + 1;
                                progress = true;
                            }
                        }
                    }
                    p = p + 1;
                }
            }
        }
        mask = mask + 1;
    }
    progress
}

/// Phase A of index construction: repeated dilation-biased sweeps at
/// increasing frontier distance, stopping at the first sweep that adds
/// nothing. Returns the last distance at which a sweep made progress.
fn phase_a(
    w: usize,
    h: usize,
    table: &mut Vec<Option<IndexEntry>>,
    count: &mut usize,
    n_entries: Ghost<nat>,
) -> (last_distance: usize)
    requires
        1 <= w,
        1 <= h,
        w * h <= 9,
        old(table)@.len() == frag_count(w, h),
        *old(count) == count_some(old(table)@),
        glyphs_ok(old(table)@, n_entries@),
        dist_le(old(table)@, 0),
    ensures
        final(table)@.len() == old(table)@.len(),
        extends(final(table)@, old(table)@),
        *final(count) == count_some(final(table)@),
        glyphs_ok(final(table)@, n_entries@),
        derived_ok(final(table)@, w as int, h as int),
        dist_le(final(table)@, last_distance as int + 1),
        last_distance <= 513,
        forall|v: int|
            0 <= v < final(table)@.len() && old(table)@[v] is None ==> ((#[trigger] final(table)@[v]) matches Some(
                e,
            ) ==> e.distance >= 1),
{
    let mut last_distance: usize = 0;
    let mut base: usize = 0;
    proof {
        lemma2_to64();
        if ((w * h) as nat) < 9 {
            vstd::arithmetic::power2::lemma_pow2_strictly_increases((w * h) as nat, 9);
        }
        lemma_count_some_le(table@);
    }
    loop
        invariant
            1 <= w && 1 <= h && w * h <= 9,
            table@.len() == old(table)@.len(),
            old(table)@.len() == frag_count(w, h),
            table@.len() <= 512,
            extends(table@, old(table)@),
            *count == count_some(table@),
            *count <= table@.len(),
            glyphs_ok(table@, n_entries@),
            derived_ok(table@, w as int, h as int),
            dist_le(table@, base as int),
            base == 0 || last_distance + 1 == base,
            last_distance <= base,
            base <= *count + 1,
            forall|v: int|
                0 <= v < table@.len() && old(table)@[v] is None ==> ((
                #[trigger] table@[v]) matches Some(e) ==> e.distance >= 1),
        ensures
            table@.len() == old(table)@.len(),
            extends(table@, old(table)@),
            *count == count_some(table@),
            *count <= table@.len(),
            glyphs_ok(table@, n_entries@),
            derived_ok(table@, w as int, h as int),
            dist_le(table@, last_distance as int + 1),
            last_distance <= 513,
            forall|v: int|
                0 <= v < table@.len() && old(table)@[v] is None ==> ((
                #[trigger] table@[v]) matches Some(e) ==> e.distance >= 1),
        decreases table@.len() - *count,
    {
        let progress = sweep_a(w, h, base, table, count, n_entries);
        proof {
            lemma_count_some_le(table@);
        }
        if !progress {
            proof {
                assert(dist_le(table@, base as int));
                assert(dist_le(table@, last_distance as int + 1));
            }
            break;
        }
        last_distance = base;
        base = base + 1;
    }
    last_distance
}

/// Every single-bit flip of `v` is in range and assigned.
pub open spec fn flips_assigned(t: Seq<Option<IndexEntry>>, wh: nat, v: u64) -> bool {
    forall|i: u64|
        i < wh ==> ((v ^ (1u64 << i)) < t.len() && (#[trigger] t[(v ^ (1u64 << i)) as int]) is Some)
}

/// The assigned set is closed under single-bit flips.
pub open spec fn flip_closed(t: Seq<Option<IndexEntry>>, wh: nat) -> bool {
    forall|v: u64| v < t.len() && (#[trigger] t[v as int]) is Some ==> flips_assigned(t, wh, v)
}

/// Number of set bits.
pub open spec fn popcnt(x: u64) -> nat
    decreases x,
{
    if x == 0 {
        0
    } else {
        popcnt(x / 2) + (if x % 2 == 1 {
            1nat
        } else {
            0nat
        })
    }
}

proof fn lemma_popcnt_clear(d: u64, i: u64)
    requires
        i < 64,
        bit64(d, i),
    ensures
        popcnt(d ^ (1u64 << i)) + 1 == popcnt(d),
    decreases i,
{
    let d2 = d ^ (1u64 << i);
    if i == 0 {
        assert(1u64 << 0u64 == 1u64) by (bit_vector);
        assert(d2 / 2 == d / 2 && d % 2 == 1 && d2 % 2 == 0) by (bit_vector)
            requires
                d2 == d ^ 1u64,
                bit64(d, 0),
        ;
    } else {
        assert(d2 / 2 == (d / 2) ^ (1u64 << ((i - 1) as u64)) && d2 % 2 == d % 2 && bit64(d / 2, (i - 1) as u64))
            by (bit_vector)
            requires
                1 <= i < 64,
                bit64(d, i),
                d2 == d ^ (1u64 << i),
        ;
        lemma_popcnt_clear(d / 2, (i - 1) as u64);
        assert(popcnt(d2) == popcnt(d2 / 2) + (if d2 % 2 == 1 {
            1nat
        } else {
            0nat
        }));
    }
}

/// A set bit of a value below `1 << wh` lies below `wh`.
proof fn lemma_bit_below(d: u64, i: u64, wh: u64)
    requires
        i <= 63,
        wh <= 63,
        bit64(d, i),
        d < (1u64 << wh),
    ensures
        i < wh,
{
    assert(i < wh) by (bit_vector)
        requires
            i <= 63,
            wh <= 63,
            ((d >> i) & 1) == 1,
            d < (1u64 << wh),
    ;
}

/// Picks a set bit of a nonzero value below `1 << wh`.
proof fn choose_set_bit(d: u64, wh: u64) -> (i: u64)
    requires
        d != 0,
        wh <= 63,
        d < (1u64 << wh),
    ensures
        i < wh,
        bit64(d, i),
    decreases d,
{
    assert(d & 1 == 0 || d & 1 == 1) by (bit_vector);
    if d & 1 == 1 {
        assert(bit64(d, 0)) by (bit_vector)
            requires
                d & 1 == 1,
        ;
        lemma_bit_below(d, 0, wh);
        0
    } else {
        let d2 = d >> 1u64;
        assert(d2 != 0 && d2 < d && d2 < (1u64 << wh)) by (bit_vector)
            requires
                d != 0,
                (d & 1) == 0,
                d < (1u64 << wh),
                wh <= 63,
                d2 == d >> 1u64,
        ;
        let i2 = choose_set_bit(d2, wh);
        let i: u64 = (i2 + 1) as u64;
        assert(bit64(d, i)) by (bit_vector)
            requires
                bit64(d2, i2),
                d2 == d >> 1u64,
                i2 < 63,
                i == i2 + 1,
        ;
        lemma_bit_below(d, i, wh);
        i
    }
}

/// A flip-closed nonempty assigned set covers the whole fragment space.
proof fn lemma_closed_total(t: Seq<Option<IndexEntry>>, wh: u64, s: u64, v: u64)
    requires
        wh <= 9,
        t.len() == pow2(wh as nat),
        flip_closed(t, wh as nat),
        s < t.len(),
        v < t.len(),
        t[s as int] is Some,
    ensures
        t[v as int] is Some,
    decreases popcnt(s ^ v),
{
    crate::bits::lemma_shl1_pow2(wh);
    if s != v {
        let d = s ^ v;
        assert(d != 0 && d < (1u64 << wh)) by (bit_vector)
            requires
                s != v,
                d == s ^ v,
                s < (1u64 << wh),
                v < (1u64 << wh),
                wh <= 9,
        ;
        let i = choose_set_bit(d, wh);
        let s2 = s ^ (1u64 << i);
        crate::bits::lemma_xor_bit_in_range(s, i, wh);
        assert(t[s2 as int] is Some);
        assert(s2 ^ v == d ^ (1u64 << i)) by (bit_vector)
            requires
                s2 == s ^ (1u64 << i),
                d == s ^ v,
        ;
        lemma_popcnt_clear(d, i);
        lemma_closed_total(t, wh, s2, v);
    }
}

/// One exhaustive sweep: expands every fragment currently at distance
/// `base` by flipping each single bit, assigning each still-empty candidate
/// distance `base + 1`.
fn sweep_b(
    w: usize,
    h: usize,
    base: usize,
    table: &mut Vec<Option<IndexEntry>>,
    count: &mut usize,
    n_entries: Ghost<nat>,
) -> (progress: bool)
    requires
        1 <= w,
        1 <= h,
        w * h <= 9,
        base < usize::MAX,
        old(table)@.len() == frag_count(w, h),
        *old(count) == count_some(old(table)@),
        glyphs_ok(old(table)@, n_entries@),
        derived_ok(old(table)@, w as int, h as int),
    ensures
        final(table)@.len() == old(table)@.len(),
        extends(final(table)@, old(table)@),
        *final(count) == count_some(final(table)@),
        glyphs_ok(final(table)@, n_entries@),
        derived_ok(final(table)@, w as int, h as int),
        forall|v: int|
            0 <= v < final(table)@.len() && old(table)@[v] is None ==> ((
            #[trigger] final(table)@[v]) matches Some(e) ==> e.distance == base + 1),
        forall|v: u64|
            v < old(table)@.len() ==> ((#[trigger] old(table)@[v as int]) matches Some(e) ==> (
            e.distance == base ==> flips_assigned(final(table)@, (w * h) as nat, v))),
        !progress ==> final(table)@ == old(table)@,
        progress ==> *final(count) > *old(count),
{
    let wh = w * h;
    let n = table.len();
    proof {
        assert(w <= 9 && h <= 9) by (nonlinear_arith)
            requires
                1 <= w,
                1 <= h,
                w * h <= 9,
        ;
        lemma2_to64();
        if (wh as nat) < 9 {
            vstd::arithmetic::power2::lemma_pow2_strictly_increases(wh as nat, 9);
        }
        lemma_count_some_le(table@);
    }
    let mut progress = false;
    let mut mask: usize = 0;
    while mask < n
        invariant
            1 <= w && 1 <= h && wh == w * h && w * h <= 9 && w <= 9 && h <= 9,
            base < usize::MAX,
            n == table@.len(),
            table@.len() == old(table)@.len(),
            old(table)@.len() == frag_count(w, h),
            n <= 512,
            mask <= n,
            extends(table@, old(table)@),
            *count == count_some(table@),
            *count <= n,
            *count >= *old(count),
            glyphs_ok(table@, n_entries@),
            derived_ok(table@, w as int, h as int),
            forall|v: int|
                0 <= v < table@.len() && old(table)@[v] is None ==> ((
                #[trigger] table@[v]) matches Some(e) ==> e.distance == base + 1),
            forall|v: u64|
                v < mask ==> ((#[trigger] old(table)@[v as int]) matches Some(e) ==> (e.distance
                    == base ==> flips_assigned(table@, wh as nat, v))),
            !progress ==> table@ == old(table)@,
            progress ==> *count > *old(count),
        decreases n - mask,
    {
        let entry_opt: Option<IndexEntry> = table[mask];
        if let Some(e) = entry_opt {
            if e.distance == base {
                let mu: u64 = mask as u64;
                proof {
                    crate::bits::lemma_shl1_pow2(wh as u64);
                    assert(old(table)@[mask as int] == Some(e) || old(table)@[mask as int] is None);
                    assert(old(table)@[mask as int] is None ==> e.distance == base + 1);
                    assert(old(table)@[mask as int] == Some(e));
                }
                let mut p: usize = 0;
                while p < wh
                    invariant
                        1 <= w && 1 <= h && wh == w * h && w * h <= 9 && w <= 9 && h <= 9,
                        base < usize::MAX,
                        n == table@.len(),
                        table@.len() == old(table)@.len(),
                        old(table)@.len() == frag_count(w, h),
                        n <= 512,
                        mask < n,
                        mu == mask as u64,
                        p <= wh,
                        table@[mask as int] == Some(e),
                        old(table)@[mask as int] == Some(e),
                        e.distance == base,
                        extends(table@, old(table)@),
                        *count == count_some(table@),
                        *count <= n,
                        *count >= *old(count),
                        glyphs_ok(table@, n_entries@),
                        derived_ok(table@, w as int, h as int),
                        forall|v: int|
                            0 <= v < table@.len() && old(table)@[v] is None ==> ((
                            #[trigger] table@[v]) matches Some(e3) ==> e3.distance == base + 1),
                        forall|v: u64|
                            v < mask ==> ((#[trigger] old(table)@[v as int]) matches Some(e4) ==> (
                            e4.distance == base ==> flips_assigned(table@, wh as nat, v))),
                        forall|i: u64|
                            i < p ==> ((mu ^ (1u64 << i)) < table@.len() && (
                            #[trigger] table@[(mu ^ (1u64 << i)) as int]) is Some),
                        !progress ==> table@ == old(table)@,
                        progress ==> *count > *old(count),
                    decreases wh - p,
                {
                    proof {
                        crate::bits::lemma_shl1_pow2(wh as u64);
                        assert(mu < (1u64 << (wh as u64)));
                        crate::bits::lemma_xor_bit_in_range(mu, p as u64, wh as u64);
                    }
                    let cu: u64 = mu ^ (1u64 << (p as u64));
                    let cand = cu as usize;
                    if table[cand].is_none() {
                        let e_new = IndexEntry { glyph_i: e.glyph_i, distance: base + 1 };
                        proof {
                            let pu: u64 = p as u64;
                            assert(pu < w * h && cu == (mu ^ (1u64 << pu)));
                            assert(flip_move((w * h) as int, mu, cu));
                            lemma_insert(
                                table@,
                                w as int,
                                h as int,
                                n_entries@,
                                cu,
                                e_new,
                                mu,
                            );
                            lemma_count_some_update(table@, cu as int, e_new);
                            lemma_count_some_le(table@.update(cu as int, Some(e_new)));
                        }
                        table[cand] = Some(e_new);
                        *count = *count + 1;
                        progress = true;
                    }
                    p = p + 1;
                }
            }
        }
        mask = mask + 1;
    }
    progress
}

/// Phase B of index construction: exhaustive completion with the
/// unrestricted move. Sweeps increasing distances until a sweep adds
/// nothing and the distance exceeds phase A's last productive distance;
/// this exact stopping rule is kept because it affects which glyph
/// later-covered fragments inherit, though not totality.
fn phase_b(
    w: usize,
    h: usize,
    table: &mut Vec<Option<IndexEntry>>,
    count: &mut usize,
    n_entries: Ghost<nat>,
    last_distance: usize,
)
    requires
        1 <= w,
        1 <= h,
        w * h <= 9,
        last_distance <= 513,
        old(table)@.len() == frag_count(w, h),
        *old(count) == count_some(old(table)@),
        glyphs_ok(old(table)@, n_entries@),
        derived_ok(old(table)@, w as int, h as int),
        dist_le(old(table)@, last_distance as int + 1),
    ensures
        final(table)@.len() == old(table)@.len(),
        extends(final(table)@, old(table)@),
        *final(count) == count_some(final(table)@),
        glyphs_ok(final(table)@, n_entries@),
        derived_ok(final(table)@, w as int, h as int),
        flip_closed(final(table)@, (w * h) as nat),
        forall|v: int|
            0 <= v < final(table)@.len() && old(table)@[v] is None ==> ((
            #[trigger] final(table)@[v]) matches Some(e) ==> e.distance >= 1),
{
    let wh = w * h;
    let mut base: usize = 0;
    proof {
        lemma2_to64();
        if (wh as nat) < 9 {
            vstd::arithmetic::power2::lemma_pow2_strictly_increases(wh as nat, 9);
        }
        lemma_count_some_le(table@);
    }
    loop
        invariant
            1 <= w && 1 <= h && wh == w * h && w * h <= 9,
            last_distance <= 513,
            table@.len() == old(table)@.len(),
            old(table)@.len() == frag_count(w, h),
            table@.len() <= 512,
            base <= last_distance + *count + 1,
            extends(table@, old(table)@),
            *count == count_some(table@),
            *count <= table@.len(),
            glyphs_ok(table@, n_entries@),
            derived_ok(table@, w as int, h as int),
            dist_le(table@, vstd::math::max(last_distance as int + 1, base as int)),
            forall|v: u64|
                v < table@.len() ==> ((#[trigger] table@[v as int]) matches Some(e) ==> (e.distance
                    < base ==> flips_assigned(table@, wh as nat, v))),
            forall|v: int|
                0 <= v < table@.len() && old(table)@[v] is None ==> ((
                #[trigger] table@[v]) matches Some(e) ==> e.distance >= 1),
        ensures
            table@.len() == old(table)@.len(),
            extends(table@, old(table)@),
            *count == count_some(table@),
            glyphs_ok(table@, n_entries@),
            derived_ok(table@, w as int, h as int),
            flip_closed(table@, wh as nat),
            forall|v: int|
                0 <= v < table@.len() && old(table)@[v] is None ==> ((
                #[trigger] table@[v]) matches Some(e) ==> e.distance >= 1),
        decreases table@.len() - *count, (if base <= last_distance {
            last_distance + 1 - base
        } else {
            0
        }),
    {
        let ghost pre = table@;
        let ghost pre_count = *count;
        let progress = sweep_b(w, h, base, table, count, n_entries);
        proof {
            lemma_count_some_le(table@);
            // closure below the next sweep distance
            assert forall|v: u64|
                v < table@.len() && (#[trigger] table@[v as int]) is Some implies ((
            table@[v as int]->Some_0).distance < base + 1 ==> flips_assigned(
                table@,
                wh as nat,
                v,
            )) by {
                let e = table@[v as int]->Some_0;
                if e.distance < base + 1 {
                    if pre[v as int] is None {
                        assert(e.distance == base + 1);
                        assert(false);
                    }
                    assert(pre[v as int] == table@[v as int]);
                    if e.distance < base {
                        assert(flips_assigned(pre, wh as nat, v));
                        assert forall|i: u64| i < wh implies ((v ^ (1u64 << i)) < table@.len() && (
                        #[trigger] table@[(v ^ (1u64 << i)) as int]) is Some) by {
                            assert(pre[(v ^ (1u64 << i)) as int] is Some);
                        }
                    } else {
                        assert(flips_assigned(table@, wh as nat, v));
                    }
                }
            }
        }
        if !progress && base > last_distance {
            proof {
                assert(table@ == pre);
                assert forall|v: u64|
                    v < table@.len() && (#[trigger] table@[v as int]) is Some implies flips_assigned(
                    table@,
                    wh as nat,
                    v,
                ) by {
                    let e = table@[v as int]->Some_0;
                    assert(e.distance <= vstd::math::max(last_distance as int + 1, base as int));
                    assert(e.distance <= base);
                }
            }
            break;
        }
        base = base + 1;
    }
}

/// Builds the fragment-to-glyph assignment for a `w` by `h` block from an
/// ordered catalog. The result is total whenever the catalog is nonempty:
/// every fragment value gets an entry naming a catalog line and the
/// breadth-first depth at which it was first covered. Exact catalog
/// patterns keep distance 0 and are never overwritten, the first of two
/// entries sharing a decoded pattern wins, and every deeper entry points
/// back to a generator one step shallower with the same glyph.
pub fn build_index(w: usize, h: usize, entries: &Vec<CatalogEntry>) -> (r: Vec<
    Option<IndexEntry>,
>)
    requires
        1 <= w,
        1 <= h,
        w * h <= 9,
    ensures
        r@.len() == frag_count(w, h),
        seeded(r@, entries@, (w * h) as nat),
        seeds_ok(r@, entries@, (w * h) as nat),
        glyphs_ok(r@, entries@.len()),
        derived_ok(r@, w as int, h as int),
        entries@.len() >= 1 ==> forall|v: int| 0 <= v < r@.len() ==> r@[v] is Some,
{
    let wh = w * h;
    let (mut table, mut count) = seed_table(w, h, entries);
    let ghost t0 = table@;
    let last = phase_a(w, h, &mut table, &mut count, Ghost(entries@.len() as nat));
    let ghost t1 = table@;
    phase_b(w, h, &mut table, &mut count, Ghost(entries@.len() as nat), last);
    proof {
        let tf = table@;
        lemma2_to64();
        if (wh as nat) < 9 {
            vstd::arithmetic::power2::lemma_pow2_strictly_increases(wh as nat, 9);
        }
        assert(tf.len() <= 512);
        // assignments survive both phases unchanged
        assert forall|v: int| 0 <= v < t0.len() && t0[v] is Some implies tf[v] == t0[v] by {
            assert(t1[v] == t0[v]);
        }
        // distance-0 entries all date from seeding
        assert forall|v: int|
            0 <= v < tf.len() && (#[trigger] tf[v]) is Some && (tf[v]->Some_0).distance
            == 0 implies t0[v] == tf[v] by {
            if t0[v] is None {
                if t1[v] is Some {
                    assert((t1[v]->Some_0).distance >= 1);
                    assert(tf[v] == t1[v]);
                } else {
                    assert((tf[v]->Some_0).distance >= 1);
                }
                assert(false);
            }
        }
        assert forall|j: int|
            0 <= j < entries@.len() && is_first_pattern(entries@, wh as nat, j) implies #[trigger] tf[decode_spec(
            entries@[j].pattern,
            wh as nat,
        ) as int] == Some(IndexEntry { glyph_i: j as usize, distance: 0 }) by {
            lemma_decode_bound(entries@[j].pattern, wh as nat);
            assert(t0[decode_spec(entries@[j].pattern, wh as nat) as int] == Some(
                IndexEntry { glyph_i: j as usize, distance: 0 },
            ));
        }
        assert(seeded(tf, entries@, wh as nat));
        assert(seeds_ok(tf, entries@, wh as nat));
        // totality from flip closure and the first seed
        if entries@.len() >= 1 {
            assert(is_first_pattern(entries@, wh as nat, 0));
            let s = decode_spec(entries@[0].pattern, wh as nat);
            lemma_decode_bound(entries@[0].pattern, wh as nat);
            assert(t0[s as int] is Some);
            assert(tf[s as int] is Some);
            assert forall|v: int| 0 <= v < tf.len() implies tf[v] is Some by {
                let vu = v as u64;
                assert(vu as int == v);
                lemma_closed_total(tf, wh as u64, s as u64, vu);
            }
        }
    }
    table
}

} // verus!
