//! Bit-level specification helpers shared by the index builder and the
//! scanner: single-bit reads of packed words and the facts relating them to
//! shifts, masks and small sums.
use vstd::prelude::*;

verus! {

/// True iff bit `i` of `v` is set (`i < 64`).
pub open spec fn bit64(v: u64, i: u64) -> bool {
    ((v >> i) & 1) == 1
}

/// True iff bit `x % 16` of span `x / 16` is set: the pixel at column `x` of a
/// row packed LSB-first into 16-bit spans.
pub open spec fn span_bit(spans: Seq<u16>, x: int) -> bool
    recommends
        0 <= x,
        x < spans.len() * 16,
{
    bit64(spans[x / 16] as u64, (x % 16) as u64)
}

/// `1 << k` is the mathematical power of two.
pub proof fn lemma_shl1_pow2(k: u64)
    requires
        k <= 63,
    ensures
        (1u64 << k) as nat == vstd::arithmetic::power2::pow2(k as nat),
{
    vstd::bits::lemma_u64_pow2_no_overflow(k as nat);
    vstd::bits::lemma_u64_shl_is_mul(1, k);
}

/// A cleared span has no bits set.
pub proof fn lemma_span_zero(j: u64)
    ensures
        !bit64(0u16 as u64, j),
{
    assert(((0u16 as u64) >> j) & 1 == 0) by (bit_vector);
}

/// Setting bit `k` of a span leaves every other bit alone.
pub proof fn lemma_span_or_bit(sp: u16, k: u16, j: u64)
    requires
        k < 16,
    ensures
        j == k ==> bit64((sp | (1u16 << k)) as u64, j),
        j != k ==> bit64((sp | (1u16 << k)) as u64, j) == bit64(sp as u64, j),
{
    assert((j == k ==> (((sp | (1u16 << k)) as u64) >> j) & 1 == 1) && (j != k ==> (((sp | (1u16
        << k)) as u64) >> j) & 1 == ((sp as u64) >> j) & 1)) by (bit_vector)
        requires
            k < 16,
    ;
}

/// Values below `1 << n` stay below `1 << n` when a bit below `n` is flipped.
pub proof fn lemma_xor_bit_in_range(v: u64, i: u64, n: u64)
    requires
        n <= 63,
        i < n,
        v < (1u64 << n),
    ensures
        (v ^ (1u64 << i)) < (1u64 << n),
        v | (1u64 << i) < (1u64 << n),
{
    assert((v ^ (1u64 << i)) < (1u64 << n) && (v | (1u64 << i)) < (1u64 << n))
        by (bit_vector)
        requires
            n <= 63,
            i < n,
            v < (1u64 << n),
    ;
}

/// OR-ing a span into a clean accumulator at offset `off` keeps the low
/// bits, places the span's bits at `off + jj`, and leaves the rest clear.
pub proof fn lemma_acc_refill(a: u32, sp: u16, off: u64, j: u64, jj: u64)
    requires
        off <= 15,
        (a as u64) < (1u64 << off),
    ensures
        j < off ==> bit64((a | ((sp as u32) << off)) as u64, j) == bit64(a as u64, j),
        jj < 16 ==> bit64((a | ((sp as u32) << off)) as u64, (off + jj) as u64) == bit64(
            sp as u64,
            jj,
        ),
        j >= off + 16 ==> !bit64((a | ((sp as u32) << off)) as u64, j),
        ((a | ((sp as u32) << off)) as u64) < (1u64 << ((off + 16) as u64)),
{
    assert((j < off ==> bit64((a | ((sp as u32) << off)) as u64, j) == bit64(a as u64, j)) && (jj
        < 16 ==> bit64((a | ((sp as u32) << off)) as u64, (off + jj) as u64) == bit64(
        sp as u64,
        jj,
    )) && (j >= off + 16 ==> !bit64((a | ((sp as u32) << off)) as u64, j)) && ((a | ((sp as u32)
        << off)) as u64) < (1u64 << ((off + 16) as u64))) by (bit_vector)
        requires
            off <= 15,
            (a as u64) < (1u64 << off),
    ;
}

/// Shifting the accumulator right by `sh` moves bit `j + sh` to `j` and
/// tightens the bound on its value.
pub proof fn lemma_acc_shift(a: u32, sh: u64, vv: u64, j: u64)
    requires
        sh <= 15,
        sh <= vv,
        vv <= 32,
        (a as u64) < (1u64 << vv),
    ensures
        j <= 48 ==> bit64((a >> (sh as u32)) as u64, j) == bit64(a as u64, (j + sh) as u64),
        ((a >> (sh as u32)) as u64) < (1u64 << ((vv - sh) as u64)),
{
    assert((j <= 48 ==> bit64((a >> (sh as u32)) as u64, j) == bit64(a as u64, (j + sh) as u64))
        && ((a >> (sh as u32)) as u64) < (1u64 << ((vv - sh) as u64))) by (bit_vector)
        requires
            sh <= 15,
            sh <= vv,
            vv <= 32,
            (a as u64) < (1u64 << vv),
    ;
}

/// OR-ing the masked low `w` bits of the accumulator into the fragment at
/// offset `sh` keeps lower bits, places the accumulator bits at `sh + jj`,
/// and keeps the fragment bounded.
pub proof fn lemma_frag_or(frag: u64, a: u32, w: u64, sh: u64, j: u64, jj: u64)
    requires
        1 <= w <= 9,
        sh <= 54,
        frag < (1u64 << sh),
    ensures
        j < sh ==> bit64(frag | (((a as u64) & (((1u64 << w) - 1) as u64)) << sh), j) == bit64(frag, j),
        jj < w ==> bit64(frag | (((a as u64) & (((1u64 << w) - 1) as u64)) << sh), (sh + jj) as u64)
            == bit64(a as u64, jj),
        (frag | (((a as u64) & (((1u64 << w) - 1) as u64)) << sh)) < (1u64 << ((sh + w) as u64)),
{
    assert((j < sh ==> bit64(frag | (((a as u64) & (((1u64 << w) - 1) as u64)) << sh), j) == bit64(frag, j))
        && (jj < w ==> bit64(frag | (((a as u64) & (((1u64 << w) - 1) as u64)) << sh), (sh + jj) as u64)
        == bit64(a as u64, jj)) && (frag | (((a as u64) & (((1u64 << w) - 1) as u64)) << sh)) < (1u64 << ((sh
        + w) as u64))) by (bit_vector)
        requires
            1 <= w <= 9,
            sh <= 54,
            frag < (1u64 << sh),
    ;
}

/// Two values below `1 << n` that agree on every bit below `n` are equal.
pub proof fn lemma_bits_eq(a: u64, b: u64, n: u64)
    requires
        n <= 63,
        a < (1u64 << n),
        b < (1u64 << n),
        forall|j: u64| j < n ==> (bit64(a, j) == bit64(b, j)),
    ensures
        a == b,
    decreases n,
{
    if n == 0 {
        assert(1u64 << 0u64 == 1) by (bit_vector);
    } else {
        assert(bit64(a, 0) == (a % 2 == 1) && bit64(b, 0) == (b % 2 == 1)) by (bit_vector);
        let a2 = a / 2;
        let b2 = b / 2;
        assert(a2 < (1u64 << ((n - 1) as u64)) && b2 < (1u64 << ((n - 1) as u64))) by (bit_vector)
            requires
                1 <= n <= 63,
                a < (1u64 << n),
                b < (1u64 << n),
                a2 == a / 2,
                b2 == b / 2,
        ;
        assert forall|j: u64| j < (n - 1) as u64 implies (bit64(a2, j) == bit64(b2, j)) by {
            assert(bit64(a2, j) == bit64(a, (j + 1) as u64) && bit64(b2, j) == bit64(
                b,
                (j + 1) as u64,
            )) by (bit_vector)
                requires
                    a2 == a / 2,
                    b2 == b / 2,
                    j <= 62,
            ;
            assert(bit64(a, (j + 1) as u64) == bit64(b, (j + 1) as u64));
        }
        lemma_bits_eq(a2, b2, (n - 1) as u64);
        assert(a == 2 * a2 + (if bit64(a, 0) {
            1u64
        } else {
            0u64
        }) && b == 2 * b2 + (if bit64(b, 0) {
            1u64
        } else {
            0u64
        })) by (bit_vector)
            requires
                a2 == a / 2,
                b2 == b / 2,
        ;
    }
}

} // verus!
