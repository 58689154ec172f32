//! Fixed-point arithmetic shared by the whole library.
//!
//! A weight, a similarity or a score is an integer on the scale where
//! `SCALE` stands for 1.0. Interest vectors hold `u32` entries on that scale.
use vstd::prelude::*;
use vstd::arithmetic::mul::lemma_mul_upper_bound;

verus! {

/// The integer that stands for 1.0.
pub const SCALE: u64 = 1_000_000;

/// The largest dimension an interest vector may have (keeps the products
/// that similarity compares inside 2^135).
pub const MAX_DIMENSION: usize = 128;

/// The largest product of two `u32` values.
pub const MAX_U32_PRODUCT: u128 = 0xFFFF_FFFE_0000_0001;

pub open spec fn min_int(a: int, b: int) -> int {
    if a <= b { a } else { b }
}

/// Sum of `a[i] * b[i]` over the first `n` positions.
pub open spec fn dot_upto(a: Seq<u32>, b: Seq<u32>, n: int) -> int
    decreases n,
{
    if n <= 0 {
        0
    } else {
        dot_upto(a, b, n - 1) + a[n - 1] * b[n - 1]
    }
}

/// Dot product over the positions both vectors have.
pub open spec fn dot(a: Seq<u32>, b: Seq<u32>) -> int {
    dot_upto(a, b, min_int(a.len() as int, b.len() as int))
}

/// A vector the similarity arithmetic takes: at most `MAX_DIMENSION`
/// entries, each at most `SCALE`.
pub open spec fn vector_ok(v: Seq<u32>) -> bool {
    &&& v.len() <= MAX_DIMENSION
    &&& forall|i: int| 0 <= i < v.len() ==> #[trigger] v[i] <= SCALE
}

/// `r` (on the fixed-point scale) is at most the cosine `d / sqrt(p)`:
/// `r^2 * p <= SCALE^2 * d^2`.
pub open spec fn within_cosine(p: int, d: int, r: int) -> bool {
    r * r * p <= (SCALE * SCALE) * (d * d)
}

/// `r` is the cosine `d / sqrt(p)` on the fixed-point scale, rounded down
/// and clamped to `[0, SCALE]`: the largest such `r` within the cosine.
pub open spec fn is_cosine_floor(p: int, d: int, r: int) -> bool {
    &&& 0 <= r <= SCALE
    &&& within_cosine(p, d, r)
    &&& (r == SCALE || !within_cosine(p, d, r + 1))
}

pub open spec fn cosine_floor(p: int, d: int) -> int {
    choose|r: int| is_cosine_floor(p, d, r)
}

/// Cosine similarity on the fixed-point scale: the largest `r` in
/// `[0, SCALE]` with `r^2 * |a|^2 * |b|^2 <= SCALE^2 * (a.b)^2`, so within
/// one unit below `SCALE * cos` (clamped); zero when the dot product is not
/// positive or either vector has zero magnitude.
pub open spec fn similarity(a: Seq<u32>, b: Seq<u32>) -> int {
    let na = dot(a, a);
    let nb = dot(b, b);
    let d = dot(a, b);
    if na == 0 || nb == 0 || d <= 0 {
        0
    } else {
        cosine_floor(na * nb, d)
    }
}

proof fn lemma_within_monotone(p: int, d: int, r: int, s: int)
    requires
        0 <= r <= s,
        p >= 0,
        within_cosine(p, d, s),
    ensures
        within_cosine(p, d, r),
{
    assert(r * r * p <= s * s * p) by (nonlinear_arith)
        requires
            0 <= r <= s,
            p >= 0,
    ;
}

proof fn lemma_cosine_floor_is(p: int, d: int, r: int)
    requires
        p >= 0,
        is_cosine_floor(p, d, r),
    ensures
        cosine_floor(p, d) == r,
{
    let c = cosine_floor(p, d);
    assert(is_cosine_floor(p, d, c));
    if c < r {
        lemma_within_monotone(p, d, c + 1, r);
    } else if r < c {
        lemma_within_monotone(p, d, r + 1, c);
    }
}

proof fn lemma_dot_upto_bounds(a: Seq<u32>, b: Seq<u32>, n: int)
    requires
        0 <= n,
    ensures
        0 <= dot_upto(a, b, n) <= n * MAX_U32_PRODUCT,
    decreases n,
{
    if n > 0 {
        lemma_dot_upto_bounds(a, b, n - 1);
        lemma_product_bound(a[n - 1], b[n - 1]);
    }
}

proof fn lemma_product_bound(x: u32, y: u32)
    ensures
        0 <= x * y <= MAX_U32_PRODUCT,
{
    lemma_mul_upper_bound(x as int, 0xFFFF_FFFF, y as int, 0xFFFF_FFFF);
    assert(0 <= x * y) by (nonlinear_arith)
        requires
            0 <= x,
            0 <= y,
    ;
}

/// A vector that is zero everywhere has squared norm zero, and a nonzero
/// entry makes it positive.
proof fn lemma_norm_positive(a: Seq<u32>, n: int, i: int)
    requires
        0 <= i < n <= a.len(),
        a[i] != 0,
    ensures
        dot_upto(a, a, n) > 0,
    decreases n,
{
    lemma_dot_upto_bounds(a, a, n - 1);
    assert(a[n - 1] * a[n - 1] >= 0) by (nonlinear_arith);
    if i == n - 1 {
        assert(a[i] * a[i] > 0) by (nonlinear_arith)
            requires
                a[i] > 0,
        ;
    } else {
        lemma_norm_positive(a, n - 1, i);
    }
}

/// Dot product of two vectors over the positions both have.
pub fn dot_product(a: &Vec<u32>, b: &Vec<u32>) -> (r: u128)
    requires
        a.len() <= MAX_DIMENSION,
    ensures
        r as int == dot(a@, b@),
        r as int <= MAX_DIMENSION as int * MAX_U32_PRODUCT,
{
    let n: usize = if a.len() <= b.len() { a.len() } else { b.len() };
    let mut acc: u128 = 0;
    let mut i: usize = 0;
    while i < n
        invariant
            n == min_int(a@.len() as int, b@.len() as int),
            n <= MAX_DIMENSION,
            i <= n,
            acc as int == dot_upto(a@, b@, i as int),
            acc as int <= i * MAX_U32_PRODUCT,
        decreases n - i,
    {
        proof {
            lemma_product_bound(a@[i as int], b@[i as int]);
        }
        acc = acc + (a[i] as u128) * (b[i] as u128);
        i = i + 1;
    }
    proof {
        assert(n * MAX_U32_PRODUCT <= MAX_DIMENSION as int * MAX_U32_PRODUCT) by (nonlinear_arith)
            requires
                n <= MAX_DIMENSION,
        ;
    }
    acc
}

/// Whether `a * x <= b * y`, for `a`, `b` below 2^41 and `x`, `y` below
/// 2^95, computed on 64-bit halves of `x` and `y`.
pub fn wide_le(a: u128, x: u128, b: u128, y: u128) -> (r: bool)
    requires
        a < 0x200_0000_0000,
        b < 0x200_0000_0000,
        x < 0x8000_0000_0000_0000_0000_0000,
        y < 0x8000_0000_0000_0000_0000_0000,
    ensures
        r == (a * x <= b * y),
{
    let w: u128 = 0x1_0000_0000_0000_0000;
    let xh = x / w;
    let xl = x % w;
    let yh = y / w;
    let yl = y % w;
    proof {
        assert(xh < 0x8000_0000);
        assert(yh < 0x8000_0000);
        assert(a * xl < 0x200_0000_0000 * 0x1_0000_0000_0000_0000) by (nonlinear_arith)
            requires
                a < 0x200_0000_0000,
                xl < 0x1_0000_0000_0000_0000,
        ;
        assert(b * yl < 0x200_0000_0000 * 0x1_0000_0000_0000_0000) by (nonlinear_arith)
            requires
                b < 0x200_0000_0000,
                yl < 0x1_0000_0000_0000_0000,
        ;
        assert(a * xh < 0x200_0000_0000 * 0x8000_0000) by (nonlinear_arith)
            requires
                a < 0x200_0000_0000,
                xh < 0x8000_0000,
        ;
        assert(b * yh < 0x200_0000_0000 * 0x8000_0000) by (nonlinear_arith)
            requires
                b < 0x200_0000_0000,
                yh < 0x8000_0000,
        ;
    }
    let lo_a = a * xl;
    let lo_b = b * yl;
    let hi_a = a * xh + lo_a / w;
    let hi_b = b * yh + lo_b / w;
    let la = lo_a % w;
    let lb = lo_b % w;
    proof {
        assert(x == xh * w + xl);
        assert(y == yh * w + yl);
        assert(a * x == hi_a * w + la) by (nonlinear_arith)
            requires
                x == xh * w + xl,
                lo_a == a * xl,
                hi_a == a * xh + lo_a / w,
                la == lo_a % w,
                w > 0,
        ;
        assert(b * y == hi_b * w + lb) by (nonlinear_arith)
            requires
                y == yh * w + yl,
                lo_b == b * yl,
                hi_b == b * yh + lo_b / w,
                lb == lo_b % w,
                w > 0,
        ;
        assert((hi_a * w + la <= hi_b * w + lb) == (hi_a < hi_b || (hi_a == hi_b && la <= lb)))
            by (nonlinear_arith)
            requires
                0 <= la < w,
                0 <= lb < w,
                hi_a >= 0,
                hi_b >= 0,
        ;
    }
    hi_a < hi_b || (hi_a == hi_b && la <= lb)
}

proof fn lemma_dot_scaled_bound(a: Seq<u32>, b: Seq<u32>, n: int)
    requires
        0 <= n <= a.len(),
        n <= b.len(),
        forall|i: int| 0 <= i < a.len() ==> #[trigger] a[i] <= SCALE,
        forall|i: int| 0 <= i < b.len() ==> #[trigger] b[i] <= SCALE,
    ensures
        0 <= dot_upto(a, b, n) <= n * (SCALE * SCALE),
    decreases n,
{
    if n > 0 {
        lemma_dot_scaled_bound(a, b, n - 1);
        let x = a[n - 1];
        let y = b[n - 1];
        assert(0 <= x * y <= SCALE * SCALE) by (nonlinear_arith)
            requires
                0 <= x <= SCALE,
                0 <= y <= SCALE,
        ;
    }
}

/// Clamped cosine similarity of two vectors on the fixed-point scale.
pub fn vector_similarity(a: &Vec<u32>, b: &Vec<u32>) -> (r: u64)
    requires
        vector_ok(a@),
        vector_ok(b@),
    ensures
        r as int == similarity(a@, b@),
        r <= SCALE,
{
    let na = dot_product(a, a);
    let nb = dot_product(b, b);
    let d = dot_product(a, b);
    if na == 0 || nb == 0 || d == 0 {
        return 0;
    }
    proof {
        lemma_dot_scaled_bound(a@, a@, a@.len() as int);
        lemma_dot_scaled_bound(b@, b@, b@.len() as int);
        let m = min_int(a@.len() as int, b@.len() as int);
        lemma_dot_scaled_bound(a@, b@, m);
        assert(na <= 128 * (SCALE * SCALE)) by (nonlinear_arith)
            requires
                na <= a@.len() * (SCALE * SCALE),
                a@.len() <= 128,
        ;
        assert(nb <= 128 * (SCALE * SCALE)) by (nonlinear_arith)
            requires
                nb <= b@.len() * (SCALE * SCALE),
                b@.len() <= 128,
        ;
        assert(d <= 128 * (SCALE * SCALE)) by (nonlinear_arith)
            requires
                d <= m * (SCALE * SCALE),
                m <= 128,
        ;
        assert(na * nb <= (128 * (SCALE * SCALE)) * (128 * (SCALE * SCALE))) by (nonlinear_arith)
            requires
                0 <= na <= 128 * (SCALE * SCALE),
                0 <= nb <= 128 * (SCALE * SCALE),
        ;
        assert(d * d <= (128 * (SCALE * SCALE)) * (128 * (SCALE * SCALE))) by (nonlinear_arith)
            requires
                0 <= d <= 128 * (SCALE * SCALE),
        ;
    }
    let p: u128 = na * nb;
    let dd: u128 = d * d;
    let s2: u128 = (SCALE as u128) * (SCALE as u128);
    if wide_le(s2, p, s2, dd) {
        proof {
            assert(is_cosine_floor(p as int, d as int, SCALE as int));
            lemma_cosine_floor_is(p as int, d as int, SCALE as int);
        }
        return SCALE;
    }
    let mut lo: u128 = 0;
    let mut hi: u128 = SCALE as u128;
    assert(within_cosine(p as int, d as int, 0)) by (nonlinear_arith)
        requires
            p >= 0,
    ;
    while hi - lo > 1
        invariant
            lo < hi <= SCALE,
            p < 0x8000_0000_0000_0000_0000_0000,
            dd < 0x8000_0000_0000_0000_0000_0000,
            dd == d * d,
            s2 == SCALE * SCALE,
            within_cosine(p as int, d as int, lo as int),
            !within_cosine(p as int, d as int, hi as int),
        decreases hi - lo,
    {
        let mid = lo + (hi - lo) / 2;
        assert(mid * mid < 0x200_0000_0000) by (nonlinear_arith)
            requires
                mid < SCALE,
        ;
        if wide_le(mid * mid, p, s2, dd) {
            lo = mid;
        } else {
            hi = mid;
        }
    }
    proof {
        assert(hi == lo + 1);
        assert(is_cosine_floor(p as int, d as int, lo as int));
        lemma_cosine_floor_is(p as int, d as int, lo as int);
    }
    lo as u64
}

/// A nonzero vector is fully similar to itself, and any vector has zero
/// similarity with a zero vector.
pub proof fn lemma_self_similarity(v: Seq<u32>, z: Seq<u32>)
    requires
        exists|i: int| 0 <= i < v.len() && v[i] != 0,
        forall|i: int| 0 <= i < z.len() ==> z[i] == 0,
    ensures
        similarity(v, v) == SCALE,
        similarity(v, z) == 0,
        similarity(z, v) == 0,
{
    let i = choose|i: int| 0 <= i < v.len() && v[i] != 0;
    lemma_norm_positive(v, v.len() as int, i);
    let n = dot(v, v);
    assert(is_cosine_floor(n * n, n, SCALE as int)) by (nonlinear_arith)
        requires
            n > 0,
    ;
    lemma_cosine_floor_is(n * n, n, SCALE as int);
    lemma_zero_norm(z, z.len() as int);
}

proof fn lemma_zero_norm(z: Seq<u32>, n: int)
    requires
        0 <= n <= z.len(),
        forall|i: int| 0 <= i < z.len() ==> z[i] == 0,
    ensures
        dot_upto(z, z, n) == 0,
    decreases n,
{
    if n > 0 {
        lemma_zero_norm(z, n - 1);
        assert(z[n - 1] == 0);
    }
}

} // verus!
