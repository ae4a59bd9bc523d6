use vstd::prelude::*;

verus! {

/// Length units in one pixel.
pub const PIXEL: i64 = 1_000_000_000;

/// Largest magnitude any stored coordinate, velocity or acceleration takes.
pub const LIMIT: i64 = 4_503_599_627_370_496;

/// Bound on an intermediate product when rescaling a vector.
const SCALED_BOUND: i128 = 40564819207303340847894502572032;

/// Saturates a mathematical integer into `[-LIMIT, LIMIT]`.
pub open spec fn clamp(x: int) -> int {
    if x > LIMIT {
        LIMIT as int
    } else if x < -LIMIT {
        -LIMIT
    } else {
        x
    }
}

/// A value that lies within the stored range.
pub open spec fn in_range(x: int) -> bool {
    -LIMIT <= x <= LIMIT
}

/// Saturating conversion of an intermediate result into a stored value.
pub fn saturate(x: i128) -> (r: i64)
    ensures
        r == clamp(x as int),
        in_range(r as int),
{
    if x > LIMIT as i128 {
        LIMIT
    } else if x < -(LIMIT as i128) {
        -LIMIT
    } else {
        x as i64
    }
}

/// `r` is the integer square root of `n`.
pub open spec fn is_isqrt(n: int, r: int) -> bool {
    0 <= r && r * r <= n < (r + 1) * (r + 1)
}

/// Squared Euclidean length of `(dx, dy)`.
pub open spec fn norm2(dx: int, dy: int) -> int {
    dx * dx + dy * dy
}

/// Largest value that `norm2` takes on differences of stored values.
pub open spec fn norm2_bound() -> int {
    162259276829213363391578010288128
}

pub proof fn lemma_norm2_bounded(dx: int, dy: int)
    requires
        -2 * LIMIT <= dx <= 2 * LIMIT,
        -2 * LIMIT <= dy <= 2 * LIMIT,
    ensures
        0 <= dx * dx <= 81129638414606681695789005144064,
        0 <= dy * dy <= 81129638414606681695789005144064,
        0 <= norm2(dx, dy) <= norm2_bound(),
{
    assert(0 <= dx * dx <= 81129638414606681695789005144064) by (nonlinear_arith)
        requires -9007199254740992 <= dx <= 9007199254740992;
    assert(0 <= dy * dy <= 81129638414606681695789005144064) by (nonlinear_arith)
        requires -9007199254740992 <= dy <= 9007199254740992;
}

/// Squared length of the difference of two stored points, computed exactly.
pub fn distance2(ax: i64, ay: i64, bx: i64, by: i64) -> (r: i128)
    requires
        in_range(ax as int),
        in_range(ay as int),
        in_range(bx as int),
        in_range(by as int),
    ensures
        r == norm2(bx - ax, by - ay),
        0 <= r <= norm2_bound(),
{
    let dx = bx as i128 - ax as i128;
    let dy = by as i128 - ay as i128;
    proof {
        lemma_norm2_bounded(dx as int, dy as int);
    }
    dx * dx + dy * dy
}

/// Integer square root by bisection.
pub fn isqrt(n: i128) -> (r: i128)
    requires
        0 <= n <= norm2_bound(),
    ensures
        is_isqrt(n as int, r as int),
{
    let mut lo: i128 = 0;
    let mut hi: i128 = 0x80_0000_0000_0000;
    assert(n < hi * hi) by (nonlinear_arith)
        requires n <= norm2_bound(), hi == 0x80_0000_0000_0000;
    while hi - lo > 1
        invariant
            0 <= lo < hi <= 0x80_0000_0000_0000,
            lo * lo <= n < hi * hi,
        decreases hi - lo,
    {
        let mid = lo + (hi - lo) / 2;
        assert(0 <= mid * mid < 0x80_0000_0000_0000 * 0x80_0000_0000_0000) by (nonlinear_arith)
            requires 0 <= mid < 0x80_0000_0000_0000;
        if mid * mid <= n {
            lo = mid;
        } else {
            hi = mid;
        }
    }
    lo
}

/// The component `a` of the vector `(a, b)` scaled to length `m`, where
/// `len` is the (integer) length of that vector; rounds toward zero.
pub open spec fn scaled_component(a: int, len: int, m: int) -> int {
    if a >= 0 {
        (m * a) / len
    } else {
        -((m * -a) / len)
    }
}

/// The vector `(dx, dy)` rescaled to length `m`, or nothing for the zero vector.
pub open spec fn scaled_toward(dx: int, dy: int, m: int) -> (int, int) {
    let len = isqrt_spec(norm2(dx, dy));
    if len == 0 {
        (0, 0)
    } else {
        (scaled_component(dx, len, m), scaled_component(dy, len, m))
    }
}

/// The integer square root of a non-negative integer.
pub open spec fn isqrt_spec(n: int) -> int {
    choose|r: int| is_isqrt(n, r)
}

pub proof fn lemma_isqrt_unique(n: int, r: int, s: int)
    requires
        is_isqrt(n, r),
        is_isqrt(n, s),
    ensures
        r == s,
{
    if r < s {
        assert((r + 1) * (r + 1) <= s * s) by (nonlinear_arith)
            requires 0 <= r, r + 1 <= s;
    } else if s < r {
        assert((s + 1) * (s + 1) <= r * r) by (nonlinear_arith)
            requires 0 <= s, s + 1 <= r;
    }
}

proof fn lemma_isqrt_spec(n: int, r: int)
    requires
        is_isqrt(n, r),
    ensures
        isqrt_spec(n) == r,
{
    let s = isqrt_spec(n);
    assert(is_isqrt(n, s));
    lemma_isqrt_unique(n, r, s);
}

/// `(m * a) / len` is at most `m` when `0 <= a <= len`.
proof fn lemma_scaled_at_most(a: int, len: int, m: int)
    requires
        0 <= a <= len,
        0 < len,
        0 <= m,
    ensures
        0 <= (m * a) / len <= m,
{
    assert(0 <= m * a <= m * len) by (nonlinear_arith)
        requires 0 <= a <= len, 0 <= m;
    vstd::arithmetic::div_mod::lemma_div_is_ordered(m * a, m * len, len);
    vstd::arithmetic::div_mod::lemma_div_is_ordered(0, m * a, len);
    vstd::arithmetic::div_mod::lemma_div_by_multiple(m, len);
}

/// A component is no longer than the integer length of its vector.
proof fn lemma_component_within_length(a: int, n: int, len: int)
    requires
        a * a <= n,
        is_isqrt(n, len),
    ensures
        -len <= a <= len,
{
    if a > len {
        assert((len + 1) * (len + 1) <= a * a) by (nonlinear_arith)
            requires 0 <= len, len + 1 <= a;
    } else if a < -len {
        assert((len + 1) * (len + 1) <= a * a) by (nonlinear_arith)
            requires 0 <= len, len + 1 <= -a;
    }
}

fn scale_component(a: i128, len: i128, m: i128) -> (r: i128)
    requires
        -2 * LIMIT <= a <= 2 * LIMIT,
        -len <= a <= len,
        0 < len,
        0 <= m <= LIMIT,
    ensures
        r == scaled_component(a as int, len as int, m as int),
        -m <= r <= m,
{
    if a >= 0 {
        assert(0 <= m * a <= SCALED_BOUND) by (nonlinear_arith)
            requires 0 <= a <= 9007199254740992, 0 <= m <= 4503599627370496;
        proof {
            lemma_scaled_at_most(a as int, len as int, m as int);
        }
        (m * a) / len
    } else {
        assert(0 <= m * -a <= SCALED_BOUND) by (nonlinear_arith)
            requires 0 <= -a <= 9007199254740992, 0 <= m <= 4503599627370496;
        proof {
            lemma_scaled_at_most(-a as int, len as int, m as int);
        }
        -((m * -a) / len)
    }
}

/// Rescales `(dx, dy)` to length `m`; the zero vector stays zero.
pub fn scale_toward(dx: i128, dy: i128, m: i128) -> (r: (i128, i128))
    requires
        -2 * LIMIT <= dx <= 2 * LIMIT,
        -2 * LIMIT <= dy <= 2 * LIMIT,
        0 <= m <= LIMIT,
    ensures
        r.0 == scaled_toward(dx as int, dy as int, m as int).0,
        r.1 == scaled_toward(dx as int, dy as int, m as int).1,
        -m <= r.0 <= m,
        -m <= r.1 <= m,
{
    proof {
        lemma_norm2_bounded(dx as int, dy as int);
    }
    let n = dx * dx + dy * dy;
    let len = isqrt(n);
    proof {
        lemma_isqrt_spec(n as int, len as int);
        lemma_component_within_length(dx as int, n as int, len as int);
        lemma_component_within_length(dy as int, n as int, len as int);
    }
    if len == 0 {
        (0, 0)
    } else {
        (scale_component(dx, len, m), scale_component(dy, len, m))
    }
}

} // verus!
