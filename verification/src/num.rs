//! Fixed-point arithmetic helpers: integer square root, sign-magnitude
//! scaling, clamping. Everything the motion and steering code needs to stay
//! inside `i64` with exact contracts.

use vstd::prelude::*;

verus! {

/// The integer square root: the largest `r` with `r * r <= n`, defined by
/// counting up from zero.
pub open spec fn int_sqrt(n: nat) -> nat
    decreases n,
{
    if n == 0 {
        0
    } else {
        let r = int_sqrt((n - 1) as nat);
        if (r + 1) * (r + 1) <= n {
            r + 1
        } else {
            r
        }
    }
}

/// `int_sqrt(n)` really is the integer square root of `n`.
pub proof fn lemma_int_sqrt(n: nat)
    ensures
        int_sqrt(n) * int_sqrt(n) <= n,
        n < (int_sqrt(n) + 1) * (int_sqrt(n) + 1),
    decreases n,
{
    if n == 0 {
        let r = int_sqrt(n);
        assert(r == 0);
        assert(n < (r + 1) * (r + 1)) by (nonlinear_arith)
            requires n == 0, r == 0,
        {}
    } else {
        lemma_int_sqrt((n - 1) as nat);
        let p = int_sqrt((n - 1) as nat);
        if (p + 1) * (p + 1) <= n {
            assert(int_sqrt(n) == p + 1);
            assert(n < (p + 2) * (p + 2)) by (nonlinear_arith)
                requires
                    n - 1 < (p + 1) * (p + 1),
                    p >= 0,
            {}
        } else {
            assert(int_sqrt(n) == p);
        }
    }
}

/// Squaring is strictly monotonic on naturals.
pub proof fn lemma_square_order(a: nat, b: nat)
    ensures
        a < b <==> a * a < b * b,
{
    assert(a < b <==> a * a < b * b) by (nonlinear_arith) {}
}

/// Any `r` that brackets `n` between `r²` and `(r+1)²` is the integer
/// square root.
pub proof fn lemma_int_sqrt_unique(n: nat, r: nat)
    requires
        r * r <= n,
        n < (r + 1) * (r + 1),
    ensures
        r == int_sqrt(n),
{
    lemma_int_sqrt(n);
    let s = int_sqrt(n);
    if r < s {
        lemma_square_order(r + 1, s + 1);
        assert((r + 1) * (r + 1) <= s * s) by (nonlinear_arith)
            requires r + 1 <= s,
        {}
    }
    if s < r {
        assert((s + 1) * (s + 1) <= r * r) by (nonlinear_arith)
            requires s + 1 <= r,
        {}
    }
}

/// Integer square root of a `u64`, by binary search.
pub fn isqrt_u64(n: u64) -> (r: u64)
    ensures
        r == int_sqrt(n as nat),
        r * r <= n,
{
    let mut lo: u64 = 0;
    let mut hi: u64 = 4_294_967_295;
    if n < hi {
        hi = n;
    }
    proof {
        assert((n as int) < (hi as int + 1) * (hi as int + 1)) by (nonlinear_arith)
            requires hi == if n < 4_294_967_295 { n as int } else { 4_294_967_295int }, n <= u64::MAX,
        {}
    }
    while lo < hi
        invariant
            lo <= hi,
            hi <= 4_294_967_295,
            (lo as int) * (lo as int) <= n as int,
            (n as int) < (hi as int + 1) * (hi as int + 1),
        decreases hi - lo,
    {
        let mid = lo + (hi - lo + 1) / 2;
        proof {
            assert(lo < mid <= hi);
            assert(mid * mid <= 0xffff_ffff_ffff_ffff) by (nonlinear_arith)
                requires mid <= 4_294_967_295,
            {}
        }
        if mid * mid <= n {
            lo = mid;
        } else {
            hi = mid - 1;
        }
    }
    proof {
        lemma_int_sqrt_unique(n as nat, lo as nat);
    }
    lo
}

/// `(a * num) / den`, rounded toward zero: the quotient is computed on the
/// magnitude of `a` and the sign is put back afterwards.
pub open spec fn muldiv(a: int, num: int, den: int) -> int {
    if a >= 0 {
        (a * num) / den
    } else {
        -(((-a) * num) / den)
    }
}

/// The magnitude of `muldiv` never exceeds the magnitude of `a * num / den`
/// computed without rounding; in particular it shrinks when `num <= den`.
pub proof fn lemma_muldiv_bound(a: int, num: int, den: int, cap: int)
    requires
        den > 0,
        num >= 0,
        cap >= 0,
        -cap <= a <= cap,
        num <= den,
    ensures
        -cap <= muldiv(a, num, den) <= cap,
{
    if a >= 0 {
        assert(0 <= (a * num) / den <= cap) by (nonlinear_arith)
            requires den > 0, 0 <= num <= den, 0 <= a <= cap,
        {}
    } else {
        assert(0 <= ((-a) * num) / den <= cap) by (nonlinear_arith)
            requires den > 0, 0 <= num <= den, 0 <= -a <= cap,
        {}
    }
}

/// A magnitude at most the denominator scales to at most the numerator:
/// `|a| <= den` gives `|a * num / den| <= num`.
pub proof fn lemma_muldiv_scale_bound(a: int, num: int, den: int)
    requires
        den > 0,
        num >= 0,
        -den <= a <= den,
    ensures
        -num <= muldiv(a, num, den) <= num,
{
    if a >= 0 {
        assert(0 <= (a * num) / den <= num) by (nonlinear_arith)
            requires den > 0, num >= 0, 0 <= a <= den,
        {}
    } else {
        assert(0 <= ((-a) * num) / den <= num) by (nonlinear_arith)
            requires den > 0, num >= 0, 0 <= -a <= den,
        {}
    }
}

/// Fixed-point scale: `(a * num) / den` rounded toward zero, exactly
/// [`muldiv`].
pub fn scale_i64(a: i64, num: u64, den: u64) -> (r: i64)
    requires
        den > 0,
        a > i64::MIN,
        (if a >= 0 { a as int } else { -(a as int) }) * num <= i64::MAX,
    ensures
        r == muldiv(a as int, num as int, den as int),
{
    let mag: u64 = if a >= 0 { a as u64 } else { (-a) as u64 };
    proof {
        assert(mag * num <= i64::MAX);
    }
    let q: u64 = (mag * num) / den;
    proof {
        assert(q <= mag * num) by (nonlinear_arith)
            requires den > 0, q == (mag as int * num as int) / (den as int), mag >= 0, num >= 0,
        {}
    }
    if a >= 0 {
        q as i64
    } else {
        -(q as i64)
    }
}

/// Clamp `v` into `[lo, hi]`.
pub fn clamp_i64(v: i64, lo: i64, hi: i64) -> (r: i64)
    requires
        lo <= hi,
    ensures
        r == if v < lo { lo as int } else if v > hi { hi as int } else { v as int },
        lo <= r <= hi,
{
    if v < lo {
        lo
    } else if v > hi {
        hi
    } else {
        v
    }
}

} // verus!
