//! Binary floating-point results, computed with integers: rounding to a number
//! of significant bits, and lengths scaled by a double-precision factor.
use vstd::prelude::*;
use crate::format::{nearest, nearest_of};

verus! {

/// Integers below this are exact in double precision.
pub const DOUBLE_LIMIT: u64 = 0x20_0000_0000_0000;

/// Integers below this are exact in single precision.
pub const SINGLE_LIMIT: u64 = 0x100_0000;

/// The smallest power of two, from `u` on, whose multiples below `limit` times
/// itself reach beyond `n`.
pub open spec fn spacing(n: nat, limit: nat, u: nat) -> nat
    decreases n - u,
{
    if u == 0 || limit < 2 || n < u * limit {
        u
    } else {
        proof {
            assert(u * limit >= 2 * u) by (nonlinear_arith)
                requires
                    limit >= 2,
            ;
        }
        spacing(n, limit, 2 * u)
    }
}

/// The number rounded to the significant bits that `limit` leaves; ties go to
/// even.
pub open spec fn rounded(n: nat, limit: nat) -> nat {
    let u = spacing(n, limit, 1);
    nearest(n, u) * u
}

/// The nearest integer is at most half a unit away.
pub proof fn nearest_is_near(a: nat, b: nat)
    requires
        b > 0,
    ensures
        2 * (nearest(a, b) * b) <= 2 * a + b,
        2 * a <= 2 * (nearest(a, b) * b) + b,
{
    let q = a / b;
    let r = a % b;
    assert(a == q * b + r && r < b) by (nonlinear_arith)
        requires
            b > 0,
            q == a / b,
            r == a % b,
    ;
    assert((q + 1) * b == q * b + b) by (nonlinear_arith);
}

/// The spacing is one, or small against the number.
pub proof fn spacing_is_small(n: nat, limit: nat, u: nat)
    requires
        u > 0,
        limit >= 2,
        u == 1 || u * limit <= 2 * n,
    ensures
        spacing(n, limit, u) > 0,
        n < spacing(n, limit, u) * limit,
        spacing(n, limit, u) == 1 || spacing(n, limit, u) * limit <= 2 * n,
    decreases n - u,
{
    if n >= u * limit {
        assert(u * limit >= 2 * u && (2 * u) * limit == 2 * (u * limit)) by (nonlinear_arith)
            requires
                limit >= 2,
        ;
        spacing_is_small(n, limit, 2 * u);
    }
}

/// What fits into the significant bits is kept, and what does not is changed by
/// at most half a unit in the last place.
pub proof fn rounding_is_close(n: nat, limit: nat)
    requires
        limit >= 2,
    ensures
        n < limit ==> rounded(n, limit) == n,
        2 * (rounded(n, limit) * limit) <= 2 * (n * limit) + 2 * n,
        2 * (n * limit) <= 2 * (rounded(n, limit) * limit) + 2 * n,
{
    let u = spacing(n, limit, 1);
    let v = rounded(n, limit);
    spacing_is_small(n, limit, 1);
    nearest_is_near(n, u);
    if u == 1 {
        assert(nearest(n, 1) == n);
        assert(v == n);
    } else {
        assert(2 * (v * limit) <= 2 * (n * limit) + 2 * n && 2 * (n * limit) <= 2 * (v * limit) + 2 * n)
            by (nonlinear_arith)
            requires
                2 * v <= 2 * n + u,
                2 * n <= 2 * v + u,
                u * limit <= 2 * n,
        ;
    }
}

/// Rounds a number to significant bits.
pub fn round_to(n: u128, limit: u64) -> (r: u128)
    requires
        n < 0x80_0000_0000_0000_0000_0000_0000_0000,
        limit >= 2,
    ensures
        r == rounded(n as nat, limit as nat),
        r <= 2 * n,
{
    let mut u: u128 = 1;
    while n / u >= limit as u128
        invariant
            n < 0x80_0000_0000_0000_0000_0000_0000_0000,
            limit >= 2,
            0 < u,
            u == 1 || u <= n,
            spacing(n as nat, limit as nat, 1) == spacing(n as nat, limit as nat, u as nat),
        decreases n + 1 - u,
    {
        proof {
            let q = n / u;
            assert(n >= u * limit && u * limit >= 2 * u) by (nonlinear_arith)
                requires
                    q == n / u,
                    q >= limit,
                    limit >= 2,
                    u > 0,
            ;
        }
        u = 2 * u;
    }
    proof {
        let q = n / u;
        assert(n < u * limit) by (nonlinear_arith)
            requires
                q == n / u,
                q < limit,
                u > 0,
        ;
        nearest_is_near(n as nat, u as nat);
        rounding_is_close(n as nat, limit as nat);
    }
    let k = nearest_of(n, u);
    proof {
        let v = rounded(n as nat, limit as nat);
        assert(v <= 2 * n) by (nonlinear_arith)
            requires
                2 * (v * limit) <= 2 * (n * limit) + 2 * n,
                limit >= 2,
                n >= 0,
        ;
    }
    k * u
}

// ---------------------------------------------------------------------------
// Scaled lengths
// ---------------------------------------------------------------------------
/// The smallest power of two, from `p` on, that lifts `n / d` to `2^52`.
pub open spec fn quotient_scale(n: nat, d: nat, p: nat) -> nat
    decreases d * 0x20_0000_0000_0000 - n * p,
{
    if n == 0 || p == 0 || n * p >= d * 0x10_0000_0000_0000 {
        p
    } else {
        proof {
            assert(n * (2 * p) == 2 * (n * p) && n * p > 0) by (nonlinear_arith)
                requires
                    n > 0,
                    p > 0,
            ;
        }
        quotient_scale(n, d, 2 * p)
    }
}

/// The integer nearest to `side * (n / d)`, quotient and product both taken in
/// double precision; halves go up. Where there is nothing to divide by, zero.
pub open spec fn scaled_length(side: nat, n: nat, d: nat) -> nat {
    if n == 0 || d == 0 {
        0
    } else {
        let p = quotient_scale(n, d, 1);
        let v = rounded(side * nearest(n * p, d), DOUBLE_LIMIT as nat);
        (2 * v + p) / (2 * p)
    }
}

pub(crate) proof fn scale_lifts(n: nat, d: nat, p: nat)
    requires
        n > 0,
        d > 0,
        p > 0,
        p == 1 || n * p < d * 0x20_0000_0000_0000,
        n < d * 0x20_0000_0000_0000,
    ensures
        quotient_scale(n, d, p) > 0,
        n * quotient_scale(n, d, p) >= d * 0x10_0000_0000_0000,
        n * quotient_scale(n, d, p) < d * 0x20_0000_0000_0000,
    decreases d * 0x20_0000_0000_0000 - n * p,
{
    if n * p < d * 0x10_0000_0000_0000 {
        assert(n * (2 * p) == 2 * (n * p) && n * p > 0) by (nonlinear_arith)
            requires
                n > 0,
                p > 0,
        ;
        scale_lifts(n, d, 2 * p);
    }
}

/// A length scaled to fit a limit stays within it, in spite of the rounding.
pub proof fn scaled_length_fits(side: nat, n: nat, d: nat, limit: nat)
    requires
        0 < n < 0x100_0000,
        d > 0,
        side * n <= limit * d,
        limit < 0x100_0000,
    ensures
        scaled_length(side, n, d) <= limit,
{
    let p = quotient_scale(n, d, 1);
    let m = nearest(n * p, d);
    let s = side * m;
    let v = rounded(s, DOUBLE_LIMIT as nat);
    let l: nat = 0x10_0000_0000_0000;
    scale_lifts(n, d, 1);
    nearest_is_near(n * p, d);
    rounding_is_close(s, DOUBLE_LIMIT as nat);
    let np = n * p;
    assert(2 * (m * d) * l <= np * (2 * l + 1)) by (nonlinear_arith)
        requires
            2 * (m * d) <= 2 * np + d,
            np >= d * l,
            l == 0x10_0000_0000_0000,
    ;
    assert(2 * (v * l) <= s * (2 * l + 1)) by (nonlinear_arith)
        requires
            2 * (v * (2 * l)) <= 2 * (s * (2 * l)) + 2 * s,
    ;
    let a = 2 * l + 1;
    assert(side * np <= limit * d * p) by (nonlinear_arith)
        requires
            np == n * p,
            side * n <= limit * d,
            p > 0,
    ;
    assert((2 * (v * l)) * (2 * d * l) <= (s * a) * (2 * d * l)) by (nonlinear_arith)
        requires
            2 * (v * l) <= s * a,
            d > 0,
            l > 0,
    ;
    assert((s * a) * (2 * d * l) == side * a * (2 * (m * d) * l)) by (nonlinear_arith)
        requires
            s == side * m,
    ;
    assert(side * a * (2 * (m * d) * l) <= side * a * (np * a)) by (nonlinear_arith)
        requires
            2 * (m * d) * l <= np * a,
            side >= 0,
            a > 0,
    ;
    assert(side * a * (np * a) == (side * np) * (a * a)) by (nonlinear_arith);
    assert((side * np) * (a * a) <= (limit * d * p) * (a * a)) by (nonlinear_arith)
        requires
            side * np <= limit * d * p,
    ;
    assert((2 * (v * l)) * (2 * d * l) == d * (4 * v * l * l)) by (nonlinear_arith);
    assert((limit * d * p) * (a * a) == d * (limit * p * (a * a))) by (nonlinear_arith);
    let lhs = 4 * v * l * l;
    let rhs = limit * p * (a * a);
    assert(lhs <= rhs) by (nonlinear_arith)
        requires
            d * lhs <= d * rhs,
            d > 0,
    ;
    let w = limit * p;
    assert(rhs == w * (4 * (l * l) + 4 * l + 1)) by (nonlinear_arith)
        requires
            rhs == limit * p * (a * a),
            a == 2 * l + 1,
            w == limit * p,
    ;
    assert(w < 0x100_0000 * p) by (nonlinear_arith)
        requires
            w == limit * p,
            limit < 0x100_0000,
            p > 0,
    ;
    let x = l * l;
    let rest = w * (4 * l + 1);
    assert(rest < (2 * p) * x) by (nonlinear_arith)
        requires
            rest == w * (4 * l + 1),
            w < 0x100_0000 * p,
            l == 0x10_0000_0000_0000,
            x == l * l,
            p > 0,
    ;
    assert((4 * v) * x <= (4 * w) * x + rest) by (nonlinear_arith)
        requires
            4 * v * l * l <= w * (4 * (l * l) + 4 * l + 1),
            rest == w * (4 * l + 1),
            x == l * l,
    ;
    assert((4 * v) * x < (4 * w + 2 * p) * x) by (nonlinear_arith)
        requires
            rest < (2 * p) * x,
            (4 * v) * x <= (4 * w) * x + rest,
    ;
    assert(4 * v < 4 * w + 2 * p) by (nonlinear_arith)
        requires
            (4 * v) * x < (4 * w + 2 * p) * x,
            x == l * l,
    ;
    assert((2 * v + p) / (2 * p) <= limit) by (nonlinear_arith)
        requires
            2 * v < 2 * w + p,
            w == limit * p,
            p > 0,
    ;
}

/// Scales a length.
pub(crate) fn scale_length(side: u32, n: u32, d: u32, limit: Ghost<nat>) -> (r: u32)
    requires
        n < 0x100_0000,
        side * n <= limit@ * d,
        limit@ < 0x100_0000,
    ensures
        r == scaled_length(side as nat, n as nat, d as nat),
        r <= limit@,
{
    if n == 0 || d == 0 {
        return 0;
    }
    let wide: u128 = d as u128;
    let mut p: u128 = 1;
    while n as u128 * p < wide * 0x10_0000_0000_0000
        invariant
            0 < n < 0x100_0000,
            0 < d,
            wide == d,
            0 < p,
            p <= 0x20_0000_0000_0000_0000_0000,
            p == 1 || n * p < d * 0x20_0000_0000_0000,
            quotient_scale(n as nat, d as nat, 1) == quotient_scale(n as nat, d as nat, p as nat),
        decreases wide * 0x20_0000_0000_0000 - n * p,
    {
        proof {
            assert(n * (2 * p) == 2 * (n * p) && n * p >= p) by (nonlinear_arith)
                requires
                    n > 0,
                    p > 0,
            ;
        }
        p = 2 * p;
    }
    proof {
        scale_lifts(n as nat, d as nat, 1);
        scaled_length_fits(side as nat, n as nat, d as nat, limit@);
        assert(n * p >= p) by (nonlinear_arith)
            requires
                n > 0,
                p > 0,
        ;
        nearest_is_near((n * p) as nat, d as nat);
    }
    let m = nearest_of(n as u128 * p, wide);
    proof {
        assert(m <= 0x20_0000_0000_0001) by (nonlinear_arith)
            requires
                2 * (m * d) <= 2 * (n * p) + d,
                n * p < d * 0x20_0000_0000_0000,
                d > 0,
        ;
        assert(side * m <= 0xffff_ffff * 0x20_0000_0000_0001) by (nonlinear_arith)
            requires
                side <= 0xffff_ffff,
                m <= 0x20_0000_0000_0001,
        ;
    }
    let v = round_to(side as u128 * m, DOUBLE_LIMIT);
    ((2 * v + p) / (2 * p)) as u32
}

} // verus!
