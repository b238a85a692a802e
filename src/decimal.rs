use vstd::prelude::*;
use crate::value::Decimal;

verus! {

/// `10^n`.
pub open spec fn pow10(n: nat) -> int
    decreases n,
{
    if n == 0 {
        1
    } else {
        10 * pow10((n - 1) as nat)
    }
}

/// The sign of `x`: -1, 0 or 1.
pub open spec fn sgn(x: int) -> int {
    if x > 0 {
        1
    } else if x < 0 {
        -1
    } else {
        0
    }
}

/// The mantissa of `d` with its sign.
pub open spec fn signed_mantissa(d: Decimal) -> int {
    if d.positive {
        d.mantissa as int
    } else {
        -(d.mantissa as int)
    }
}

/// The value of `d` in units of `10^base`, for `base <= d.exponent`.
pub open spec fn scaled(d: Decimal, base: int) -> int {
    signed_mantissa(d) * pow10((d.exponent - base) as nat)
}

/// The least of three integers.
pub open spec fn min3(a: int, b: int, c: int) -> int {
    if a <= b && a <= c {
        a
    } else if b <= c {
        b
    } else {
        c
    }
}

/// The sign of the exact sum `a + b + c`.
pub open spec fn sum_sign(a: Decimal, b: Decimal, c: Decimal) -> int {
    let base = min3(a.exponent as int, b.exponent as int, c.exponent as int);
    sgn(scaled(a, base) + scaled(b, base) + scaled(c, base))
}

/// `d` with the opposite sign.
pub open spec fn negated(d: Decimal) -> Decimal {
    Decimal { positive: !d.positive, ..d }
}

/// Zero, written with the exponent of `d`.
pub open spec fn zero_like(d: Decimal) -> Decimal {
    Decimal { positive: true, mantissa: 0, exponent: d.exponent }
}

pub(crate) proof fn lemma_pow10_pos(n: nat)
    ensures
        pow10(n) >= 1,
    decreases n,
{
    if n > 0 {
        lemma_pow10_pos((n - 1) as nat);
    }
}

proof fn lemma_pow10_add(a: nat, b: nat)
    ensures
        pow10(a + b) == pow10(a) * pow10(b),
    decreases a,
{
    if a > 0 {
        lemma_pow10_add((a - 1) as nat, b);
        assert(pow10(a + b) == 10 * pow10((a - 1 + b) as nat));
        assert(10 * (pow10((a - 1) as nat) * pow10(b)) == (10 * pow10((a - 1) as nat)) * pow10(b))
            by (nonlinear_arith);
    }
}

pub(crate) proof fn lemma_pow10_large(n: nat)
    requires
        n >= 20,
    ensures
        pow10(n) >= 100000000000000000000,
    decreases n,
{
    if n > 20 {
        lemma_pow10_large((n - 1) as nat);
    } else {
        reveal_with_fuel(pow10, 21);
    }
}

/// For `|t| < p`, the sign of `p * w + t` is that of `w`, or of `t` when `w` is zero.
proof fn lemma_sign_split(p: int, w: int, t: int)
    requires
        p >= 1,
        -p < t < p,
    ensures
        sgn(p * w + t) == if w != 0 {
            sgn(w)
        } else {
            sgn(t)
        },
{
    if w >= 1 {
        assert(p * w >= p) by (nonlinear_arith)
            requires
                w >= 1,
                p >= 1,
        ;
    } else if w <= -1 {
        assert(p * w <= -p) by (nonlinear_arith)
            requires
                w <= -1,
                p >= 1,
        ;
    }
}

pub(crate) fn pow10_small(g: u16) -> (r: i128)
    requires
        g < 20,
    ensures
        r == pow10(g as nat),
{
    let mut r: i128 = 1;
    let mut i: u16 = 0;
    proof {
        lemma_pow10_mono(0, 19);
    }
    while i < g
        invariant
            i <= g < 20,
            r == pow10(i as nat),
            r <= pow10(19),
        decreases g - i,
    {
        proof {
            reveal_with_fuel(pow10, 20);
            assert(pow10(19) == 10000000000000000000);
            assert(pow10((i + 1) as nat) <= pow10(19)) by {
                lemma_pow10_mono((i + 1) as nat, 19);
            }
        }
        r = r * 10;
        i = i + 1;
    }
    r
}

pub(crate) proof fn lemma_pow10_mono(a: nat, b: nat)
    requires
        a <= b,
    ensures
        pow10(a) <= pow10(b),
    decreases b,
{
    if a < b {
        lemma_pow10_mono(a, (b - 1) as nat);
        lemma_pow10_pos((b - 1) as nat);
    }
}

/// Splits `|lo|` by `10^g` into quotient and remainder, the quotient being
/// zero where `10^g` exceeds the bound on `lo`.
fn split(lo: i128, g: u16) -> (r: (i128, i128))
    requires
        -0x40000000000000000 <= lo <= 0x40000000000000000,
    ensures
        0 <= r.1 < pow10(g as nat),
        0 <= r.0 <= 0x40000000000000000,
        (if lo < 0 { -(lo as int) } else { lo as int }) == r.0 * pow10(g as nat) + r.1,
{
    let m: i128 = if lo < 0 { -lo } else { lo };
    if g >= 20 {
        proof {
            lemma_pow10_large(g as nat);
        }
        (0, m)
    } else {
        let p = pow10_small(g);
        proof {
            lemma_pow10_pos(g as nat);
        }
        let q = m / p;
        let rho = m % p;
        proof {
            assert(m == q * p + rho) by (nonlinear_arith)
                requires
                    p >= 1,
                    q == m / p,
                    rho == m % p,
            ;
            assert(q <= m) by (nonlinear_arith)
                requires
                    p >= 1,
                    m >= 0,
                    q == m / p,
            ;
        }
        (q, rho)
    }
}

/// The sign of `lo + 10^g * hi`.
fn sign_shifted(lo: i128, hi: i128, g: u16) -> (r: i8)
    requires
        -0x20000000000000000 <= lo <= 0x20000000000000000,
        -0x20000000000000000 <= hi <= 0x20000000000000000,
    ensures
        r as int == sgn(lo + pow10(g as nat) * hi),
{
    let (q, rho) = split(lo, g);
    let w: i128 = if lo < 0 { hi - q } else { hi + q };
    proof {
        let p = pow10(g as nat);
        let s: int = if lo < 0 { -1 } else { 1 };
        assert(lo + p * hi == p * w + s * rho) by (nonlinear_arith)
            requires
                lo == s * (q * p + rho),
                w == hi + s * q,
                s == 1 || s == -1,
        ;
        lemma_sign_split(p, w as int, s * rho);
    }
    if w > 0 {
        1
    } else if w < 0 {
        -1
    } else if rho == 0 {
        0
    } else if lo < 0 {
        -1
    } else {
        1
    }
}

/// The sign of `v1 + 10^g1 * (v2 + 10^g2 * v3)`.
fn sign_three(v1: i128, v2: i128, v3: i128, g1: u16, g2: u16) -> (r: i8)
    requires
        -0x10000000000000000 < v1 < 0x10000000000000000,
        -0x10000000000000000 < v2 < 0x10000000000000000,
        -0x10000000000000000 < v3 < 0x10000000000000000,
    ensures
        r as int == sgn(v1 + pow10(g1 as nat) * (v2 + pow10(g2 as nat) * v3)),
{
    let (q, rho) = split(v1, g1);
    proof {
        lemma_pow10_pos(g1 as nat);
        assert(q <= 0x10000000000000000) by (nonlinear_arith)
            requires
                q * pow10(g1 as nat) + rho < 0x10000000000000000,
                q >= 0,
                rho >= 0,
                pow10(g1 as nat) >= 1,
        ;
    }
    let lo: i128 = if v1 < 0 { v2 - q } else { v2 + q };
    let w = sign_shifted(lo, v3, g2);
    proof {
        let p = pow10(g1 as nat);
        let inner = lo + pow10(g2 as nat) * v3;
        let s: int = if v1 < 0 { -1 } else { 1 };
        assert(v1 + p * (v2 + pow10(g2 as nat) * v3) == p * inner + s * rho) by (nonlinear_arith)
            requires
                v1 == s * (q * p + rho),
                lo == v2 + s * q,
                inner == lo + pow10(g2 as nat) * v3,
                s == 1 || s == -1,
        ;
        lemma_sign_split(p, inner, s * rho);
    }
    if w != 0 {
        w
    } else if rho == 0 {
        0
    } else if v1 < 0 {
        -1
    } else {
        1
    }
}

fn signed_value(d: Decimal) -> (r: i128)
    ensures
        r == signed_mantissa(d),
{
    if d.positive {
        d.mantissa as i128
    } else {
        0 - (d.mantissa as i128)
    }
}

/// The sign of `a + b + c` for `a.exponent <= b.exponent <= c.exponent`.
fn sum_sign_sorted(a: Decimal, b: Decimal, c: Decimal) -> (r: i8)
    requires
        a.exponent <= b.exponent <= c.exponent,
    ensures
        r as int == sum_sign(a, b, c),
{
    let g1 = (b.exponent as i32 - a.exponent as i32) as u16;
    let g2 = (c.exponent as i32 - b.exponent as i32) as u16;
    let r = sign_three(signed_value(a), signed_value(b), signed_value(c), g1, g2);
    proof {
        let base = a.exponent as int;
        lemma_pow10_add(g1 as nat, g2 as nat);
        assert((c.exponent - base) as nat == g1 as nat + g2 as nat);
        let p1 = pow10(g1 as nat);
        let p2 = pow10(g2 as nat);
        assert(scaled(a, base) == signed_mantissa(a)) by {
            reveal_with_fuel(pow10, 1);
        }
        assert(scaled(b, base) == signed_mantissa(b) * p1);
        assert(scaled(c, base) == signed_mantissa(c) * (p1 * p2));
        assert(signed_mantissa(a) + p1 * (signed_mantissa(b) + p2 * signed_mantissa(c))
            == signed_mantissa(a) + signed_mantissa(b) * p1 + signed_mantissa(c) * (p1 * p2))
            by (nonlinear_arith);
    }
    r
}

/// The sign of the exact sum `a + b + c`: -1, 0 or 1.
pub fn decimal_sum_sign(a: Decimal, b: Decimal, c: Decimal) -> (r: i8)
    ensures
        r as int == sum_sign(a, b, c),
{
    if a.exponent <= b.exponent {
        if b.exponent <= c.exponent {
            sum_sign_sorted(a, b, c)
        } else if a.exponent <= c.exponent {
            sum_sign_sorted(a, c, b)
        } else {
            sum_sign_sorted(c, a, b)
        }
    } else if a.exponent <= c.exponent {
        sum_sign_sorted(b, a, c)
    } else if b.exponent <= c.exponent {
        sum_sign_sorted(b, c, a)
    } else {
        sum_sign_sorted(c, b, a)
    }
}

/// `d` with the opposite sign.
pub fn negate(d: Decimal) -> (r: Decimal)
    ensures
        r == negated(d),
{
    Decimal { positive: !d.positive, ..d }
}

} // verus!
