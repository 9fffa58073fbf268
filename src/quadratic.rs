//! Closed-form solution of a quadratic equation with integer coefficients.

use vstd::prelude::*;

verus! {

/// The real number `(base + coef * sqrt(radicand)) / denom`.
///
/// The radicand is never negative. A zero denominator stands for the
/// non-finite value that a division by zero gives.
#[derive(Clone, Copy, Debug, PartialEq, Eq)]
pub struct Surd {
    pub base: i64,
    pub coef: i64,
    pub radicand: i64,
    pub denom: i64,
}

impl Surd {
    /// Numerator of the surd when `s` stands for the square root of the radicand.
    pub open spec fn numer_with(self, s: int) -> int {
        self.base + self.coef * s
    }
}

/// The discriminant `b^2 - 4ac`.
pub open spec fn discriminant(a: int, b: int, c: int) -> int {
    b * b - 4 * (a * c)
}

pub open spec fn abs(x: int) -> int {
    if x < 0 { -x } else { x }
}

/// The surd `(-b + sign * sqrt(|d|)) / 2a`, or `-b / 2a` when `sign` is zero.
pub open spec fn root_with_sign(a: int, b: int, c: int, sign: int) -> Surd {
    let d = discriminant(a, b, c);
    Surd {
        base: (-b) as i64,
        coef: sign as i64,
        radicand: (if sign == 0 { 0 } else { abs(d) }) as i64,
        denom: (2 * a) as i64,
    }
}

/// The roots of `a x^2 + b x + c`.
///
/// A zero discriminant gives the single root `-b / 2a`. Otherwise the pair
/// `(-b + sqrt|d|) / 2a` and `(-b - sqrt|d|) / 2a` comes back, with a flag
/// that is set when the discriminant is negative: the roots are then complex,
/// and the pair holds the real part plus and minus the size of the imaginary
/// part, with the imaginary unit dropped.
pub open spec fn quadratic_roots(a: int, b: int, c: int) -> (Surd, Option<(Surd, bool)>) {
    let d = discriminant(a, b, c);
    if d == 0 {
        (root_with_sign(a, b, c, 0), None)
    } else {
        (root_with_sign(a, b, c, 1), Some((root_with_sign(a, b, c, -1), d < 0)))
    }
}

/// What `a x^2 + b x + c` becomes, multiplied by `denom^2`, when the root `r`
/// is put in for `x` and `s` for the square root of its radicand.
pub open spec fn scaled_residual(a: int, b: int, c: int, r: Surd, s: int) -> int {
    let n = r.numer_with(s);
    let q = r.denom as int;
    a * n * n + b * n * q + c * q * q
}

/// Solves `a x^2 + b x + c = 0` in closed form.
///
/// No coefficient is refused: with `a == 0` the roots carry a zero
/// denominator.
pub fn solve_quadratic(a: i16, b: i16, c: i16) -> (r: (Surd, Option<(Surd, bool)>))
    ensures
        r == quadratic_roots(a as int, b as int, c as int),
{
    let a: i64 = a as i64;
    let b: i64 = b as i64;
    let c: i64 = c as i64;
    proof {
        assert(0 <= b * b <= 0x4000_0000) by (nonlinear_arith)
            requires
                -0x8000 <= b <= 0x7fff,
        ;
        assert(-0x4000_0000 <= a * c <= 0x4000_0000) by (nonlinear_arith)
            requires
                -0x8000 <= a <= 0x7fff,
                -0x8000 <= c <= 0x7fff,
        ;
    }
    let disc: i64 = b * b - 4 * (a * c);
    assert(disc == discriminant(a as int, b as int, c as int));
    let minus_b: i64 = -b;
    let double_a: i64 = 2 * a;
    if disc == 0 {
        (Surd { base: minus_b, coef: 0, radicand: 0, denom: double_a }, None)
    } else {
        let size: i64 = if disc < 0 { -disc } else { disc };
        let first = Surd { base: minus_b, coef: 1, radicand: size, denom: double_a };
        let second = Surd { base: minus_b, coef: -1, radicand: size, denom: double_a };
        (first, Some((second, disc < 0)))
    }
}

/// The scaled residual of a root whose square root carries the coefficient
/// `k` is `a * (k^2 s^2 - d)`, whatever `s` is.
proof fn lemma_residual_identity(a: int, b: int, c: int, k: int, s: int)
    ensures
        ({
            let n = -b + k * s;
            let q = 2 * a;
            a * n * n + b * n * q + c * q * q == a * (k * k * s * s - discriminant(a, b, c))
        }),
{
    let t = k * s;
    let n = -b + t;
    let q = 2 * a;
    assert(n * n == t * t - 2 * (b * t) + b * b) by (nonlinear_arith)
        requires
            n == -b + t,
    ;
    assert(a * n * n == a * (t * t) - 2 * (a * (b * t)) + a * (b * b)) by (nonlinear_arith)
        requires
            n * n == t * t - 2 * (b * t) + b * b,
    ;
    assert(b * n * q == 2 * (a * (b * t)) - 2 * (a * (b * b))) by (nonlinear_arith)
        requires
            n == -b + t,
            q == 2 * a,
    ;
    assert(c * q * q == 4 * (a * (a * c))) by (nonlinear_arith)
        requires
            q == 2 * a,
    ;
    assert(t * t == k * k * s * s) by (nonlinear_arith)
        requires
            t == k * s,
    ;
    assert(a * (k * k * s * s - discriminant(a, b, c)) == a * (t * t) - a * (b * b) + 4 * (a
        * (a * c))) by (nonlinear_arith)
        requires
            t * t == k * k * s * s,
            discriminant(a, b, c) == b * b - 4 * (a * c),
    ;
}

/// With `a != 0` and a discriminant that is not negative, every root that
/// `solve_quadratic` returns is finite and solves the equation: put in with
/// `s` a square root of its radicand, `a x^2 + b x + c` comes to zero.
pub proof fn lemma_roots_solve_equation(a: i16, b: i16, c: i16, s: int)
    requires
        a != 0,
        discriminant(a as int, b as int, c as int) >= 0,
    ensures
        ({
            let (first, rest) = quadratic_roots(a as int, b as int, c as int);
            &&& first.denom != 0
            &&& (s * s == first.radicand ==> scaled_residual(a as int, b as int, c as int, first, s) == 0)
            &&& rest matches Some((second, complex)) ==> {
                &&& !complex
                &&& second.denom != 0
                &&& (s * s == second.radicand ==> scaled_residual(a as int, b as int, c as int, second, s) == 0)
            }
        }),
{
    let (a, b, c) = (a as int, b as int, c as int);
    let d = discriminant(a, b, c);
    assert(0 <= b * b <= 0x4000_0000) by (nonlinear_arith)
        requires
            -0x8000 <= b <= 0x7fff,
    ;
    assert(-0x4000_0000 <= a * c <= 0x4000_0000) by (nonlinear_arith)
        requires
            -0x8000 <= a <= 0x7fff,
            -0x8000 <= c <= 0x7fff,
    ;
    let (first, rest) = quadratic_roots(a, b, c);
    if d == 0 {
        lemma_residual_identity(a, b, c, 0, s);
        assert(0 * 0 * s * s == 0) by (nonlinear_arith);
        assert(scaled_residual(a, b, c, first, s) == a * (0 * 0 * s * s - d));
    } else {
        let second = root_with_sign(a, b, c, -1);
        lemma_residual_identity(a, b, c, 1, s);
        lemma_residual_identity(a, b, c, -1, s);
        assert(1 * 1 * s * s == s * s && (-1) * (-1) * s * s == s * s) by (nonlinear_arith);
        assert(first.radicand == d && second.radicand == d);
        if s * s == d {
            assert(a * (s * s - d) == 0) by (nonlinear_arith)
                requires
                    s * s == d,
            ;
            assert(scaled_residual(a, b, c, first, s) == 0);
            assert(scaled_residual(a, b, c, second, s) == 0);
        }
    }
}

} // verus!
