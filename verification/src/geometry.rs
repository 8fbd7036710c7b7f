//! The translation vector: from a polar (distance, heading) input to
//! Cartesian deltas, in exact fixed-point arithmetic.
//!
//! Every quantity is an `i64` in nanounits: `SCALE` fixed-point steps stand
//! for one length unit or one degree. The caller evaluates the trigonometry
//! of the effective heading and hands in the unit vector's components, each
//! scaled by `SCALE`; the functions here are exact on those integers.

use vstd::arithmetic::div_mod::{
    lemma_div_by_multiple, lemma_div_is_ordered, lemma_fundamental_div_mod, lemma_mod_bound,
};
use vstd::arithmetic::mul::lemma_mul_inequality;
use vstd::prelude::*;

verus! {

/// Fixed-point steps per unit: coordinates, distances and headings are
/// integers counting steps of 1/SCALE of a unit (or of a degree).
pub const SCALE: i64 = 1_000_000_000;

/// Mathematical absolute value.
pub open spec fn abs_int(a: int) -> int {
    if a < 0 {
        -a
    } else {
        a
    }
}

/// Product of a fixed-point value `a` and a fixed-point factor `b`, rescaled
/// back to fixed point: magnitude `|a| * |b| / SCALE` rounded toward zero,
/// carrying the sign of the exact product.
pub open spec fn scale_mul_spec(a: int, b: int) -> int {
    let m = (abs_int(a) * abs_int(b)) / (SCALE as int);
    if (a < 0) == (b < 0) {
        m
    } else {
        -m
    }
}

/// The heading the translation follows: turned a quarter turn
/// counter-clockwise when `sideways` is set, unchanged otherwise.
/// Headings are in nanodegrees.
pub open spec fn effective_heading_spec(heading: int, sideways: bool) -> int {
    if sideways {
        heading + 90 * (SCALE as int)
    } else {
        heading
    }
}

/// Resolves the sideways flag into the heading actually used for the
/// translation direction. The heading is not otherwise normalized or
/// wrapped.
pub fn effective_heading(heading: i64, sideways: bool) -> (r: i64)
    requires
        sideways ==> heading + 90 * (SCALE as int) <= i64::MAX,
    ensures
        r == effective_heading_spec(heading as int, sideways),
{
    if sideways {
        heading + 90 * SCALE
    } else {
        heading
    }
}

/// The sideways flag is exactly a quarter turn: a heading resolved with the
/// flag set gives the same effective heading as the heading advanced by
/// ninety degrees resolved with the flag clear. The translation deltas
/// depend on the heading only through the unit vector evaluated at the
/// effective heading, so the two calls translate identically.
pub proof fn lemma_sideways_is_quarter_turn(heading: int)
    ensures
        effective_heading_spec(heading, true) == effective_heading_spec(
            heading + 90 * (SCALE as int),
            false,
        ),
{
}

/// Fixed-point multiply of a distance by a unit-vector component, exact per
/// `scale_mul_spec`; the result never exceeds the distance in magnitude.
pub fn scale_mul(a: i64, b: i64) -> (r: i64)
    requires
        i64::MIN < a,
        -SCALE <= b <= SCALE,
    ensures
        r == scale_mul_spec(a as int, b as int),
        abs_int(r as int) <= abs_int(a as int),
{
    let negative = (a < 0) != (b < 0);
    let aa: u64 = if a < 0 {
        (-a) as u64
    } else {
        a as u64
    };
    let bb: u64 = if b < 0 {
        (-b) as u64
    } else {
        b as u64
    };
    proof {
        lemma_mul_inequality(bb as int, SCALE as int, aa as int);
        lemma_div_is_ordered((aa as int) * (bb as int), (aa as int) * (SCALE as int), SCALE as int);
        lemma_div_by_multiple(aa as int, SCALE as int);
        assert((aa as int) * (bb as int) == (bb as int) * (aa as int)) by (nonlinear_arith);
        assert((aa as int) * (SCALE as int) == (SCALE as int) * (aa as int)) by (nonlinear_arith);
    }
    let quotient: u128 = ((aa as u128) * (bb as u128)) / (SCALE as u128);
    if negative {
        -(quotient as i64)
    } else {
        quotient as i64
    }
}

/// Cartesian deltas of the translation: the distance scaled by the cosine
/// and sine of the effective heading, each given in SCALE-scaled fixed
/// point. A zero distance gives a zero delta whatever the direction; a
/// negative distance flips both components.
pub fn translation_deltas(distance: i64, cos_eff: i64, sin_eff: i64) -> (r: (i64, i64))
    requires
        i64::MIN < distance,
        -SCALE <= cos_eff <= SCALE,
        -SCALE <= sin_eff <= SCALE,
    ensures
        r.0 == scale_mul_spec(distance as int, cos_eff as int),
        r.1 == scale_mul_spec(distance as int, sin_eff as int),
        abs_int(r.0 as int) <= abs_int(distance as int),
        abs_int(r.1 as int) <= abs_int(distance as int),
{
    (scale_mul(distance, cos_eff), scale_mul(distance, sin_eff))
}

/// A zero distance translates nothing: both deltas are zero for every
/// direction.
pub proof fn lemma_zero_distance_no_translation(b: int)
    ensures
        scale_mul_spec(0, b) == 0,
{
    assert(abs_int(0) * abs_int(b) == 0) by (nonlinear_arith);
}

/// Negating the distance negates both deltas exactly: the translation of
/// `-d` is the inverse of the translation of `d`.
pub proof fn lemma_scale_mul_negated(a: int, b: int)
    ensures
        scale_mul_spec(-a, b) == -scale_mul_spec(a, b),
{
    if a == 0 {
        lemma_zero_distance_no_translation(b);
    }
}

/// Magnitude is preserved up to fixed-point rounding: for any exact unit
/// vector, one whose squared components sum to SCALE squared, the squared
/// deltas of a distance sum to the squared distance within 4·|distance| + 2
/// fixed-point steps; the direction alone changes.
pub proof fn lemma_magnitude_preserved(d: int, c: int, s: int)
    requires
        c * c + s * s == (SCALE as int) * (SCALE as int),
    ensures
        abs_int(
            scale_mul_spec(d, c) * scale_mul_spec(d, c) + scale_mul_spec(d, s) * scale_mul_spec(
                d,
                s,
            ) - d * d,
        ) <= 4 * abs_int(d) + 2,
{
    let sc = SCALE as int;
    let a = abs_int(d);
    let b = abs_int(c);
    let e = abs_int(s);
    assert(b * b == c * c) by (nonlinear_arith)
        requires
            b == abs_int(c),
            abs_int(c) == if c < 0 { -c } else { c },
    ;
    assert(e * e == s * s) by (nonlinear_arith)
        requires
            e == abs_int(s),
            abs_int(s) == if s < 0 { -s } else { s },
    ;
    assert(a * a == d * d) by (nonlinear_arith)
        requires
            a == abs_int(d),
            abs_int(d) == if d < 0 { -d } else { d },
    ;
    assert(b <= sc && e <= sc) by (nonlinear_arith)
        requires
            b >= 0,
            e >= 0,
            sc > 0,
            b * b + e * e == sc * sc,
    ;
    let q1 = (a * b) / sc;
    let r1 = (a * b) % sc;
    let q2 = (a * e) / sc;
    let r2 = (a * e) % sc;
    lemma_fundamental_div_mod(a * b, sc);
    lemma_fundamental_div_mod(a * e, sc);
    lemma_mod_bound(a * b, sc);
    lemma_mod_bound(a * e, sc);
    let dx = scale_mul_spec(d, c);
    let dy = scale_mul_spec(d, s);
    assert(dx == q1 || dx == -q1);
    assert(dy == q2 || dy == -q2);
    assert(dx * dx == q1 * q1) by (nonlinear_arith)
        requires
            dx == q1 || dx == -q1,
    ;
    assert(dy * dy == q2 * q2) by (nonlinear_arith)
        requires
            dy == q2 || dy == -q2,
    ;
    let diff = q1 * q1 + q2 * q2 - a * a;
    assert(sc * sc * (q1 * q1) == (a * b) * (a * b) - 2 * ((a * b) * r1) + r1 * r1)
        by (nonlinear_arith)
        requires
            a * b == sc * q1 + r1,
    ;
    assert(sc * sc * (q2 * q2) == (a * e) * (a * e) - 2 * ((a * e) * r2) + r2 * r2)
        by (nonlinear_arith)
        requires
            a * e == sc * q2 + r2,
    ;
    assert((a * b) * (a * b) + (a * e) * (a * e) == sc * sc * (a * a)) by (nonlinear_arith)
        requires
            b * b + e * e == sc * sc,
    ;
    assert(sc * sc * diff == sc * sc * (q1 * q1) + sc * sc * (q2 * q2) - sc * sc * (a * a))
        by (nonlinear_arith)
        requires
            diff == q1 * q1 + q2 * q2 - a * a,
    ;
    assert(sc * sc * diff == r1 * r1 + r2 * r2 - 2 * ((a * b) * r1 + (a * e) * r2));
    assert(r1 * r1 + r2 * r2 <= 2 * (sc * sc) - 2) by (nonlinear_arith)
        requires
            0 <= r1 < sc,
            0 <= r2 < sc,
            sc >= 1,
    ;
    assert((a * b) * r1 <= a * (sc * sc) && (a * b) * r1 >= 0) by (nonlinear_arith)
        requires
            a >= 0,
            0 <= b <= sc,
            0 <= r1 < sc,
    ;
    assert((a * e) * r2 <= a * (sc * sc) && (a * e) * r2 >= 0) by (nonlinear_arith)
        requires
            a >= 0,
            0 <= e <= sc,
            0 <= r2 < sc,
    ;
    assert(sc * sc * diff <= 2 * (sc * sc) - 2) by (nonlinear_arith)
        requires
            sc * sc * diff == r1 * r1 + r2 * r2 - 2 * ((a * b) * r1 + (a * e) * r2),
            r1 * r1 + r2 * r2 <= 2 * (sc * sc) - 2,
            (a * b) * r1 >= 0,
            (a * e) * r2 >= 0,
    ;
    assert(r1 * r1 >= 0 && r2 * r2 >= 0) by (nonlinear_arith)
        requires
            r1 >= 0,
            r2 >= 0,
    ;
    assert(sc * sc * diff >= -4 * a * (sc * sc)) by (nonlinear_arith)
        requires
            sc * sc * diff == r1 * r1 + r2 * r2 - 2 * ((a * b) * r1 + (a * e) * r2),
            r1 * r1 >= 0,
            r2 * r2 >= 0,
            (a * b) * r1 <= a * (sc * sc),
            (a * e) * r2 <= a * (sc * sc),
    ;
    assert(diff <= 2 && diff >= -4 * a) by (nonlinear_arith)
        requires
            sc > 0,
            sc * sc * diff <= 2 * (sc * sc) - 2,
            sc * sc * diff >= -4 * a * (sc * sc),
    ;
}

/// Magnitude is preserved exactly when the direction lies on an axis: for a
/// unit vector of (±SCALE, 0) or (0, ±SCALE), the squared deltas sum to the
/// squared distance.
pub proof fn lemma_axis_magnitude_preserved(d: int, c: int, s: int)
    requires
        (abs_int(c) == SCALE as int && s == 0) || (c == 0 && abs_int(s) == SCALE as int),
    ensures
        scale_mul_spec(d, c) * scale_mul_spec(d, c) + scale_mul_spec(d, s) * scale_mul_spec(d, s)
            == d * d,
{
    lemma_div_by_multiple(abs_int(d), SCALE as int);
    if abs_int(c) == SCALE as int && s == 0 {
        assert(abs_int(d) * abs_int(c) == abs_int(d) * (SCALE as int));
        assert(abs_int(d) * abs_int(s) == 0) by (nonlinear_arith)
            requires
                s == 0,
        ;
        assert(scale_mul_spec(d, s) == 0) by {
            assert(abs_int(d) * 0 == 0) by (nonlinear_arith);
        }
        assert(abs_int(scale_mul_spec(d, c)) == abs_int(d));
        assert(scale_mul_spec(d, c) * scale_mul_spec(d, c) == d * d) by (nonlinear_arith)
            requires
                abs_int(scale_mul_spec(d, c)) == abs_int(d),
        ;
    } else {
        assert(abs_int(d) * abs_int(s) == abs_int(d) * (SCALE as int));
        assert(abs_int(d) * abs_int(c) == 0) by (nonlinear_arith)
            requires
                c == 0,
        ;
        assert(scale_mul_spec(d, c) == 0) by {
            assert(abs_int(d) * 0 == 0) by (nonlinear_arith);
        }
        assert(abs_int(scale_mul_spec(d, s)) == abs_int(d));
        assert(scale_mul_spec(d, s) * scale_mul_spec(d, s) == d * d) by (nonlinear_arith)
            requires
                abs_int(scale_mul_spec(d, s)) == abs_int(d),
        ;
    }
}

} // verus!
