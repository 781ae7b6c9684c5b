//! Exact performance scores.
//!
//! A score is a rational number `num / den`. All scoring formulas produce
//! denominators that are products of small powers of ten and the number of
//! punt attempts, so both components stay far inside the bounds below and
//! comparisons can be carried out exactly by cross-multiplication.

use vstd::prelude::*;

verus! {

/// Largest magnitude a score numerator may take.
pub const SCORE_NUM_BOUND: i128 = 40_000_000_000_000_000_000_000_000;

/// Largest value a score denominator may take.
pub const SCORE_DEN_BOUND: i128 = 3_000_000_000_000;

/// An exact rational score. Only the ordering of scores matters; two scores
/// with different representations may denote the same rational.
#[derive(Clone, Copy, Debug, PartialEq, Eq, Structural)]
pub struct Score {
    pub num: i128,
    pub den: i128,
}

/// Well-formed scores have a positive, bounded denominator and a bounded
/// numerator, so that cross-multiplication cannot overflow `i128`.
pub open spec fn score_wf(s: Score) -> bool {
    &&& 1 <= s.den <= SCORE_DEN_BOUND
    &&& -SCORE_NUM_BOUND <= s.num <= SCORE_NUM_BOUND
}

/// `a` denotes a strictly smaller rational than `b`.
pub open spec fn score_lt(a: Score, b: Score) -> bool {
    a.num * b.den < b.num * a.den
}

/// `a` and `b` denote the same rational.
pub open spec fn score_eq(a: Score, b: Score) -> bool {
    a.num * b.den == b.num * a.den
}

/// Compares two scores exactly.
pub fn score_less(a: &Score, b: &Score) -> (r: bool)
    requires
        score_wf(*a),
        score_wf(*b),
    ensures
        r == score_lt(*a, *b),
{
    proof {
        lemma_cross_products_bounded(*a, *b);
    }
    a.num * b.den < b.num * a.den
}

/// Decides whether two scores denote the same rational.
pub fn score_equal(a: &Score, b: &Score) -> (r: bool)
    requires
        score_wf(*a),
        score_wf(*b),
    ensures
        r == score_eq(*a, *b),
{
    proof {
        lemma_cross_products_bounded(*a, *b);
    }
    a.num * b.den == b.num * a.den
}

/// The cross products of two well-formed scores fit in `i128`.
proof fn lemma_cross_products_bounded(a: Score, b: Score)
    requires
        score_wf(a),
        score_wf(b),
    ensures
        -0x6000_0000_0000_0000_0000_0000_0000_0000 <= a.num * b.den
            <= 0x6000_0000_0000_0000_0000_0000_0000_0000,
        -0x6000_0000_0000_0000_0000_0000_0000_0000 <= b.num * a.den
            <= 0x6000_0000_0000_0000_0000_0000_0000_0000,
{
    assert(-0x6000_0000_0000_0000_0000_0000_0000_0000 <= a.num * b.den
        <= 0x6000_0000_0000_0000_0000_0000_0000_0000) by (nonlinear_arith)
        requires
            -SCORE_NUM_BOUND <= a.num <= SCORE_NUM_BOUND,
            1 <= b.den <= SCORE_DEN_BOUND,
            SCORE_NUM_BOUND == 40_000_000_000_000_000_000_000_000,
            SCORE_DEN_BOUND == 3_000_000_000_000,
    ;
    assert(-0x6000_0000_0000_0000_0000_0000_0000_0000 <= b.num * a.den
        <= 0x6000_0000_0000_0000_0000_0000_0000_0000) by (nonlinear_arith)
        requires
            -SCORE_NUM_BOUND <= b.num <= SCORE_NUM_BOUND,
            1 <= a.den <= SCORE_DEN_BOUND,
            SCORE_NUM_BOUND == 40_000_000_000_000_000_000_000_000,
            SCORE_DEN_BOUND == 3_000_000_000_000,
    ;
}

/// Strict score order is transitive.
pub proof fn lemma_score_lt_trans(a: Score, b: Score, c: Score)
    requires
        score_wf(a),
        score_wf(b),
        score_wf(c),
        score_lt(a, b),
        score_lt(b, c),
    ensures
        score_lt(a, c),
{
    assert(a.num * c.den < c.num * a.den) by (nonlinear_arith)
        requires
            a.den >= 1,
            b.den >= 1,
            c.den >= 1,
            a.num * b.den < b.num * a.den,
            b.num * c.den < c.num * b.den,
    ;
}

/// Score equality is transitive.
pub proof fn lemma_score_eq_trans(a: Score, b: Score, c: Score)
    requires
        score_wf(a),
        score_wf(b),
        score_wf(c),
        score_eq(a, b),
        score_eq(b, c),
    ensures
        score_eq(a, c),
{
    assert(a.num * c.den == c.num * a.den) by (nonlinear_arith)
        requires
            a.den >= 1,
            b.den >= 1,
            c.den >= 1,
            a.num * b.den == b.num * a.den,
            b.num * c.den == c.num * b.den,
    ;
}

/// A score equal to `a` is below everything that `a` is below.
pub proof fn lemma_score_eq_lt(a: Score, b: Score, c: Score)
    requires
        score_wf(a),
        score_wf(b),
        score_wf(c),
        score_eq(a, b),
        score_lt(b, c),
    ensures
        score_lt(a, c),
{
    assert(a.num * c.den < c.num * a.den) by (nonlinear_arith)
        requires
            a.den >= 1,
            b.den >= 1,
            c.den >= 1,
            a.num * b.den == b.num * a.den,
            b.num * c.den < c.num * b.den,
    ;
}

/// A score below `b` is also below everything equal to `b`.
pub proof fn lemma_score_lt_eq(a: Score, b: Score, c: Score)
    requires
        score_wf(a),
        score_wf(b),
        score_wf(c),
        score_lt(a, b),
        score_eq(b, c),
    ensures
        score_lt(a, c),
{
    assert(a.num * c.den < c.num * a.den) by (nonlinear_arith)
        requires
            a.den >= 1,
            b.den >= 1,
            c.den >= 1,
            a.num * b.den < b.num * a.den,
            b.num * c.den == c.num * b.den,
    ;
}

/// Age and experience multiplier, in hundredths. Young or inexperienced
/// players are boosted, veterans decay linearly to a floor of one half.
pub open spec fn spec_age_multiplier(age: int, years_pro: int) -> int {
    if age <= 24 || years_pro <= 2 {
        120
    } else if age <= 26 {
        110
    } else if age <= 29 {
        100
    } else if 100 - 4 * (age - 30) >= 50 {
        100 - 4 * (age - 30)
    } else {
        50
    }
}

/// Computes the age multiplier of a player, in hundredths.
pub fn age_multiplier_hundredths(age: u8, years_pro: u8) -> (m: u32)
    ensures
        m as int == spec_age_multiplier(age as int, years_pro as int),
        50 <= m <= 120,
{
    if age <= 24 || years_pro <= 2 {
        120
    } else if age <= 26 {
        110
    } else if age <= 29 {
        100
    } else {
        let decayed: i32 = 100 - 4 * ((age as i32) - 30);
        if decayed >= 50 {
            decayed as u32
        } else {
            50
        }
    }
}

} // verus!
