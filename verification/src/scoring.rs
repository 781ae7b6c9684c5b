//! Position-group scoring formulas.
//!
//! Each formula yields an exact rational [`Score`]. Points are accumulated in
//! myriadths (1/10000) of a point: a whole-number stat contributes
//! `100 * stat * weight` and a stat held in hundredths contributes
//! `stat * weight`, with weights in hundredths. The age multiplier is applied
//! as a factor of `mult / 100`, so ordinary scores have denominator 10^6.
//! A player missing from a table contributes zero, never an error.

use crate::config::ScoreWeights;
use crate::config::weights_wf;
use crate::score::SCORE_NUM_BOUND;
use crate::score::Score;
use crate::score::score_wf;
use crate::stats::DefenseRecord;
use crate::stats::KickingRecord;
use crate::stats::PassingRecord;
use crate::stats::PuntingRecord;
use crate::stats::ReceivingRecord;
use crate::stats::RushingRecord;
use crate::stats::kicking_wf;
use crate::stats::punting_wf;
use vstd::prelude::*;

verus! {

/// Smallest admissible scoring factor for an offensive lineman, in
/// ten-thousandths.
pub const OL_FACTOR_MIN: u32 = 9000;

/// One past the largest admissible scoring factor for an offensive lineman,
/// in ten-thousandths.
pub const OL_FACTOR_MAX: u32 = 11000;

/// Denominator of ordinary scores: the multiplier contributes 1/100 and the
/// myriadth points contribute 1/10000.
pub const SCORE_DEN: i128 = 1_000_000;

/// Passing points in myriadths, before the age multiplier.
pub open spec fn spec_passing_points(r: PassingRecord, w: ScoreWeights) -> int {
    100 * r.pass_yards * w.pass_yard + 100 * r.pass_tds * w.pass_td + 100 * r.interceptions
        * w.int_lost
}

/// Rushing points in myriadths, before the age multiplier.
pub open spec fn spec_rushing_points(r: RushingRecord, w: ScoreWeights) -> int {
    100 * r.rush_yards * w.rush_yard + 100 * r.rush_tds * w.rush_td + 100 * r.fumbles * w.fumble
}

/// Receiving points in myriadths, before the age multiplier.
pub open spec fn spec_receiving_points(r: ReceivingRecord, w: ScoreWeights) -> int {
    100 * r.rec_yards * w.rec_yard + 100 * r.rec_tds * w.rec_td + 100 * r.catches * w.catch + 100
        * r.drops * w.drop
}

/// Defensive points in myriadths, before the age multiplier. Tackles and
/// sacks are already held in hundredths, so they meet their hundredth-scaled
/// weights without a further factor.
pub open spec fn spec_defense_points(r: DefenseRecord, w: ScoreWeights) -> int {
    r.tackles_hundredths * w.tackle + 100 * r.deflections * w.deflection + 100 * r.catches_allowed
        * w.catch_allowed + r.sacks_hundredths * w.sack + 100 * r.def_tds * w.def_td + 100
        * r.forced_fumbles * w.forced_fumble + 100 * r.fumble_recoveries * w.fumble_recovery + 100
        * r.interceptions * w.int_forced + 100 * r.int_return_yards * w.int_return_yard + 100
        * r.safeties * w.safety
}

/// Kicking points in myriadths, before the age multiplier. Misses are
/// attempts that were not made.
pub open spec fn spec_kicking_points(r: KickingRecord, w: ScoreWeights) -> int {
    100 * r.fg_made * w.fg + 100 * r.fg50_made * w.fg50 + 100 * (r.fg_attempts - r.fg_made)
        * w.fg_miss + 100 * (r.fg50_attempts - r.fg50_made) * w.fg50_miss + 100 * r.xp_made * w.xp
        + 100 * (r.xp_attempts - r.xp_made) * w.xp_miss
}

/// Points of an absent record are zero.
pub open spec fn spec_opt_passing_points(o: Option<PassingRecord>, w: ScoreWeights) -> int {
    match o {
        Some(r) => spec_passing_points(r, w),
        None => 0,
    }
}

/// Points of an absent record are zero.
pub open spec fn spec_opt_rushing_points(o: Option<RushingRecord>, w: ScoreWeights) -> int {
    match o {
        Some(r) => spec_rushing_points(r, w),
        None => 0,
    }
}

/// Points of an absent record are zero.
pub open spec fn spec_opt_receiving_points(o: Option<ReceivingRecord>, w: ScoreWeights) -> int {
    match o {
        Some(r) => spec_receiving_points(r, w),
        None => 0,
    }
}

/// Points of an absent record are zero.
pub open spec fn spec_opt_defense_points(o: Option<DefenseRecord>, w: ScoreWeights) -> int {
    match o {
        Some(r) => spec_defense_points(r, w),
        None => 0,
    }
}

/// Points of an absent record are zero.
pub open spec fn spec_opt_kicking_points(o: Option<KickingRecord>, w: ScoreWeights) -> int {
    match o {
        Some(r) => spec_kicking_points(r, w),
        None => 0,
    }
}

/// The score of a quarterback: the age multiplier times the passing and
/// rushing points.
pub open spec fn spec_qb_score(
    mult: int,
    pass: Option<PassingRecord>,
    rush: Option<RushingRecord>,
    w: ScoreWeights,
) -> Score {
    Score {
        num: (mult * (spec_opt_passing_points(pass, w) + spec_opt_rushing_points(rush, w))) as i128,
        den: SCORE_DEN,
    }
}

/// The score of a ball carrier or receiver: the age multiplier times the
/// receiving and rushing points.
pub open spec fn spec_receiver_score(
    mult: int,
    recv: Option<ReceivingRecord>,
    rush: Option<RushingRecord>,
    w: ScoreWeights,
) -> Score {
    Score {
        num: (mult * (spec_opt_receiving_points(recv, w) + spec_opt_rushing_points(rush, w))) as i128,
        den: SCORE_DEN,
    }
}

/// The score of a defender: the age multiplier times the defensive points.
pub open spec fn spec_defense_score(
    mult: int,
    stats: Option<DefenseRecord>,
    w: ScoreWeights,
) -> Score {
    Score { num: (mult * spec_opt_defense_points(stats, w)) as i128, den: SCORE_DEN }
}

/// The score of a kicker: the age multiplier times the kicking points.
pub open spec fn spec_kicker_score(
    mult: int,
    stats: Option<KickingRecord>,
    w: ScoreWeights,
) -> Score {
    Score { num: (mult * spec_opt_kicking_points(stats, w)) as i128, den: SCORE_DEN }
}

/// The score of an offensive lineman: no stats exist for the group, so the
/// score is the best overall rating scaled by the age multiplier and by an
/// injected factor in `[OL_FACTOR_MIN, OL_FACTOR_MAX)` ten-thousandths.
pub open spec fn spec_ol_score(mult: int, best_overall: int, factor: int) -> Score {
    Score { num: (mult * best_overall * factor) as i128, den: SCORE_DEN }
}

/// The score of a punter. A punter with fewer than six games receives the
/// tiny score `games_played / 100` (times the age multiplier): per-punt
/// averages are unreliable on a small sample, so such a punter ranks below
/// every punter with ordinary per-punt figures. Otherwise the score is the
/// average punt yardage times its weight plus the fraction of punts downed
/// inside the 20, times the age multiplier.
pub open spec fn spec_punter_score(mult: int, stats: Option<PuntingRecord>, w: ScoreWeights) -> Score {
    match stats {
        None => Score { num: 0, den: SCORE_DEN },
        Some(r) => {
            if r.games_played < 6 {
                Score { num: (r.games_played * mult) as i128, den: 10_000 }
            } else {
                Score {
                    num: (mult * (r.avg_yards_hundredths * w.punt_avg_yard * r.punt_attempts
                        + 10_000 * r.punts_inside_20)) as i128,
                    den: (1_000_000 * r.punt_attempts) as i128,
                }
            }
        },
    }
}

/// Multiplies a hundredth-scaled stat by a hundredth-scaled weight.
fn mul_term(a: i64, b: i64) -> (r: i64)
    requires
        -500_000_000_000 <= a <= 500_000_000_000,
        -100_000 <= b <= 100_000,
    ensures
        r == a * b,
        -50_000_000_000_000_000 <= r <= 50_000_000_000_000_000,
{
    proof {
        assert(-50_000_000_000_000_000 <= a * b <= 50_000_000_000_000_000) by (nonlinear_arith)
            requires
                -500_000_000_000 <= a <= 500_000_000_000,
                -100_000 <= b <= 100_000,
        ;
    }
    a * b
}

/// Applies the age multiplier to a myriadth point total, producing the
/// numerator of an ordinary score.
fn apply_multiplier(mult: u32, points: i64) -> (r: i128)
    requires
        50 <= mult <= 120,
        -1_000_000_000_000_000_000 <= points <= 1_000_000_000_000_000_000,
    ensures
        r == mult * points,
        -SCORE_NUM_BOUND <= r <= SCORE_NUM_BOUND,
{
    proof {
        assert(-120_000_000_000_000_000_000 <= (mult as i128) * (points as i128)
            <= 120_000_000_000_000_000_000) by (nonlinear_arith)
            requires
                50 <= mult <= 120,
                -1_000_000_000_000_000_000 <= points as i128 <= 1_000_000_000_000_000_000,
        ;
        assert(120_000_000_000_000_000_000i128 <= SCORE_NUM_BOUND);
    }
    (mult as i128) * (points as i128)
}

/// Computes a quarterback's score exactly.
pub fn qb_score(
    mult: u32,
    pass: Option<PassingRecord>,
    rush: Option<RushingRecord>,
    w: &ScoreWeights,
) -> (r: Score)
    requires
        50 <= mult <= 120,
        weights_wf(*w),
    ensures
        r == spec_qb_score(mult as int, pass, rush, *w),
        score_wf(r),
{
    let pass_points: i64 = match pass {
        Some(rec) => {
            let t1 = mul_term(100 * (rec.pass_yards as i64), w.pass_yard as i64);
            let t2 = mul_term(100 * (rec.pass_tds as i64), w.pass_td as i64);
            let t3 = mul_term(100 * (rec.interceptions as i64), w.int_lost as i64);
            t1 + t2 + t3
        },
        None => 0,
    };
    let rush_points: i64 = rushing_points(rush, w);
    let num = apply_multiplier(mult, pass_points + rush_points);
    Score { num, den: SCORE_DEN }
}

/// Computes the rushing point total of a player, in myriadths.
fn rushing_points(rush: Option<RushingRecord>, w: &ScoreWeights) -> (r: i64)
    requires
        weights_wf(*w),
    ensures
        r == spec_opt_rushing_points(rush, *w),
        -150_000_000_000_000_000 <= r <= 150_000_000_000_000_000,
{
    match rush {
        Some(rec) => {
            let t1 = mul_term(100 * (rec.rush_yards as i64), w.rush_yard as i64);
            let t2 = mul_term(100 * (rec.rush_tds as i64), w.rush_td as i64);
            let t3 = mul_term(100 * (rec.fumbles as i64), w.fumble as i64);
            t1 + t2 + t3
        },
        None => 0,
    }
}

/// Computes a receiver's or ball carrier's score exactly.
pub fn receiver_score(
    mult: u32,
    recv: Option<ReceivingRecord>,
    rush: Option<RushingRecord>,
    w: &ScoreWeights,
) -> (r: Score)
    requires
        50 <= mult <= 120,
        weights_wf(*w),
    ensures
        r == spec_receiver_score(mult as int, recv, rush, *w),
        score_wf(r),
{
    let recv_points: i64 = match recv {
        Some(rec) => {
            let t1 = mul_term(100 * (rec.rec_yards as i64), w.rec_yard as i64);
            let t2 = mul_term(100 * (rec.rec_tds as i64), w.rec_td as i64);
            let t3 = mul_term(100 * (rec.catches as i64), w.catch as i64);
            let t4 = mul_term(100 * (rec.drops as i64), w.drop as i64);
            t1 + t2 + t3 + t4
        },
        None => 0,
    };
    let rush_points: i64 = rushing_points(rush, w);
    let num = apply_multiplier(mult, recv_points + rush_points);
    Score { num, den: SCORE_DEN }
}

/// Computes a defender's score exactly.
pub fn defense_score(mult: u32, stats: Option<DefenseRecord>, w: &ScoreWeights) -> (r: Score)
    requires
        50 <= mult <= 120,
        weights_wf(*w),
    ensures
        r == spec_defense_score(mult as int, stats, *w),
        score_wf(r),
{
    let points: i64 = match stats {
        Some(rec) => {
            let t1 = mul_term(rec.tackles_hundredths as i64, w.tackle as i64);
            let t2 = mul_term(100 * (rec.deflections as i64), w.deflection as i64);
            let t3 = mul_term(100 * (rec.catches_allowed as i64), w.catch_allowed as i64);
            let t4 = mul_term(rec.sacks_hundredths as i64, w.sack as i64);
            let t5 = mul_term(100 * (rec.def_tds as i64), w.def_td as i64);
            let t6 = mul_term(100 * (rec.forced_fumbles as i64), w.forced_fumble as i64);
            let t7 = mul_term(100 * (rec.fumble_recoveries as i64), w.fumble_recovery as i64);
            let t8 = mul_term(100 * (rec.interceptions as i64), w.int_forced as i64);
            let t9 = mul_term(100 * (rec.int_return_yards as i64), w.int_return_yard as i64);
            let t10 = mul_term(100 * (rec.safeties as i64), w.safety as i64);
            t1 + t2 + t3 + t4 + t5 + t6 + t7 + t8 + t9 + t10
        },
        None => 0,
    };
    let num = apply_multiplier(mult, points);
    Score { num, den: SCORE_DEN }
}

/// Computes a kicker's score exactly.
pub fn kicker_score(mult: u32, stats: Option<KickingRecord>, w: &ScoreWeights) -> (r: Score)
    requires
        50 <= mult <= 120,
        weights_wf(*w),
        stats is Some ==> kicking_wf(stats->0),
    ensures
        r == spec_kicker_score(mult as int, stats, *w),
        score_wf(r),
{
    let points: i64 = match stats {
        Some(rec) => {
            let fg_miss = rec.fg_attempts - rec.fg_made;
            let fg50_miss = rec.fg50_attempts - rec.fg50_made;
            let xp_miss = rec.xp_attempts - rec.xp_made;
            let t1 = mul_term(100 * (rec.fg_made as i64), w.fg as i64);
            let t2 = mul_term(100 * (rec.fg50_made as i64), w.fg50 as i64);
            let t3 = mul_term(100 * (fg_miss as i64), w.fg_miss as i64);
            let t4 = mul_term(100 * (fg50_miss as i64), w.fg50_miss as i64);
            let t5 = mul_term(100 * (rec.xp_made as i64), w.xp as i64);
            let t6 = mul_term(100 * (xp_miss as i64), w.xp_miss as i64);
            t1 + t2 + t3 + t4 + t5 + t6
        },
        None => 0,
    };
    let num = apply_multiplier(mult, points);
    Score { num, den: SCORE_DEN }
}

/// Computes an offensive lineman's score from an injected factor.
pub fn ol_score(mult: u32, best_overall: u8, factor: u32) -> (r: Score)
    requires
        50 <= mult <= 120,
        OL_FACTOR_MIN <= factor < OL_FACTOR_MAX,
    ensures
        r == spec_ol_score(mult as int, best_overall as int, factor as int),
        score_wf(r),
{
    proof {
        assert(0 <= (mult as i128) * (best_overall as i128) <= 30600) by (nonlinear_arith)
            requires
                50 <= mult <= 120,
                0 <= best_overall <= 255,
        ;
        assert(0 <= 30600i128 * 11000 <= SCORE_NUM_BOUND);
        assert(0 <= (mult as i128) * (best_overall as i128) * (factor as i128) <= 30600i128
            * 11000) by (nonlinear_arith)
            requires
                0 <= (mult as i128) * (best_overall as i128) <= 30600,
                0 <= factor < 11000,
        ;
    }
    let num = (mult as i128) * (best_overall as i128) * (factor as i128);
    Score { num, den: SCORE_DEN }
}

/// Computes a punter's score exactly.
pub fn punter_score(mult: u32, stats: Option<PuntingRecord>, w: &ScoreWeights) -> (r: Score)
    requires
        50 <= mult <= 120,
        weights_wf(*w),
        stats is Some ==> punting_wf(stats->0),
    ensures
        r == spec_punter_score(mult as int, stats, *w),
        score_wf(r),
{
    match stats {
        None => Score { num: 0, den: SCORE_DEN },
        Some(rec) => {
            if rec.games_played < 6 {
                proof {
                    assert(0 <= (rec.games_played as i128) * (mult as i128) <= 30600)
                        by (nonlinear_arith)
                        requires
                            0 <= rec.games_played < 6,
                            50 <= mult <= 120,
                    ;
                }
                Score { num: (rec.games_played as i128) * (mult as i128), den: 10_000 }
            } else {
                proof {
                    assert(-1_000_000_000_000_000_000 <= (rec.avg_yards_hundredths as i128) * (
                    w.punt_avg_yard as i128) * (rec.punt_attempts as i128)
                        <= 1_000_000_000_000_000_000) by (nonlinear_arith)
                        requires
                            0 <= rec.avg_yards_hundredths <= 10_000_000,
                            -100_000 <= w.punt_avg_yard <= 100_000,
                            0 <= rec.punt_attempts <= 1_000_000,
                    ;
                    assert(-1_000_000_000_000 <= (rec.avg_yards_hundredths as i128) * (
                    w.punt_avg_yard as i128) <= 1_000_000_000_000) by (nonlinear_arith)
                        requires
                            0 <= rec.avg_yards_hundredths <= 10_000_000,
                            -100_000 <= w.punt_avg_yard <= 100_000,
                    ;
                }
                let avg_term = (rec.avg_yards_hundredths as i128) * (w.punt_avg_yard as i128) * (
                rec.punt_attempts as i128);
                let inside_term = 10_000i128 * (rec.punts_inside_20 as i128);
                let num = apply_multiplier_i128(mult, avg_term + inside_term);
                Score { num, den: 1_000_000i128 * (rec.punt_attempts as i128) }
            }
        },
    }
}

/// Applies the age multiplier to an `i128` point total.
fn apply_multiplier_i128(mult: u32, points: i128) -> (r: i128)
    requires
        50 <= mult <= 120,
        -2_000_000_000_000_000_000 <= points <= 2_000_000_000_000_000_000,
    ensures
        r == mult * points,
        -SCORE_NUM_BOUND <= r <= SCORE_NUM_BOUND,
{
    proof {
        assert(-240_000_000_000_000_000_000 <= (mult as i128) * points
            <= 240_000_000_000_000_000_000) by (nonlinear_arith)
            requires
                50 <= mult <= 120,
                -2_000_000_000_000_000_000 <= points <= 2_000_000_000_000_000_000,
        ;
        assert(240_000_000_000_000_000_000i128 <= SCORE_NUM_BOUND);
    }
    (mult as i128) * points
}

/// A player absent from every stat table scores zero points, whatever the
/// weights; the age multiplier leaves such a score at zero, so two stat-less
/// players tie regardless of their ages.
pub proof fn lemma_zero_stats_score(m1: int, m2: int, w1: ScoreWeights, w2: ScoreWeights)
    ensures
        spec_qb_score(m1, None, None, w1).num == 0,
        spec_receiver_score(m1, None, None, w1).num == 0,
        spec_defense_score(m1, None, w1).num == 0,
        spec_kicker_score(m1, None, w1).num == 0,
        spec_punter_score(m1, None, w1).num == 0,
        crate::score::score_eq(spec_qb_score(m1, None, None, w1), spec_qb_score(m2, None, None, w2)),
{
    assert(spec_opt_passing_points(None, w1) == 0);
    assert(spec_opt_rushing_points(None, w1) == 0);
    assert(spec_opt_receiving_points(None, w1) == 0);
    assert(spec_opt_defense_points(None, w1) == 0);
    assert(spec_opt_kicking_points(None, w1) == 0);
    assert(m1 * (0 + 0) == 0) by (nonlinear_arith);
    assert(m1 * 0 == 0) by (nonlinear_arith);
    assert(m2 * (0 + 0) == 0) by (nonlinear_arith);
}

/// A punter with fewer than six games ranks strictly below any punter with
/// a qualifying sample, under the standard punt-average weight, whatever the
/// age multipliers, as long as the qualifying punter averages more than six
/// yards a punt.
pub proof fn lemma_small_sample_punter_ranks_low(
    m1: int,
    r1: PuntingRecord,
    m2: int,
    r2: PuntingRecord,
    w: ScoreWeights,
)
    requires
        50 <= m1 <= 120,
        50 <= m2 <= 120,
        punting_wf(r1),
        punting_wf(r2),
        r1.games_played < 6,
        r2.games_played >= 6,
        w.punt_avg_yard == 2,
        r2.avg_yards_hundredths >= 601,
    ensures
        crate::score::score_lt(spec_punter_score(m1, Some(r1), w), spec_punter_score(m2, Some(r2), w)),
{
    let g1 = r1.games_played as int;
    let att = r2.punt_attempts as int;
    let avg = r2.avg_yards_hundredths as int;
    let in20 = r2.punts_inside_20 as int;
    let s1 = spec_punter_score(m1, Some(r1), w);
    let s2 = spec_punter_score(m2, Some(r2), w);
    assert(0 <= g1 * m1 <= 600) by (nonlinear_arith)
        requires
            0 <= g1 <= 5,
            50 <= m1 <= 120,
    ;
    assert(s1.num == g1 * m1);
    let inner = avg * 2 * att + 10_000 * in20;
    assert(1202 * att <= inner <= 3_000_000_000_000_000_000) by (nonlinear_arith)
        requires
            601 <= avg <= 10_000_000,
            1 <= att <= 1_000_000,
            0 <= in20 <= att,
            inner == avg * 2 * att + 10_000 * in20,
    ;
    assert(60_100 * att <= m2 * inner <= 360_000_000_000_000_000_000) by (nonlinear_arith)
        requires
            50 <= m2 <= 120,
            1202 * att <= inner <= 3_000_000_000_000_000_000,
            1 <= att,
    ;
    assert(s2.num == m2 * inner);
    assert(s2.den == 1_000_000 * att);
    assert(s1.num * s2.den <= 600 * (1_000_000 * att)) by (nonlinear_arith)
        requires
            0 <= s1.num <= 600,
            s2.den == 1_000_000 * att,
            1 <= att,
    ;
    assert(s2.num * s1.den >= (60_100 * att) * 10_000) by (nonlinear_arith)
        requires
            s2.num >= 60_100 * att,
            s1.den == 10_000,
            1 <= att,
    ;
    assert(600 * (1_000_000 * att) < (60_100 * att) * 10_000) by (nonlinear_arith)
        requires
            1 <= att,
    ;
}

} // verus!
