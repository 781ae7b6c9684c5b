//! Configuration: per-group quota bands, scoring weights, protection
//! thresholds and the 3-4 scheme team set, with the standard defaults.

use crate::position::PositionGroup;
use vstd::prelude::*;
use vstd::string::StringExecFns;

verus! {

/// Inclusive `[min, max]` quota bands for one position group, one band per
/// tier boundary. Counting is cumulative: a band bounds the number of players
/// at or above its boundary tier.
#[derive(Clone, Copy, Debug, PartialEq, Eq, Structural)]
pub struct GroupLimits {
    pub top_min: u32,
    pub top_max: u32,
    pub upper_min: u32,
    pub upper_max: u32,
    pub lower_min: u32,
    pub lower_max: u32,
}

/// Every band must be a non-empty interval.
pub open spec fn limits_wf(l: GroupLimits) -> bool {
    &&& l.top_min <= l.top_max
    &&& l.upper_min <= l.upper_max
    &&& l.lower_min <= l.lower_max
}

/// Scoring weights, in hundredths of a point per unit of the stat.
#[derive(Clone, Copy, Debug, PartialEq, Eq, Structural)]
pub struct ScoreWeights {
    pub pass_yard: i32,
    pub pass_td: i32,
    pub int_lost: i32,
    pub rush_yard: i32,
    pub rush_td: i32,
    pub fumble: i32,
    pub rec_yard: i32,
    pub rec_td: i32,
    pub catch: i32,
    pub drop: i32,
    pub tackle: i32,
    pub deflection: i32,
    pub catch_allowed: i32,
    pub sack: i32,
    pub def_td: i32,
    pub forced_fumble: i32,
    pub fumble_recovery: i32,
    pub int_forced: i32,
    pub int_return_yard: i32,
    pub safety: i32,
    pub fg: i32,
    pub fg50: i32,
    pub fg_miss: i32,
    pub fg50_miss: i32,
    pub xp: i32,
    pub xp_miss: i32,
    pub punt_avg_yard: i32,
}

/// Bound on one weight's magnitude, needed so that weighted sums stay inside
/// the score bounds.
pub const WEIGHT_BOUND: i32 = 100_000;

/// All weights bounded in magnitude by [`WEIGHT_BOUND`].
pub open spec fn weights_wf(w: ScoreWeights) -> bool {
    &&& -WEIGHT_BOUND <= w.pass_yard <= WEIGHT_BOUND
    &&& -WEIGHT_BOUND <= w.pass_td <= WEIGHT_BOUND
    &&& -WEIGHT_BOUND <= w.int_lost <= WEIGHT_BOUND
    &&& -WEIGHT_BOUND <= w.rush_yard <= WEIGHT_BOUND
    &&& -WEIGHT_BOUND <= w.rush_td <= WEIGHT_BOUND
    &&& -WEIGHT_BOUND <= w.fumble <= WEIGHT_BOUND
    &&& -WEIGHT_BOUND <= w.rec_yard <= WEIGHT_BOUND
    &&& -WEIGHT_BOUND <= w.rec_td <= WEIGHT_BOUND
    &&& -WEIGHT_BOUND <= w.catch <= WEIGHT_BOUND
    &&& -WEIGHT_BOUND <= w.drop <= WEIGHT_BOUND
    &&& -WEIGHT_BOUND <= w.tackle <= WEIGHT_BOUND
    &&& -WEIGHT_BOUND <= w.deflection <= WEIGHT_BOUND
    &&& -WEIGHT_BOUND <= w.catch_allowed <= WEIGHT_BOUND
    &&& -WEIGHT_BOUND <= w.sack <= WEIGHT_BOUND
    &&& -WEIGHT_BOUND <= w.def_td <= WEIGHT_BOUND
    &&& -WEIGHT_BOUND <= w.forced_fumble <= WEIGHT_BOUND
    &&& -WEIGHT_BOUND <= w.fumble_recovery <= WEIGHT_BOUND
    &&& -WEIGHT_BOUND <= w.int_forced <= WEIGHT_BOUND
    &&& -WEIGHT_BOUND <= w.int_return_yard <= WEIGHT_BOUND
    &&& -WEIGHT_BOUND <= w.safety <= WEIGHT_BOUND
    &&& -WEIGHT_BOUND <= w.fg <= WEIGHT_BOUND
    &&& -WEIGHT_BOUND <= w.fg50 <= WEIGHT_BOUND
    &&& -WEIGHT_BOUND <= w.fg_miss <= WEIGHT_BOUND
    &&& -WEIGHT_BOUND <= w.fg50_miss <= WEIGHT_BOUND
    &&& -WEIGHT_BOUND <= w.xp <= WEIGHT_BOUND
    &&& -WEIGHT_BOUND <= w.xp_miss <= WEIGHT_BOUND
    &&& -WEIGHT_BOUND <= w.punt_avg_yard <= WEIGHT_BOUND
}

/// Full run configuration.
pub struct LeagueConfig {
    pub qb: GroupLimits,
    pub hb: GroupLimits,
    pub fb: GroupLimits,
    pub wr: GroupLimits,
    pub te: GroupLimits,
    pub ol: GroupLimits,
    pub idl: GroupLimits,
    pub edge: GroupLimits,
    pub lb: GroupLimits,
    pub cb: GroupLimits,
    pub s: GroupLimits,
    pub k: GroupLimits,
    pub p: GroupLimits,
    pub weights: ScoreWeights,
    /// A rookie is protected when `years_pro <= rookie_max_years` and played
    /// at least `rookie_min_games` games.
    pub rookie_max_years: u8,
    pub rookie_min_games: u32,
    /// Teams running a 3-4 defensive front.
    pub scheme_teams: Vec<String>,
}

/// The quota bands configured for one group.
pub open spec fn spec_limits_for(c: &LeagueConfig, g: PositionGroup) -> GroupLimits {
    match g {
        PositionGroup::QB => c.qb,
        PositionGroup::HB => c.hb,
        PositionGroup::FB => c.fb,
        PositionGroup::WR => c.wr,
        PositionGroup::TE => c.te,
        PositionGroup::OL => c.ol,
        PositionGroup::IDL => c.idl,
        PositionGroup::EDGE => c.edge,
        PositionGroup::LB => c.lb,
        PositionGroup::CB => c.cb,
        PositionGroup::S => c.s,
        PositionGroup::K => c.k,
        PositionGroup::P => c.p,
    }
}

/// A configuration is well-formed when every band is a non-empty interval and
/// every weight is bounded.
pub open spec fn config_wf(c: &LeagueConfig) -> bool {
    &&& limits_wf(c.qb)
    &&& limits_wf(c.hb)
    &&& limits_wf(c.fb)
    &&& limits_wf(c.wr)
    &&& limits_wf(c.te)
    &&& limits_wf(c.ol)
    &&& limits_wf(c.idl)
    &&& limits_wf(c.edge)
    &&& limits_wf(c.lb)
    &&& limits_wf(c.cb)
    &&& limits_wf(c.s)
    &&& limits_wf(c.k)
    &&& limits_wf(c.p)
    &&& weights_wf(c.weights)
}

impl LeagueConfig {
    /// Returns the quota bands configured for `g`.
    pub fn limits_for(&self, g: PositionGroup) -> (r: GroupLimits)
        ensures
            r == spec_limits_for(self, g),
    {
        match g {
            PositionGroup::QB => self.qb,
            PositionGroup::HB => self.hb,
            PositionGroup::FB => self.fb,
            PositionGroup::WR => self.wr,
            PositionGroup::TE => self.te,
            PositionGroup::OL => self.ol,
            PositionGroup::IDL => self.idl,
            PositionGroup::EDGE => self.edge,
            PositionGroup::LB => self.lb,
            PositionGroup::CB => self.cb,
            PositionGroup::S => self.s,
            PositionGroup::K => self.k,
            PositionGroup::P => self.p,
        }
    }
}

/// The standard scoring weight table, in hundredths.
pub open spec fn spec_default_weights() -> ScoreWeights {
    ScoreWeights {
        pass_yard: 5i32,
        pass_td: 400i32,
        int_lost: -200i32,
        rush_yard: 10i32,
        rush_td: 400i32,
        fumble: -200i32,
        rec_yard: 10i32,
        rec_td: 400i32,
        catch: 25i32,
        drop: -5i32,
        tackle: 50i32,
        deflection: 100i32,
        catch_allowed: -20i32,
        sack: 200i32,
        def_td: 600i32,
        forced_fumble: 200i32,
        fumble_recovery: 200i32,
        int_forced: 300i32,
        int_return_yard: 5i32,
        safety: 300i32,
        fg: 300i32,
        fg50: 500i32,
        fg_miss: -100i32,
        fg50_miss: 90i32,
        xp: 100i32,
        xp_miss: -100i32,
        punt_avg_yard: 2i32,
    }
}

/// Builds the standard scoring weight table.
pub fn default_weights() -> (w: ScoreWeights)
    ensures
        w == spec_default_weights(),
        weights_wf(w),
{
    ScoreWeights {
        pass_yard: 5,
        pass_td: 400,
        int_lost: -200,
        rush_yard: 10,
        rush_td: 400,
        fumble: -200,
        rec_yard: 10,
        rec_td: 400,
        catch: 25,
        drop: -5,
        tackle: 50,
        deflection: 100,
        catch_allowed: -20,
        sack: 200,
        def_td: 600,
        forced_fumble: 200,
        fumble_recovery: 200,
        int_forced: 300,
        int_return_yard: 5,
        safety: 300,
        fg: 300,
        fg50: 500,
        fg_miss: -100,
        fg50_miss: 90,
        xp: 100,
        xp_miss: -100,
        punt_avg_yard: 2,
    }
}

/// The names of the teams that run a 3-4 defensive front.
pub open spec fn spec_default_scheme_teams() -> Seq<Seq<char>> {
    seq![
        "Broncos"@,
        "Buccaneers"@,
        "Chargers"@,
        "Cowboys"@,
        "Dolphins"@,
        "Falcons"@,
        "Giants"@,
        "Jaguars"@,
        "Patriots"@,
        "Saints"@,
        "Texans"@,
        "Titans"@,
    ]
}

/// Builds the standard 3-4 scheme team set.
pub fn default_scheme_teams() -> (r: Vec<String>)
    ensures
        r.deep_view() == spec_default_scheme_teams(),
{
    let v: Vec<String> = vec![
        String::from_str("Broncos"),
        String::from_str("Buccaneers"),
        String::from_str("Chargers"),
        String::from_str("Cowboys"),
        String::from_str("Dolphins"),
        String::from_str("Falcons"),
        String::from_str("Giants"),
        String::from_str("Jaguars"),
        String::from_str("Patriots"),
        String::from_str("Saints"),
        String::from_str("Texans"),
        String::from_str("Titans"),
    ];
    proof {
        assert(v.deep_view() =~= spec_default_scheme_teams());
    }
    v
}

/// The standard configuration: the usual quota bands per group, the standard
/// weight table, rookie protection at one year and eight games, and the
/// standard 3-4 scheme set.
pub fn default_config() -> (c: LeagueConfig)
    ensures
        c.qb == (GroupLimits {
            top_min: 2,
            top_max: 4,
            upper_min: 6,
            upper_max: 8,
            lower_min: 12,
            lower_max: 20,
        }),
        c.hb == (GroupLimits {
            top_min: 2,
            top_max: 4,
            upper_min: 8,
            upper_max: 12,
            lower_min: 30,
            lower_max: 40,
        }),
        c.fb == (GroupLimits {
            top_min: 0,
            top_max: 0,
            upper_min: 0,
            upper_max: 2,
            lower_min: 3,
            lower_max: 5,
        }),
        c.wr == (GroupLimits {
            top_min: 8,
            top_max: 12,
            upper_min: 12,
            upper_max: 18,
            lower_min: 45,
            lower_max: 60,
        }),
        c.te == (GroupLimits {
            top_min: 2,
            top_max: 4,
            upper_min: 6,
            upper_max: 8,
            lower_min: 24,
            lower_max: 32,
        }),
        c.ol == (GroupLimits {
            top_min: 0,
            top_max: 0,
            upper_min: 15,
            upper_max: 20,
            lower_min: 75,
            lower_max: 90,
        }),
        c.idl == (GroupLimits {
            top_min: 4,
            top_max: 6,
            upper_min: 10,
            upper_max: 12,
            lower_min: 36,
            lower_max: 50,
        }),
        c.edge == (GroupLimits {
            top_min: 4,
            top_max: 6,
            upper_min: 6,
            upper_max: 10,
            lower_min: 25,
            lower_max: 40,
        }),
        c.lb == (GroupLimits {
            top_min: 2,
            top_max: 4,
            upper_min: 6,
            upper_max: 10,
            lower_min: 24,
            lower_max: 36,
        }),
        c.cb == (GroupLimits {
            top_min: 3,
            top_max: 6,
            upper_min: 10,
            upper_max: 16,
            lower_min: 45,
            lower_max: 60,
        }),
        c.s == (GroupLimits {
            top_min: 3,
            top_max: 5,
            upper_min: 8,
            upper_max: 12,
            lower_min: 36,
            lower_max: 50,
        }),
        c.k == (GroupLimits {
            top_min: 0,
            top_max: 0,
            upper_min: 1,
            upper_max: 3,
            lower_min: 5,
            lower_max: 8,
        }),
        c.p == (GroupLimits {
            top_min: 0,
            top_max: 0,
            upper_min: 1,
            upper_max: 2,
            lower_min: 3,
            lower_max: 6,
        }),
        c.weights == spec_default_weights(),
        c.rookie_max_years == 1,
        c.rookie_min_games == 8,
        c.scheme_teams.deep_view() == spec_default_scheme_teams(),
        config_wf(&c),
{
    LeagueConfig {
        qb: GroupLimits {
            top_min: 2,
            top_max: 4,
            upper_min: 6,
            upper_max: 8,
            lower_min: 12,
            lower_max: 20,
        },
        hb: GroupLimits {
            top_min: 2,
            top_max: 4,
            upper_min: 8,
            upper_max: 12,
            lower_min: 30,
            lower_max: 40,
        },
        fb: GroupLimits {
            top_min: 0,
            top_max: 0,
            upper_min: 0,
            upper_max: 2,
            lower_min: 3,
            lower_max: 5,
        },
        wr: GroupLimits {
            top_min: 8,
            top_max: 12,
            upper_min: 12,
            upper_max: 18,
            lower_min: 45,
            lower_max: 60,
        },
        te: GroupLimits {
            top_min: 2,
            top_max: 4,
            upper_min: 6,
            upper_max: 8,
            lower_min: 24,
            lower_max: 32,
        },
        ol: GroupLimits {
            top_min: 0,
            top_max: 0,
            upper_min: 15,
            upper_max: 20,
            lower_min: 75,
            lower_max: 90,
        },
        idl: GroupLimits {
            top_min: 4,
            top_max: 6,
            upper_min: 10,
            upper_max: 12,
            lower_min: 36,
            lower_max: 50,
        },
        edge: GroupLimits {
            top_min: 4,
            top_max: 6,
            upper_min: 6,
            upper_max: 10,
            lower_min: 25,
            lower_max: 40,
        },
        lb: GroupLimits {
            top_min: 2,
            top_max: 4,
            upper_min: 6,
            upper_max: 10,
            lower_min: 24,
            lower_max: 36,
        },
        cb: GroupLimits {
            top_min: 3,
            top_max: 6,
            upper_min: 10,
            upper_max: 16,
            lower_min: 45,
            lower_max: 60,
        },
        s: GroupLimits {
            top_min: 3,
            top_max: 5,
            upper_min: 8,
            upper_max: 12,
            lower_min: 36,
            lower_max: 50,
        },
        k: GroupLimits {
            top_min: 0,
            top_max: 0,
            upper_min: 1,
            upper_max: 3,
            lower_min: 5,
            lower_max: 8,
        },
        p: GroupLimits {
            top_min: 0,
            top_max: 0,
            upper_min: 1,
            upper_max: 2,
            lower_min: 3,
            lower_max: 6,
        },
        weights: default_weights(),
        rookie_max_years: 1,
        rookie_min_games: 8,
        scheme_teams: default_scheme_teams(),
    }
}

/// League-wide tier targets implied by a configuration: the top band is the
/// sum of the per-group top bands, and each lower boundary's target is the
/// sum of its bands minus the sum of the bands one boundary above.
#[derive(Clone, Copy, Debug, PartialEq, Eq, Structural)]
pub struct OverallTargets {
    pub top_min: i64,
    pub top_max: i64,
    pub upper_min: i64,
    pub upper_max: i64,
    pub lower_min: i64,
    pub lower_max: i64,
}

/// Sum of one selected band bound over all 13 groups.
pub open spec fn spec_band_sum(c: &LeagueConfig, f: spec_fn(GroupLimits) -> u32) -> int {
    f(c.qb) + f(c.hb) + f(c.fb) + f(c.wr) + f(c.te) + f(c.ol) + f(c.idl) + f(c.edge) + f(c.lb) + f(
        c.cb,
    ) + f(c.s) + f(c.k) + f(c.p)
}

/// Computes the league-wide tier targets of a configuration.
pub fn overall_targets(c: &LeagueConfig) -> (t: OverallTargets)
    ensures
        t.top_min == spec_band_sum(c, |l: GroupLimits| l.top_min),
        t.top_max == spec_band_sum(c, |l: GroupLimits| l.top_max),
        t.upper_min == spec_band_sum(c, |l: GroupLimits| l.upper_min) - spec_band_sum(
            c,
            |l: GroupLimits| l.top_min,
        ),
        t.upper_max == spec_band_sum(c, |l: GroupLimits| l.upper_max) - spec_band_sum(
            c,
            |l: GroupLimits| l.top_max,
        ),
        t.lower_min == spec_band_sum(c, |l: GroupLimits| l.lower_min) - spec_band_sum(
            c,
            |l: GroupLimits| l.upper_min,
        ),
        t.lower_max == spec_band_sum(c, |l: GroupLimits| l.lower_max) - spec_band_sum(
            c,
            |l: GroupLimits| l.upper_max,
        ),
{
    let top_min = c.qb.top_min as i64 + c.hb.top_min as i64 + c.fb.top_min as i64
        + c.wr.top_min as i64 + c.te.top_min as i64 + c.ol.top_min as i64 + c.idl.top_min as i64
        + c.edge.top_min as i64 + c.lb.top_min as i64 + c.cb.top_min as i64 + c.s.top_min as i64
        + c.k.top_min as i64 + c.p.top_min as i64;
    let top_max = c.qb.top_max as i64 + c.hb.top_max as i64 + c.fb.top_max as i64
        + c.wr.top_max as i64 + c.te.top_max as i64 + c.ol.top_max as i64 + c.idl.top_max as i64
        + c.edge.top_max as i64 + c.lb.top_max as i64 + c.cb.top_max as i64 + c.s.top_max as i64
        + c.k.top_max as i64 + c.p.top_max as i64;
    let upper_min_sum = c.qb.upper_min as i64 + c.hb.upper_min as i64 + c.fb.upper_min as i64
        + c.wr.upper_min as i64 + c.te.upper_min as i64 + c.ol.upper_min as i64
        + c.idl.upper_min as i64 + c.edge.upper_min as i64 + c.lb.upper_min as i64
        + c.cb.upper_min as i64 + c.s.upper_min as i64 + c.k.upper_min as i64
        + c.p.upper_min as i64;
    let upper_max_sum = c.qb.upper_max as i64 + c.hb.upper_max as i64 + c.fb.upper_max as i64
        + c.wr.upper_max as i64 + c.te.upper_max as i64 + c.ol.upper_max as i64
        + c.idl.upper_max as i64 + c.edge.upper_max as i64 + c.lb.upper_max as i64
        + c.cb.upper_max as i64 + c.s.upper_max as i64 + c.k.upper_max as i64
        + c.p.upper_max as i64;
    let lower_min_sum = c.qb.lower_min as i64 + c.hb.lower_min as i64 + c.fb.lower_min as i64
        + c.wr.lower_min as i64 + c.te.lower_min as i64 + c.ol.lower_min as i64
        + c.idl.lower_min as i64 + c.edge.lower_min as i64 + c.lb.lower_min as i64
        + c.cb.lower_min as i64 + c.s.lower_min as i64 + c.k.lower_min as i64
        + c.p.lower_min as i64;
    let lower_max_sum = c.qb.lower_max as i64 + c.hb.lower_max as i64 + c.fb.lower_max as i64
        + c.wr.lower_max as i64 + c.te.lower_max as i64 + c.ol.lower_max as i64
        + c.idl.lower_max as i64 + c.edge.lower_max as i64 + c.lb.lower_max as i64
        + c.cb.lower_max as i64 + c.s.lower_max as i64 + c.k.lower_max as i64
        + c.p.lower_max as i64;
    OverallTargets {
        top_min,
        top_max,
        upper_min: upper_min_sum - top_min,
        upper_max: upper_max_sum - top_max,
        lower_min: lower_min_sum - upper_min_sum,
        lower_max: lower_max_sum - upper_max_sum,
    }
}

} // verus!
