use devtier::Tier;
use devtier::config::GroupLimits;
use devtier::config::ScoreWeights;
use devtier::config::default_config;
use devtier::config::default_scheme_teams;
use devtier::config::default_weights;
use devtier::config::overall_targets;
use devtier::position::PositionGroup;
use devtier::position::classify;
use devtier::position::group_order;
use devtier::score::Score;
use devtier::score::age_multiplier_hundredths;
use devtier::score::score_equal;
use devtier::score::score_less;
use devtier::scoring::defense_score;
use devtier::scoring::kicker_score;
use devtier::scoring::ol_score;
use devtier::scoring::punter_score;
use devtier::scoring::qb_score;
use devtier::scoring::receiver_score;
use devtier::stats::DefenseRecord;
use devtier::stats::KickingRecord;
use devtier::stats::PassingRecord;
use devtier::stats::PuntingRecord;
use devtier::stats::ReceivingRecord;
use devtier::stats::RushingRecord;
use devtier::stats::StatTables;
use devtier::stats::games_played;
use devtier::text::parse_bool;
use devtier::text::str_eq;
use devtier::text::str_less;

fn weights() -> ScoreWeights {
    default_weights()
}

#[test]
fn tier_from_index_decodes_all_tiers() {
    assert_eq!(Tier::from_index(0), Some(Tier::Base));
    assert_eq!(Tier::from_index(1), Some(Tier::LowerMid));
    assert_eq!(Tier::from_index(2), Some(Tier::UpperMid));
    assert_eq!(Tier::from_index(3), Some(Tier::TopTier));
    assert_eq!(Tier::from_index(4), None);
    assert_eq!(Tier::from_index(255), None);
}

#[test]
fn tier_order_is_by_rank() {
    assert!(Tier::TopTier.at_least(Tier::UpperMid));
    assert!(Tier::UpperMid.at_least(Tier::UpperMid));
    assert!(!Tier::LowerMid.at_least(Tier::UpperMid));
    assert_eq!(Tier::TopTier.below(), Tier::UpperMid);
    assert_eq!(Tier::UpperMid.below(), Tier::LowerMid);
    assert_eq!(Tier::LowerMid.below(), Tier::Base);
}

#[test]
fn parse_bool_accepts_exactly_the_two_literals() {
    assert_eq!(parse_bool("True"), Some(true));
    assert_eq!(parse_bool("False"), Some(false));
    assert_eq!(parse_bool("true"), None);
    assert_eq!(parse_bool("TRUE"), None);
    assert_eq!(parse_bool(""), None);
    assert_eq!(parse_bool("1"), None);
}

#[test]
fn string_comparisons() {
    assert!(str_eq("Bears", "Bears"));
    assert!(!str_eq("Bears", "Bear"));
    assert!(str_less("", "A"));
    assert!(str_less("Abc", "Abd"));
    assert!(str_less("Ab", "Abc"));
    assert!(!str_less("Abc", "Abc"));
    assert!(!str_less("B", "A"));
}

#[test]
fn classifier_maps_simple_labels() {
    let no = false;
    assert_eq!(classify("QB", no), Some(PositionGroup::QB));
    assert_eq!(classify("HB", no), Some(PositionGroup::HB));
    assert_eq!(classify("FB", no), Some(PositionGroup::FB));
    assert_eq!(classify("WR", no), Some(PositionGroup::WR));
    assert_eq!(classify("TE", no), Some(PositionGroup::TE));
    assert_eq!(classify("CB", no), Some(PositionGroup::CB));
    assert_eq!(classify("S", no), Some(PositionGroup::S));
    assert_eq!(classify("K", no), Some(PositionGroup::K));
    assert_eq!(classify("P", no), Some(PositionGroup::P));
    assert_eq!(classify("XX", no), None);
    assert_eq!(classify("", no), None);
}

#[test]
fn classifier_collapses_line_labels() {
    for label in ["LG", "LT", "RG", "RT", "C"] {
        assert_eq!(classify(label, false), Some(PositionGroup::OL));
        assert_eq!(classify(label, true), Some(PositionGroup::OL));
    }
}

#[test]
fn classifier_splits_defensive_ends_by_scheme() {
    assert_eq!(classify("DT", false), Some(PositionGroup::IDL));
    assert_eq!(classify("DT", true), Some(PositionGroup::IDL));
    assert_eq!(classify("LE", true), Some(PositionGroup::IDL));
    assert_eq!(classify("RE", true), Some(PositionGroup::IDL));
    assert_eq!(classify("LE", false), Some(PositionGroup::EDGE));
    assert_eq!(classify("RE", false), Some(PositionGroup::EDGE));
    assert_eq!(classify("LOLB", true), Some(PositionGroup::EDGE));
    assert_eq!(classify("ROLB", true), Some(PositionGroup::EDGE));
    assert_eq!(classify("LOLB", false), Some(PositionGroup::LB));
    assert_eq!(classify("ROLB", false), Some(PositionGroup::LB));
    assert_eq!(classify("MLB", false), Some(PositionGroup::LB));
    assert_eq!(classify("MLB", true), Some(PositionGroup::LB));
}

#[test]
fn scheme_set_holds_the_twelve_teams() {
    let teams = default_scheme_teams();
    assert_eq!(teams.len(), 12);
    assert_eq!(teams[0], "Broncos");
    assert_eq!(teams[11], "Titans");
}

#[test]
fn group_order_is_fixed() {
    let order = group_order();
    assert_eq!(order.len(), 13);
    assert_eq!(order[0], PositionGroup::QB);
    assert_eq!(order[5], PositionGroup::OL);
    assert_eq!(order[12], PositionGroup::P);
}

#[test]
fn age_multiplier_brackets() {
    assert_eq!(age_multiplier_hundredths(22, 5), 120);
    assert_eq!(age_multiplier_hundredths(30, 1), 120);
    assert_eq!(age_multiplier_hundredths(25, 5), 110);
    assert_eq!(age_multiplier_hundredths(26, 3), 110);
    assert_eq!(age_multiplier_hundredths(29, 5), 100);
    assert_eq!(age_multiplier_hundredths(35, 10), 80);
    assert_eq!(age_multiplier_hundredths(40, 15), 60);
    assert_eq!(age_multiplier_hundredths(43, 20), 50);
    assert_eq!(age_multiplier_hundredths(60, 30), 50);
}

#[test]
fn score_comparison_is_exact_rational_order() {
    let half = Score { num: 1, den: 2 };
    let two_thirds = Score { num: 2, den: 3 };
    let other_half = Score { num: 2, den: 4 };
    assert!(score_less(&half, &two_thirds));
    assert!(!score_less(&two_thirds, &half));
    assert!(score_equal(&half, &other_half));
    let neg = Score { num: -1, den: 2 };
    assert!(score_less(&neg, &half));
}

#[test]
fn qb_score_exact_value() {
    let pass = PassingRecord {
        roster_id: 1,
        games_played: 17,
        pass_yards: 3000,
        pass_tds: 25,
        interceptions: 10,
    };
    let s = qb_score(100, Some(pass), None, &weights());
    // 3000 * 0.05 + 25 * 4 - 10 * 2 = 230 points.
    assert!(score_equal(&s, &Score { num: 230, den: 1 }));
}

#[test]
fn qb_score_includes_rushing() {
    let rush = RushingRecord {
        roster_id: 1,
        games_played: 17,
        rush_yards: 500,
        rush_tds: 5,
        fumbles: 2,
    };
    let s = qb_score(100, None, Some(rush), &weights());
    // 500 * 0.1 + 5 * 4 - 2 * 2 = 66 points.
    assert!(score_equal(&s, &Score { num: 66, den: 1 }));
}

#[test]
fn receiver_score_exact_value() {
    let recv = ReceivingRecord {
        roster_id: 2,
        games_played: 16,
        rec_yards: 1000,
        rec_tds: 8,
        catches: 80,
        drops: 4,
    };
    let s = receiver_score(110, Some(recv), None, &weights());
    // 1000 * 0.1 + 8 * 4 + 80 * 0.25 - 4 * 0.05 = 151.8; times 1.1 = 166.98.
    assert!(score_equal(&s, &Score { num: 16698, den: 100 }));
}

#[test]
fn defense_score_exact_value() {
    let d = DefenseRecord {
        roster_id: 3,
        games_played: 17,
        tackles_hundredths: 10050,  // 100.5 tackles
        deflections: 10,
        catches_allowed: 50,
        sacks_hundredths: 250,  // 2.5 sacks
        def_tds: 1,
        forced_fumbles: 2,
        fumble_recoveries: 1,
        interceptions: 3,
        int_return_yards: 40,
        safeties: 0,
    };
    let s = defense_score(100, Some(d), &weights());
    // 100.5*0.5 + 10*1 - 50*0.2 + 2.5*2 + 1*6 + 2*2 + 1*2 + 3*3 + 40*0.05 + 0
    // = 50.25 + 10 - 10 + 5 + 6 + 4 + 2 + 9 + 2 = 78.25
    assert!(score_equal(&s, &Score { num: 7825, den: 100 }));
}

#[test]
fn kicker_score_softens_long_misses() {
    let k = KickingRecord {
        roster_id: 4,
        games_played: 17,
        fg_attempts: 30,
        fg_made: 25,
        fg50_attempts: 6,
        fg50_made: 4,
        xp_attempts: 40,
        xp_made: 38,
    };
    let s = kicker_score(100, Some(k), &weights());
    // 25*3 + 4*5 - 5*1 + 2*0.9 + 38*1 - 2*1 = 75 + 20 - 5 + 1.8 + 38 - 2 = 127.8
    assert!(score_equal(&s, &Score { num: 1278, den: 10 }));
}

#[test]
fn punter_small_sample_value() {
    let p = PuntingRecord {
        roster_id: 5,
        games_played: 4,
        punts_inside_20: 10,
        punt_attempts: 20,
        avg_yards_hundredths: 5000,
    };
    let s = punter_score(120, Some(p), &weights());
    // Fewer than six games: 4 / 100 times the 1.2 multiplier = 0.048.
    assert!(score_equal(&s, &Score { num: 48, den: 1000 }));
}

#[test]
fn punter_qualifying_value_and_ranking() {
    let small = PuntingRecord {
        roster_id: 5,
        games_played: 5,
        punts_inside_20: 40,
        punt_attempts: 60,
        avg_yards_hundredths: 6000,
    };
    let qualifying = PuntingRecord {
        roster_id: 6,
        games_played: 16,
        punt_attempts: 50,
        punts_inside_20: 20,
        avg_yards_hundredths: 4500,
    };
    let s_small = punter_score(120, Some(small), &weights());
    let s_big = punter_score(50, Some(qualifying), &weights());
    // 45.00 * 0.02 + 20 / 50 = 1.3; halved by the age multiplier floor.
    assert!(score_equal(&s_big, &Score { num: 65, den: 100 }));
    // The small-sample punter ranks below despite far better per-punt stats.
    assert!(score_less(&s_small, &s_big));
}

#[test]
fn ol_score_scales_rating_by_factor() {
    let s = ol_score(100, 80, 10000);
    // Factor 1.0: the score is just the rating.
    assert!(score_equal(&s, &Score { num: 80, den: 1 }));
    let low = ol_score(100, 80, 9000);
    let high = ol_score(100, 80, 10999);
    assert!(score_less(&low, &s));
    assert!(score_less(&s, &high));
}

#[test]
fn zero_stat_players_tie_regardless_of_age() {
    let young = defense_score(120, None, &weights());
    let old = defense_score(50, None, &weights());
    assert_eq!(young.num, 0);
    assert!(score_equal(&young, &old));
    let qb_young = qb_score(120, None, None, &weights());
    let recv_old = receiver_score(50, None, None, &weights());
    assert_eq!(qb_young.num, 0);
    assert_eq!(recv_old.num, 0);
    assert!(score_equal(&qb_young, &recv_old));
}

#[test]
fn games_played_takes_max_of_per_table_sums() {
    let stats = StatTables {
        passing: vec![
            PassingRecord {
                roster_id: 9,
                games_played: 3,
                pass_yards: 0,
                pass_tds: 0,
                interceptions: 0,
            },
            PassingRecord {
                roster_id: 9,
                games_played: 2,
                pass_yards: 0,
                pass_tds: 0,
                interceptions: 0,
            },
        ],
        receiving: vec![],
        rushing: vec![RushingRecord {
            roster_id: 9,
            games_played: 8,
            rush_yards: 0,
            rush_tds: 0,
            fumbles: 0,
        }],
        defense: vec![],
        kicking: vec![],
        punting: vec![PuntingRecord {
            roster_id: 7,
            games_played: 16,
            punts_inside_20: 0,
            punt_attempts: 1,
            avg_yards_hundredths: 0,
        }],
    };
    assert_eq!(games_played(&stats, 9), 8);
    assert_eq!(games_played(&stats, 7), 16);
    assert_eq!(games_played(&stats, 42), 0);
}

#[test]
fn overall_targets_of_default_config() {
    let cfg = default_config();
    let t = overall_targets(&cfg);
    assert_eq!(t.top_min, 30);
    assert_eq!(t.top_max, 51);
    assert_eq!(t.upper_min, 59);
    assert_eq!(t.upper_max, 82);
    assert_eq!(t.lower_min, 274);
    assert_eq!(t.lower_max, 364);
}

#[test]
fn default_config_bands_are_well_formed() {
    let cfg = default_config();
    let all: Vec<GroupLimits> = vec![
        cfg.qb, cfg.hb, cfg.fb, cfg.wr, cfg.te, cfg.ol, cfg.idl, cfg.edge, cfg.lb, cfg.cb, cfg.s,
        cfg.k, cfg.p,
    ];
    for l in all {
        assert!(l.top_min <= l.top_max);
        assert!(l.upper_min <= l.upper_max);
        assert!(l.lower_min <= l.lower_max);
    }
    assert_eq!(cfg.wr.top_min, 8);
    assert_eq!(cfg.wr.top_max, 12);
    assert_eq!(cfg.rookie_max_years, 1);
    assert_eq!(cfg.rookie_min_games, 8);
}
