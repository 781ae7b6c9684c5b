use devtier::Tier;
use devtier::config::GroupLimits;
use devtier::config::LeagueConfig;
use devtier::config::default_config;
use devtier::pipeline::run;
use devtier::position::PositionGroup;
use devtier::rebalance::RebalanceState;
use devtier::report::sort_report;
use devtier::rng::draw_ol_factors;
use devtier::rng::rng_from_seed;
use devtier::roster::Player;
use devtier::roster::TierChange;
use devtier::protect::protect_pass;
use devtier::scoring::OL_FACTOR_MAX;
use devtier::scoring::OL_FACTOR_MIN;
use devtier::stats::KickingRecord;
use devtier::stats::ReceivingRecord;
use devtier::stats::StatTables;
use devtier::text::contains_name;

fn player(id: u32, name: &str, team: &str, pos: &str, age: u8, years: u8, tier: Tier) -> Player {
    Player {
        roster_id: id,
        name: name.to_string(),
        team: team.to_string(),
        position: pos.to_string(),
        age,
        years_pro: years,
        best_overall: 70,
        tier,
        retired: false,
    }
}

fn empty_stats() -> StatTables {
    StatTables {
        passing: vec![],
        receiving: vec![],
        rushing: vec![],
        defense: vec![],
        kicking: vec![],
        punting: vec![],
    }
}

fn receiving(id: u32, yards: i32) -> ReceivingRecord {
    ReceivingRecord {
        roster_id: id,
        games_played: 16,
        rec_yards: yards,
        rec_tds: 0,
        catches: 0,
        drops: 0,
    }
}

fn kicking(id: u32, games: u8, fg: u32) -> KickingRecord {
    KickingRecord {
        roster_id: id,
        games_played: games,
        fg_attempts: fg,
        fg_made: fg,
        fg50_attempts: 0,
        fg50_made: 0,
        xp_attempts: 0,
        xp_made: 0,
    }
}

fn wide(top_min: u32, top_max: u32) -> GroupLimits {
    GroupLimits {
        top_min,
        top_max,
        upper_min: 0,
        upper_max: 1000,
        lower_min: 0,
        lower_max: 1000,
    }
}

fn quiet_config() -> LeagueConfig {
    let mut cfg = default_config();
    cfg.qb = wide(0, 1000);
    cfg.hb = wide(0, 1000);
    cfg.fb = wide(0, 1000);
    cfg.wr = wide(0, 1000);
    cfg.te = wide(0, 1000);
    cfg.ol = wide(0, 1000);
    cfg.idl = wide(0, 1000);
    cfg.edge = wide(0, 1000);
    cfg.lb = wide(0, 1000);
    cfg.cb = wide(0, 1000);
    cfg.s = wide(0, 1000);
    cfg.k = wide(0, 1000);
    cfg.p = wide(0, 1000);
    cfg
}

fn factors_for(before: &Vec<Player>) -> Vec<u32> {
    vec![10000; before.len()]
}

fn changes_eq(a: &TierChange, b: &TierChange) -> bool {
    a.name == b.name && a.team == b.team && a.group == b.group && a.old_tier == b.old_tier
        && a.new_tier == b.new_tier
}

fn change_named<'a>(st: &'a RebalanceState, name: &str) -> Option<&'a TierChange> {
    st.changes.iter().find(|c| c.name == name)
}

#[test]
fn wr_shortage_promotes_three_highest_scorers() {
    // Five wide receivers hold the top tier against a band of [8, 12]: the
    // three highest-scoring upper-mid receivers must be promoted.
    let mut cfg = quiet_config();
    cfg.wr = wide(8, 12);
    let mut before: Vec<Player> = Vec::new();
    for i in 0..5u32 {
        before.push(player(i, &format!("Top{}", i), "Bears", "WR", 27, 5, Tier::TopTier));
    }
    before.push(player(10, "MidA", "Bears", "WR", 27, 5, Tier::UpperMid));
    before.push(player(11, "MidB", "Bears", "WR", 27, 5, Tier::UpperMid));
    before.push(player(12, "MidC", "Bears", "WR", 27, 5, Tier::UpperMid));
    before.push(player(13, "MidD", "Bears", "WR", 27, 5, Tier::UpperMid));
    let after: Vec<Player> = before.iter().map(|p| {
        player(p.roster_id, &p.name, &p.team, &p.position, p.age, p.years_pro, p.tier)
    }).collect();
    let mut stats = empty_stats();
    stats.receiving.push(receiving(10, 400));
    stats.receiving.push(receiving(11, 300));
    stats.receiving.push(receiving(12, 200));
    stats.receiving.push(receiving(13, 100));
    let factors = factors_for(&before);
    let st = run(&before, &after, &stats, &cfg, &factors);

    assert_eq!(st.changes.len(), 3);
    for name in ["MidA", "MidB", "MidC"] {
        let c = change_named(&st, name).expect("promotion missing");
        assert_eq!(c.old_tier, Tier::UpperMid);
        assert_eq!(c.new_tier, Tier::TopTier);
        assert_eq!(c.group, PositionGroup::WR);
        assert!(contains_name(&st.protected, &name.to_string()));
        assert!(contains_name(&st.upgraded, &name.to_string()));
    }
    assert!(change_named(&st, "MidD").is_none());
    assert!(change_named(&st, "Top0").is_none());
    // Band satisfaction: the effective top-tier count lands on the band's
    // lower edge.
    let effective_top = before
        .iter()
        .filter(|p| {
            let tier = match change_named(&st, &p.name) {
                Some(c) => c.new_tier,
                None => p.tier,
            };
            tier == Tier::TopTier
        })
        .count();
    assert_eq!(effective_top, 8);
}

#[test]
fn kicker_cap_of_zero_demotes_every_top_tier_kicker() {
    // A top band of [0, 0] forces every unprotected top-tier kicker down,
    // whatever their scores.
    let mut cfg = quiet_config();
    cfg.k = wide(0, 0);
    let before = vec![
        player(1, "BigLeg", "Bears", "K", 27, 5, Tier::TopTier),
        player(2, "SureFoot", "Lions", "K", 27, 5, Tier::TopTier),
    ];
    let after = vec![
        player(1, "BigLeg", "Bears", "K", 27, 5, Tier::TopTier),
        player(2, "SureFoot", "Lions", "K", 27, 5, Tier::TopTier),
    ];
    let mut stats = empty_stats();
    stats.kicking.push(kicking(1, 17, 30));
    stats.kicking.push(kicking(2, 17, 10));
    let factors = factors_for(&before);
    let st = run(&before, &after, &stats, &cfg, &factors);

    assert_eq!(st.changes.len(), 2);
    for name in ["BigLeg", "SureFoot"] {
        let c = change_named(&st, name).expect("demotion missing");
        assert_eq!(c.old_tier, Tier::TopTier);
        assert_eq!(c.new_tier, Tier::UpperMid);
        assert_eq!(c.group, PositionGroup::K);
        assert!(contains_name(&st.protected, &name.to_string()));
        assert!(!contains_name(&st.upgraded, &name.to_string()));
    }
}

#[test]
fn rookie_with_playing_time_is_protected_from_demotion() {
    // Three top-tier kickers against a band of [0, 1]; the lowest scorer is
    // a rookie with eight games, so the other two go down instead.
    let mut cfg = quiet_config();
    cfg.k = wide(0, 1);
    let before = vec![
        player(1, "VeteranA", "Bears", "K", 30, 8, Tier::TopTier),
        player(2, "VeteranB", "Lions", "K", 30, 8, Tier::TopTier),
        player(3, "Rookie", "Colts", "K", 22, 1, Tier::TopTier),
    ];
    let after = vec![
        player(1, "VeteranA", "Bears", "K", 30, 8, Tier::TopTier),
        player(2, "VeteranB", "Lions", "K", 30, 8, Tier::TopTier),
        player(3, "Rookie", "Colts", "K", 22, 1, Tier::TopTier),
    ];
    let mut stats = empty_stats();
    stats.kicking.push(kicking(1, 17, 30));
    stats.kicking.push(kicking(2, 17, 20));
    stats.kicking.push(kicking(3, 8, 1));
    let factors = factors_for(&before);
    let st = run(&before, &after, &stats, &cfg, &factors);

    assert!(contains_name(&st.protected, &"Rookie".to_string()));
    assert!(change_named(&st, "Rookie").is_none());
    assert_eq!(st.changes.len(), 2);
    assert!(change_named(&st, "VeteranA").is_some());
    assert!(change_named(&st, "VeteranB").is_some());
}

#[test]
fn externally_promoted_player_is_not_promoted_again() {
    // A kicker whose tier rose between the snapshots is upgraded, so a top
    // band of [1, 2] must promote someone else.
    let mut cfg = quiet_config();
    cfg.k = wide(1, 2);
    let before = vec![
        player(1, "Raised", "Bears", "K", 27, 5, Tier::UpperMid),
        player(2, "Steady", "Lions", "K", 27, 5, Tier::UpperMid),
    ];
    let after = vec![
        player(1, "Raised", "Bears", "K", 27, 5, Tier::TopTier),
        player(2, "Steady", "Lions", "K", 27, 5, Tier::UpperMid),
    ];
    let mut stats = empty_stats();
    stats.kicking.push(kicking(1, 17, 30));
    stats.kicking.push(kicking(2, 17, 10));
    let factors = factors_for(&before);
    let st = run(&before, &after, &stats, &cfg, &factors);

    assert!(contains_name(&st.upgraded, &"Raised".to_string()));
    assert!(change_named(&st, "Raised").is_none());
    let c = change_named(&st, "Steady").expect("promotion missing");
    assert_eq!(c.old_tier, Tier::UpperMid);
    assert_eq!(c.new_tier, Tier::TopTier);
}

#[test]
fn protect_pass_marks_rookies_and_raised_players() {
    let cands = vec![
        player(1, "Rook", "Bears", "K", 22, 1, Tier::Base),
        player(2, "Raised", "Lions", "K", 27, 5, Tier::LowerMid),
        player(3, "Plain", "Colts", "K", 27, 5, Tier::Base),
    ];
    let after = vec![
        player(1, "Rook", "Bears", "K", 22, 1, Tier::Base),
        player(2, "Raised", "Lions", "K", 27, 5, Tier::TopTier),
        player(3, "Plain", "Colts", "K", 27, 5, Tier::Base),
    ];
    let mut stats = empty_stats();
    stats.kicking.push(kicking(1, 8, 0));
    let mut st = RebalanceState::new();
    protect_pass(&mut st, &cands, &after, &stats, 1, 8);
    assert!(contains_name(&st.protected, &"Rook".to_string()));
    assert!(!contains_name(&st.upgraded, &"Rook".to_string()));
    assert!(contains_name(&st.protected, &"Raised".to_string()));
    assert!(contains_name(&st.upgraded, &"Raised".to_string()));
    assert!(!contains_name(&st.protected, &"Plain".to_string()));
}

#[test]
fn rookie_without_enough_games_is_not_protected() {
    let cands = vec![player(1, "Rook", "Bears", "K", 22, 1, Tier::Base)];
    let after = vec![player(1, "Rook", "Bears", "K", 22, 1, Tier::Base)];
    let mut stats = empty_stats();
    stats.kicking.push(kicking(1, 7, 0));
    let mut st = RebalanceState::new();
    protect_pass(&mut st, &cands, &after, &stats, 1, 8);
    assert!(!contains_name(&st.protected, &"Rook".to_string()));
}

#[test]
fn no_key_appears_twice_in_the_changes() {
    // A league-wide squeeze produces many changes; every (name, team, group)
    // key must be unique.
    let mut cfg = quiet_config();
    cfg.wr = wide(2, 2);
    cfg.k = wide(0, 0);
    let mut before: Vec<Player> = Vec::new();
    for i in 0..6u32 {
        let tier = if i < 3 { Tier::TopTier } else { Tier::UpperMid };
        before.push(player(i, &format!("Wide{}", i), "Bears", "WR", 27, 5, tier));
    }
    before.push(player(20, "Boot", "Lions", "K", 27, 5, Tier::TopTier));
    let after: Vec<Player> = before.iter().map(|p| {
        player(p.roster_id, &p.name, &p.team, &p.position, p.age, p.years_pro, p.tier)
    }).collect();
    let mut stats = empty_stats();
    for i in 0..6u32 {
        stats.receiving.push(receiving(i, 100 * (6 - i as i32)));
    }
    let factors = factors_for(&before);
    let st = run(&before, &after, &stats, &cfg, &factors);

    assert!(st.changes.len() >= 2);
    for i in 0..st.changes.len() {
        for j in (i + 1)..st.changes.len() {
            let a = &st.changes[i];
            let b = &st.changes[j];
            assert!(!(a.name == b.name && a.team == b.team && a.group == b.group));
        }
    }
}

#[test]
fn identical_inputs_give_identical_output() {
    let mut cfg1 = quiet_config();
    cfg1.wr = wide(2, 2);
    let mut cfg2 = quiet_config();
    cfg2.wr = wide(2, 2);
    let build = || -> (Vec<Player>, Vec<Player>, StatTables) {
        let mut before: Vec<Player> = Vec::new();
        for i in 0..6u32 {
            let tier = if i < 1 { Tier::TopTier } else { Tier::UpperMid };
            before.push(player(i, &format!("Wide{}", i), "Bears", "WR", 27, 5, tier));
        }
        let after: Vec<Player> = before.iter().map(|p| {
            player(p.roster_id, &p.name, &p.team, &p.position, p.age, p.years_pro, p.tier)
        }).collect();
        let mut stats = empty_stats();
        for i in 0..6u32 {
            stats.receiving.push(receiving(i, 50 * (i as i32 + 1)));
        }
        (before, after, stats)
    };
    let (b1, a1, s1) = build();
    let (b2, a2, s2) = build();
    let f1 = factors_for(&b1);
    let f2 = factors_for(&b2);
    let r1 = run(&b1, &a1, &s1, &cfg1, &f1);
    let r2 = run(&b2, &a2, &s2, &cfg2, &f2);
    assert_eq!(r1.changes.len(), r2.changes.len());
    for i in 0..r1.changes.len() {
        assert!(changes_eq(&r1.changes[i], &r2.changes[i]));
    }
}

#[test]
fn report_sorts_by_team_then_group_then_name() {
    let change = |name: &str, team: &str, group: PositionGroup| TierChange {
        name: name.to_string(),
        team: team.to_string(),
        group,
        old_tier: Tier::UpperMid,
        new_tier: Tier::TopTier,
    };
    let raw = vec![
        change("Zed", "Lions", PositionGroup::WR),
        change("Abe", "Bears", PositionGroup::WR),
        change("Cal", "", PositionGroup::K),
        change("Abe", "Lions", PositionGroup::QB),
        change("Ann", "Bears", PositionGroup::WR),
    ];
    let sorted = sort_report(&raw);
    assert_eq!(sorted.len(), 5);
    // The empty team (free agents) sorts first.
    assert_eq!(sorted[0].name, "Cal");
    assert_eq!(sorted[1].team, "Bears");
    assert_eq!(sorted[1].name, "Abe");
    assert_eq!(sorted[2].team, "Bears");
    assert_eq!(sorted[2].name, "Ann");
    // Within the Lions, QB sorts before WR.
    assert_eq!(sorted[3].team, "Lions");
    assert_eq!(sorted[3].group, PositionGroup::QB);
    assert_eq!(sorted[4].team, "Lions");
    assert_eq!(sorted[4].name, "Zed");
}

#[test]
fn seeded_factors_are_reproducible_and_in_range() {
    let seed = [7u8; 32];
    let mut rng1 = rng_from_seed(seed);
    let mut rng2 = rng_from_seed(seed);
    let f1 = draw_ol_factors(&mut rng1, 50);
    let f2 = draw_ol_factors(&mut rng2, 50);
    assert_eq!(f1.len(), 50);
    assert_eq!(f1, f2);
    for &f in f1.iter() {
        assert!((OL_FACTOR_MIN..OL_FACTOR_MAX).contains(&f));
    }
    // The factors vary: a generator that echoed its bound back would fail.
    assert!(f1.iter().any(|&f| f != f1[0]));
}

#[test]
fn ol_scoring_uses_the_injected_factors() {
    // Two identical linemen split only by their injected factors, with a top
    // band that promotes exactly one of them.
    let mut cfg = quiet_config();
    cfg.ol = wide(1, 2);
    let before = vec![
        player(1, "GuardA", "Bears", "LG", 27, 5, Tier::UpperMid),
        player(2, "GuardB", "Lions", "RG", 27, 5, Tier::UpperMid),
    ];
    let after = vec![
        player(1, "GuardA", "Bears", "LG", 27, 5, Tier::UpperMid),
        player(2, "GuardB", "Lions", "RG", 27, 5, Tier::UpperMid),
    ];
    let stats = empty_stats();
    let factors = vec![9000, 10999];
    let st = run(&before, &after, &stats, &cfg, &factors);
    assert_eq!(st.changes.len(), 1);
    let c = change_named(&st, "GuardB").expect("higher factor should win");
    assert_eq!(c.new_tier, Tier::TopTier);
}

#[test]
fn retired_players_are_ignored() {
    let mut cfg = quiet_config();
    cfg.k = wide(0, 0);
    let mut retired = player(1, "Gone", "Bears", "K", 38, 15, Tier::TopTier);
    retired.retired = true;
    let before = vec![retired];
    let after: Vec<Player> = vec![];
    let stats = empty_stats();
    let factors = factors_for(&before);
    let st = run(&before, &after, &stats, &cfg, &factors);
    assert!(st.changes.is_empty());
}

#[test]
fn shortage_without_candidates_changes_nothing() {
    // A top minimum with no upper-mid players to promote: the shortfall is
    // carried without a crash.
    let mut cfg = quiet_config();
    cfg.k = wide(3, 5);
    let before = vec![player(1, "OnlyOne", "Bears", "K", 27, 5, Tier::Base)];
    let after = vec![player(1, "OnlyOne", "Bears", "K", 27, 5, Tier::Base)];
    let stats = empty_stats();
    let factors = factors_for(&before);
    let st = run(&before, &after, &stats, &cfg, &factors);
    assert!(st.changes.is_empty());
}
