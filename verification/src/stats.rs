//! Season statistic tables.
//!
//! Six per-player tables, each holding at most the counting stats the scorer
//! reads. Fractional source figures (tackles, sacks, average punt yards) are
//! held exactly in hundredths. A player missing from a table simply
//! contributes nothing to their score.

use vstd::prelude::*;

verus! {

/// Passing stats for one player.
#[derive(Clone, Copy, Debug, PartialEq, Eq, Structural)]
pub struct PassingRecord {
    pub roster_id: u32,
    pub games_played: u8,
    pub pass_yards: i32,
    pub pass_tds: u32,
    pub interceptions: u32,
}

/// Receiving stats for one player.
#[derive(Clone, Copy, Debug, PartialEq, Eq, Structural)]
pub struct ReceivingRecord {
    pub roster_id: u32,
    pub games_played: u8,
    pub rec_yards: i32,
    pub rec_tds: u32,
    pub catches: u32,
    pub drops: u32,
}

/// Rushing stats for one player.
#[derive(Clone, Copy, Debug, PartialEq, Eq, Structural)]
pub struct RushingRecord {
    pub roster_id: u32,
    pub games_played: u8,
    pub rush_yards: i32,
    pub rush_tds: u32,
    pub fumbles: u32,
}

/// Defensive stats for one player. Tackles and sacks come in halves in the
/// source data and are held in hundredths here.
#[derive(Clone, Copy, Debug, PartialEq, Eq, Structural)]
pub struct DefenseRecord {
    pub roster_id: u32,
    pub games_played: u8,
    pub tackles_hundredths: u32,
    pub deflections: u32,
    pub catches_allowed: u32,
    pub sacks_hundredths: u32,
    pub def_tds: u32,
    pub forced_fumbles: u32,
    pub fumble_recoveries: u32,
    pub interceptions: u32,
    pub int_return_yards: u32,
    pub safeties: u32,
}

/// Kicking stats for one player.
#[derive(Clone, Copy, Debug, PartialEq, Eq, Structural)]
pub struct KickingRecord {
    pub roster_id: u32,
    pub games_played: u8,
    pub fg_attempts: u32,
    pub fg_made: u32,
    pub fg50_attempts: u32,
    pub fg50_made: u32,
    pub xp_attempts: u32,
    pub xp_made: u32,
}

/// Punting stats for one player. The average yards per punt is held in
/// hundredths of a yard.
#[derive(Clone, Copy, Debug, PartialEq, Eq, Structural)]
pub struct PuntingRecord {
    pub roster_id: u32,
    pub games_played: u8,
    pub punts_inside_20: u32,
    pub punt_attempts: u32,
    pub avg_yards_hundredths: u32,
}

/// All six stat tables of a season.
pub struct StatTables {
    pub passing: Vec<PassingRecord>,
    pub receiving: Vec<ReceivingRecord>,
    pub rushing: Vec<RushingRecord>,
    pub defense: Vec<DefenseRecord>,
    pub kicking: Vec<KickingRecord>,
    pub punting: Vec<PuntingRecord>,
}

/// Largest table size the library accepts, so that games-played sums fit in
/// a machine word.
pub const TABLE_LEN_BOUND: usize = 1_000_000_000;

/// Made kicks can never exceed attempts.
pub open spec fn kicking_wf(r: KickingRecord) -> bool {
    &&& r.fg_made <= r.fg_attempts
    &&& r.fg50_made <= r.fg50_attempts
    &&& r.xp_made <= r.xp_attempts
}

/// Bounds on a punting record: punts landed inside the 20 are among the
/// attempts, attempt and average figures are small enough for exact scoring,
/// and a punter with a qualifying sample has at least one attempt.
pub open spec fn punting_wf(r: PuntingRecord) -> bool {
    &&& r.punts_inside_20 <= r.punt_attempts
    &&& r.punt_attempts <= 1_000_000
    &&& r.avg_yards_hundredths <= 10_000_000
    &&& r.games_played >= 6 ==> r.punt_attempts >= 1
}

/// All records of all six tables are well-formed.
pub open spec fn stats_wf(t: &StatTables) -> bool {
    &&& forall|i: int| 0 <= i < t.kicking@.len() ==> kicking_wf(#[trigger] t.kicking@[i])
    &&& forall|i: int| 0 <= i < t.punting@.len() ==> punting_wf(#[trigger] t.punting@[i])
    &&& t.passing@.len() <= TABLE_LEN_BOUND
    &&& t.receiving@.len() <= TABLE_LEN_BOUND
    &&& t.rushing@.len() <= TABLE_LEN_BOUND
    &&& t.defense@.len() <= TABLE_LEN_BOUND
    &&& t.kicking@.len() <= TABLE_LEN_BOUND
    &&& t.punting@.len() <= TABLE_LEN_BOUND
}

/// The first passing record of a player, if any.
pub open spec fn spec_find_passing(s: Seq<PassingRecord>, id: u32) -> Option<PassingRecord>
    decreases s.len(),
{
    if s.len() == 0 {
        None
    } else if s[0].roster_id == id {
        Some(s[0])
    } else {
        spec_find_passing(s.skip(1), id)
    }
}

/// The first receiving record of a player, if any.
pub open spec fn spec_find_receiving(s: Seq<ReceivingRecord>, id: u32) -> Option<ReceivingRecord>
    decreases s.len(),
{
    if s.len() == 0 {
        None
    } else if s[0].roster_id == id {
        Some(s[0])
    } else {
        spec_find_receiving(s.skip(1), id)
    }
}

/// The first rushing record of a player, if any.
pub open spec fn spec_find_rushing(s: Seq<RushingRecord>, id: u32) -> Option<RushingRecord>
    decreases s.len(),
{
    if s.len() == 0 {
        None
    } else if s[0].roster_id == id {
        Some(s[0])
    } else {
        spec_find_rushing(s.skip(1), id)
    }
}

/// The first defensive record of a player, if any.
pub open spec fn spec_find_defense(s: Seq<DefenseRecord>, id: u32) -> Option<DefenseRecord>
    decreases s.len(),
{
    if s.len() == 0 {
        None
    } else if s[0].roster_id == id {
        Some(s[0])
    } else {
        spec_find_defense(s.skip(1), id)
    }
}

/// The first kicking record of a player, if any.
pub open spec fn spec_find_kicking(s: Seq<KickingRecord>, id: u32) -> Option<KickingRecord>
    decreases s.len(),
{
    if s.len() == 0 {
        None
    } else if s[0].roster_id == id {
        Some(s[0])
    } else {
        spec_find_kicking(s.skip(1), id)
    }
}

/// The first punting record of a player, if any.
pub open spec fn spec_find_punting(s: Seq<PuntingRecord>, id: u32) -> Option<PuntingRecord>
    decreases s.len(),
{
    if s.len() == 0 {
        None
    } else if s[0].roster_id == id {
        Some(s[0])
    } else {
        spec_find_punting(s.skip(1), id)
    }
}

/// Finds the first passing record of a player.
pub fn find_passing(v: &Vec<PassingRecord>, id: u32) -> (r: Option<PassingRecord>)
    ensures
        r == spec_find_passing(v@, id),
{
    let mut i: usize = 0;
    proof {
        assert(v@.skip(0) =~= v@);
    }
    while i < v.len()
        invariant
            0 <= i <= v@.len(),
            spec_find_passing(v@, id) == spec_find_passing(v@.skip(i as int), id),
        decreases v@.len() - i,
    {
        if v[i].roster_id == id {
            proof {
                assert(v@.skip(i as int)[0] == v@[i as int]);
            }
            return Some(v[i]);
        }
        proof {
            assert(v@.skip(i as int).skip(1) =~= v@.skip(i as int + 1));
        }
        i = i + 1;
    }
    None
}

/// Finds the first receiving record of a player.
pub fn find_receiving(v: &Vec<ReceivingRecord>, id: u32) -> (r: Option<ReceivingRecord>)
    ensures
        r == spec_find_receiving(v@, id),
{
    let mut i: usize = 0;
    proof {
        assert(v@.skip(0) =~= v@);
    }
    while i < v.len()
        invariant
            0 <= i <= v@.len(),
            spec_find_receiving(v@, id) == spec_find_receiving(v@.skip(i as int), id),
        decreases v@.len() - i,
    {
        if v[i].roster_id == id {
            proof {
                assert(v@.skip(i as int)[0] == v@[i as int]);
            }
            return Some(v[i]);
        }
        proof {
            assert(v@.skip(i as int).skip(1) =~= v@.skip(i as int + 1));
        }
        i = i + 1;
    }
    None
}

/// Finds the first rushing record of a player.
pub fn find_rushing(v: &Vec<RushingRecord>, id: u32) -> (r: Option<RushingRecord>)
    ensures
        r == spec_find_rushing(v@, id),
{
    let mut i: usize = 0;
    proof {
        assert(v@.skip(0) =~= v@);
    }
    while i < v.len()
        invariant
            0 <= i <= v@.len(),
            spec_find_rushing(v@, id) == spec_find_rushing(v@.skip(i as int), id),
        decreases v@.len() - i,
    {
        if v[i].roster_id == id {
            proof {
                assert(v@.skip(i as int)[0] == v@[i as int]);
            }
            return Some(v[i]);
        }
        proof {
            assert(v@.skip(i as int).skip(1) =~= v@.skip(i as int + 1));
        }
        i = i + 1;
    }
    None
}

/// Finds the first defensive record of a player.
pub fn find_defense(v: &Vec<DefenseRecord>, id: u32) -> (r: Option<DefenseRecord>)
    ensures
        r == spec_find_defense(v@, id),
{
    let mut i: usize = 0;
    proof {
        assert(v@.skip(0) =~= v@);
    }
    while i < v.len()
        invariant
            0 <= i <= v@.len(),
            spec_find_defense(v@, id) == spec_find_defense(v@.skip(i as int), id),
        decreases v@.len() - i,
    {
        if v[i].roster_id == id {
            proof {
                assert(v@.skip(i as int)[0] == v@[i as int]);
            }
            return Some(v[i]);
        }
        proof {
            assert(v@.skip(i as int).skip(1) =~= v@.skip(i as int + 1));
        }
        i = i + 1;
    }
    None
}

/// Finds the first kicking record of a player.
pub fn find_kicking(v: &Vec<KickingRecord>, id: u32) -> (r: Option<KickingRecord>)
    ensures
        r == spec_find_kicking(v@, id),
{
    let mut i: usize = 0;
    proof {
        assert(v@.skip(0) =~= v@);
    }
    while i < v.len()
        invariant
            0 <= i <= v@.len(),
            spec_find_kicking(v@, id) == spec_find_kicking(v@.skip(i as int), id),
        decreases v@.len() - i,
    {
        if v[i].roster_id == id {
            proof {
                assert(v@.skip(i as int)[0] == v@[i as int]);
            }
            return Some(v[i]);
        }
        proof {
            assert(v@.skip(i as int).skip(1) =~= v@.skip(i as int + 1));
        }
        i = i + 1;
    }
    None
}

/// Finds the first punting record of a player.
pub fn find_punting(v: &Vec<PuntingRecord>, id: u32) -> (r: Option<PuntingRecord>)
    ensures
        r == spec_find_punting(v@, id),
{
    let mut i: usize = 0;
    proof {
        assert(v@.skip(0) =~= v@);
    }
    while i < v.len()
        invariant
            0 <= i <= v@.len(),
            spec_find_punting(v@, id) == spec_find_punting(v@.skip(i as int), id),
        decreases v@.len() - i,
    {
        if v[i].roster_id == id {
            proof {
                assert(v@.skip(i as int)[0] == v@[i as int]);
            }
            return Some(v[i]);
        }
        proof {
            assert(v@.skip(i as int).skip(1) =~= v@.skip(i as int + 1));
        }
        i = i + 1;
    }
    None
}

/// Sum of `games_played` over a player's passing records.
pub open spec fn spec_games_sum_passing(s: Seq<PassingRecord>, id: u32) -> int
    decreases s.len(),
{
    if s.len() == 0 {
        0
    } else {
        (if s[0].roster_id == id {
            s[0].games_played as int
        } else {
            0
        }) + spec_games_sum_passing(s.skip(1), id)
    }
}

proof fn lemma_games_sum_passing_bound(s: Seq<PassingRecord>, id: u32)
    ensures
        0 <= spec_games_sum_passing(s, id) <= 255 * s.len(),
    decreases s.len(),
{
    if s.len() > 0 {
        lemma_games_sum_passing_bound(s.skip(1), id);
    }
}

/// Sums `games_played` over a player's passing records.
fn games_sum_passing(v: &Vec<PassingRecord>, id: u32) -> (g: u64)
    requires
        v@.len() <= TABLE_LEN_BOUND,
    ensures
        g as int == spec_games_sum_passing(v@, id),
{
    let mut g: u64 = 0;
    let mut i: usize = 0;
    proof {
        lemma_games_sum_passing_bound(v@, id);
        assert(v@.skip(0) =~= v@);
    }
    while i < v.len()
        invariant
            0 <= i <= v@.len(),
            v@.len() <= TABLE_LEN_BOUND,
            g as int == spec_games_sum_passing(v@, id) - spec_games_sum_passing(
                v@.skip(i as int),
                id,
            ),
            0 <= spec_games_sum_passing(v@, id) <= 255 * v@.len(),
            0 <= spec_games_sum_passing(v@.skip(i as int), id) <= 255 * (v@.len() - i),
        decreases v@.len() - i,
    {
        proof {
            assert(v@.skip(i as int)[0] == v@[i as int]);
            assert(v@.skip(i as int).skip(1) =~= v@.skip(i as int + 1));
            lemma_games_sum_passing_bound(v@.skip(i as int + 1), id);
        }
        if v[i].roster_id == id {
            g = g + v[i].games_played as u64;
        }
        i = i + 1;
    }
    proof {
        assert(v@.skip(v@.len() as int) =~= Seq::<PassingRecord>::empty());
    }
    g
}

/// Sum of `games_played` over a player's receiving records.
pub open spec fn spec_games_sum_receiving(s: Seq<ReceivingRecord>, id: u32) -> int
    decreases s.len(),
{
    if s.len() == 0 {
        0
    } else {
        (if s[0].roster_id == id {
            s[0].games_played as int
        } else {
            0
        }) + spec_games_sum_receiving(s.skip(1), id)
    }
}

proof fn lemma_games_sum_receiving_bound(s: Seq<ReceivingRecord>, id: u32)
    ensures
        0 <= spec_games_sum_receiving(s, id) <= 255 * s.len(),
    decreases s.len(),
{
    if s.len() > 0 {
        lemma_games_sum_receiving_bound(s.skip(1), id);
    }
}

/// Sums `games_played` over a player's receiving records.
fn games_sum_receiving(v: &Vec<ReceivingRecord>, id: u32) -> (g: u64)
    requires
        v@.len() <= TABLE_LEN_BOUND,
    ensures
        g as int == spec_games_sum_receiving(v@, id),
{
    let mut g: u64 = 0;
    let mut i: usize = 0;
    proof {
        lemma_games_sum_receiving_bound(v@, id);
        assert(v@.skip(0) =~= v@);
    }
    while i < v.len()
        invariant
            0 <= i <= v@.len(),
            v@.len() <= TABLE_LEN_BOUND,
            g as int == spec_games_sum_receiving(v@, id) - spec_games_sum_receiving(
                v@.skip(i as int),
                id,
            ),
            0 <= spec_games_sum_receiving(v@, id) <= 255 * v@.len(),
            0 <= spec_games_sum_receiving(v@.skip(i as int), id) <= 255 * (v@.len() - i),
        decreases v@.len() - i,
    {
        proof {
            assert(v@.skip(i as int)[0] == v@[i as int]);
            assert(v@.skip(i as int).skip(1) =~= v@.skip(i as int + 1));
            lemma_games_sum_receiving_bound(v@.skip(i as int + 1), id);
        }
        if v[i].roster_id == id {
            g = g + v[i].games_played as u64;
        }
        i = i + 1;
    }
    proof {
        assert(v@.skip(v@.len() as int) =~= Seq::<ReceivingRecord>::empty());
    }
    g
}

/// Sum of `games_played` over a player's rushing records.
pub open spec fn spec_games_sum_rushing(s: Seq<RushingRecord>, id: u32) -> int
    decreases s.len(),
{
    if s.len() == 0 {
        0
    } else {
        (if s[0].roster_id == id {
            s[0].games_played as int
        } else {
            0
        }) + spec_games_sum_rushing(s.skip(1), id)
    }
}

proof fn lemma_games_sum_rushing_bound(s: Seq<RushingRecord>, id: u32)
    ensures
        0 <= spec_games_sum_rushing(s, id) <= 255 * s.len(),
    decreases s.len(),
{
    if s.len() > 0 {
        lemma_games_sum_rushing_bound(s.skip(1), id);
    }
}

/// Sums `games_played` over a player's rushing records.
fn games_sum_rushing(v: &Vec<RushingRecord>, id: u32) -> (g: u64)
    requires
        v@.len() <= TABLE_LEN_BOUND,
    ensures
        g as int == spec_games_sum_rushing(v@, id),
{
    let mut g: u64 = 0;
    let mut i: usize = 0;
    proof {
        lemma_games_sum_rushing_bound(v@, id);
        assert(v@.skip(0) =~= v@);
    }
    while i < v.len()
        invariant
            0 <= i <= v@.len(),
            v@.len() <= TABLE_LEN_BOUND,
            g as int == spec_games_sum_rushing(v@, id) - spec_games_sum_rushing(
                v@.skip(i as int),
                id,
            ),
            0 <= spec_games_sum_rushing(v@, id) <= 255 * v@.len(),
            0 <= spec_games_sum_rushing(v@.skip(i as int), id) <= 255 * (v@.len() - i),
        decreases v@.len() - i,
    {
        proof {
            assert(v@.skip(i as int)[0] == v@[i as int]);
            assert(v@.skip(i as int).skip(1) =~= v@.skip(i as int + 1));
            lemma_games_sum_rushing_bound(v@.skip(i as int + 1), id);
        }
        if v[i].roster_id == id {
            g = g + v[i].games_played as u64;
        }
        i = i + 1;
    }
    proof {
        assert(v@.skip(v@.len() as int) =~= Seq::<RushingRecord>::empty());
    }
    g
}

/// Sum of `games_played` over a player's defense records.
pub open spec fn spec_games_sum_defense(s: Seq<DefenseRecord>, id: u32) -> int
    decreases s.len(),
{
    if s.len() == 0 {
        0
    } else {
        (if s[0].roster_id == id {
            s[0].games_played as int
        } else {
            0
        }) + spec_games_sum_defense(s.skip(1), id)
    }
}

proof fn lemma_games_sum_defense_bound(s: Seq<DefenseRecord>, id: u32)
    ensures
        0 <= spec_games_sum_defense(s, id) <= 255 * s.len(),
    decreases s.len(),
{
    if s.len() > 0 {
        lemma_games_sum_defense_bound(s.skip(1), id);
    }
}

/// Sums `games_played` over a player's defense records.
fn games_sum_defense(v: &Vec<DefenseRecord>, id: u32) -> (g: u64)
    requires
        v@.len() <= TABLE_LEN_BOUND,
    ensures
        g as int == spec_games_sum_defense(v@, id),
{
    let mut g: u64 = 0;
    let mut i: usize = 0;
    proof {
        lemma_games_sum_defense_bound(v@, id);
        assert(v@.skip(0) =~= v@);
    }
    while i < v.len()
        invariant
            0 <= i <= v@.len(),
            v@.len() <= TABLE_LEN_BOUND,
            g as int == spec_games_sum_defense(v@, id) - spec_games_sum_defense(
                v@.skip(i as int),
                id,
            ),
            0 <= spec_games_sum_defense(v@, id) <= 255 * v@.len(),
            0 <= spec_games_sum_defense(v@.skip(i as int), id) <= 255 * (v@.len() - i),
        decreases v@.len() - i,
    {
        proof {
            assert(v@.skip(i as int)[0] == v@[i as int]);
            assert(v@.skip(i as int).skip(1) =~= v@.skip(i as int + 1));
            lemma_games_sum_defense_bound(v@.skip(i as int + 1), id);
        }
        if v[i].roster_id == id {
            g = g + v[i].games_played as u64;
        }
        i = i + 1;
    }
    proof {
        assert(v@.skip(v@.len() as int) =~= Seq::<DefenseRecord>::empty());
    }
    g
}

/// Sum of `games_played` over a player's kicking records.
pub open spec fn spec_games_sum_kicking(s: Seq<KickingRecord>, id: u32) -> int
    decreases s.len(),
{
    if s.len() == 0 {
        0
    } else {
        (if s[0].roster_id == id {
            s[0].games_played as int
        } else {
            0
        }) + spec_games_sum_kicking(s.skip(1), id)
    }
}

proof fn lemma_games_sum_kicking_bound(s: Seq<KickingRecord>, id: u32)
    ensures
        0 <= spec_games_sum_kicking(s, id) <= 255 * s.len(),
    decreases s.len(),
{
    if s.len() > 0 {
        lemma_games_sum_kicking_bound(s.skip(1), id);
    }
}

/// Sums `games_played` over a player's kicking records.
fn games_sum_kicking(v: &Vec<KickingRecord>, id: u32) -> (g: u64)
    requires
        v@.len() <= TABLE_LEN_BOUND,
    ensures
        g as int == spec_games_sum_kicking(v@, id),
{
    let mut g: u64 = 0;
    let mut i: usize = 0;
    proof {
        lemma_games_sum_kicking_bound(v@, id);
        assert(v@.skip(0) =~= v@);
    }
    while i < v.len()
        invariant
            0 <= i <= v@.len(),
            v@.len() <= TABLE_LEN_BOUND,
            g as int == spec_games_sum_kicking(v@, id) - spec_games_sum_kicking(
                v@.skip(i as int),
                id,
            ),
            0 <= spec_games_sum_kicking(v@, id) <= 255 * v@.len(),
            0 <= spec_games_sum_kicking(v@.skip(i as int), id) <= 255 * (v@.len() - i),
        decreases v@.len() - i,
    {
        proof {
            assert(v@.skip(i as int)[0] == v@[i as int]);
            assert(v@.skip(i as int).skip(1) =~= v@.skip(i as int + 1));
            lemma_games_sum_kicking_bound(v@.skip(i as int + 1), id);
        }
        if v[i].roster_id == id {
            g = g + v[i].games_played as u64;
        }
        i = i + 1;
    }
    proof {
        assert(v@.skip(v@.len() as int) =~= Seq::<KickingRecord>::empty());
    }
    g
}

/// Sum of `games_played` over a player's punting records.
pub open spec fn spec_games_sum_punting(s: Seq<PuntingRecord>, id: u32) -> int
    decreases s.len(),
{
    if s.len() == 0 {
        0
    } else {
        (if s[0].roster_id == id {
            s[0].games_played as int
        } else {
            0
        }) + spec_games_sum_punting(s.skip(1), id)
    }
}

proof fn lemma_games_sum_punting_bound(s: Seq<PuntingRecord>, id: u32)
    ensures
        0 <= spec_games_sum_punting(s, id) <= 255 * s.len(),
    decreases s.len(),
{
    if s.len() > 0 {
        lemma_games_sum_punting_bound(s.skip(1), id);
    }
}

/// Sums `games_played` over a player's punting records.
fn games_sum_punting(v: &Vec<PuntingRecord>, id: u32) -> (g: u64)
    requires
        v@.len() <= TABLE_LEN_BOUND,
    ensures
        g as int == spec_games_sum_punting(v@, id),
{
    let mut g: u64 = 0;
    let mut i: usize = 0;
    proof {
        lemma_games_sum_punting_bound(v@, id);
        assert(v@.skip(0) =~= v@);
    }
    while i < v.len()
        invariant
            0 <= i <= v@.len(),
            v@.len() <= TABLE_LEN_BOUND,
            g as int == spec_games_sum_punting(v@, id) - spec_games_sum_punting(
                v@.skip(i as int),
                id,
            ),
            0 <= spec_games_sum_punting(v@, id) <= 255 * v@.len(),
            0 <= spec_games_sum_punting(v@.skip(i as int), id) <= 255 * (v@.len() - i),
        decreases v@.len() - i,
    {
        proof {
            assert(v@.skip(i as int)[0] == v@[i as int]);
            assert(v@.skip(i as int).skip(1) =~= v@.skip(i as int + 1));
            lemma_games_sum_punting_bound(v@.skip(i as int + 1), id);
        }
        if v[i].roster_id == id {
            g = g + v[i].games_played as u64;
        }
        i = i + 1;
    }
    proof {
        assert(v@.skip(v@.len() as int) =~= Seq::<PuntingRecord>::empty());
    }
    g
}

/// The greatest games-played figure for a player across the six tables.
pub open spec fn spec_games_played(t: &StatTables, id: u32) -> int {
    vstd::math::max(
        vstd::math::max(
            vstd::math::max(
                spec_games_sum_passing(t.passing@, id),
                spec_games_sum_receiving(t.receiving@, id),
            ),
            vstd::math::max(
                spec_games_sum_rushing(t.rushing@, id),
                spec_games_sum_defense(t.defense@, id),
            ),
        ),
        vstd::math::max(
            spec_games_sum_kicking(t.kicking@, id),
            spec_games_sum_punting(t.punting@, id),
        ),
    )
}

/// Computes the games-played figure of a player: the greatest per-table sum
/// of `games_played` over the player's records.
pub fn games_played(t: &StatTables, id: u32) -> (g: u64)
    requires
        stats_wf(t),
    ensures
        g as int == spec_games_played(t, id),
{
    let passing = games_sum_passing(&t.passing, id);
    let receiving = games_sum_receiving(&t.receiving, id);
    let rushing = games_sum_rushing(&t.rushing, id);
    let defense = games_sum_defense(&t.defense, id);
    let kicking = games_sum_kicking(&t.kicking, id);
    let punting = games_sum_punting(&t.punting, id);
    let mut g = passing;
    if receiving > g {
        g = receiving;
    }
    if rushing > g {
        g = rushing;
    }
    if defense > g {
        g = defense;
    }
    if kicking > g {
        g = kicking;
    }
    if punting > g {
        g = punting;
    }
    g
}

} // verus!
