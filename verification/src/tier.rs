//! The four ordered development tiers and their rank order.

use vstd::prelude::*;

verus! {

/// A development tier. Ordered from lowest to highest:
/// `Base < LowerMid < UpperMid < TopTier`.
#[derive(Clone, Copy, Debug, PartialEq, Eq, Structural)]
pub enum Tier {
    Base,
    LowerMid,
    UpperMid,
    TopTier,
}

impl Tier {
    /// Numeric rank of a tier; higher tiers have higher ranks.
    pub open spec fn rank(self) -> int {
        match self {
            Tier::Base => 0,
            Tier::LowerMid => 1,
            Tier::UpperMid => 2,
            Tier::TopTier => 3,
        }
    }

    /// Executable rank, equal to the specification rank.
    pub fn rank_u8(self) -> (r: u8)
        ensures
            r as int == self.rank(),
    {
        match self {
            Tier::Base => 0,
            Tier::LowerMid => 1,
            Tier::UpperMid => 2,
            Tier::TopTier => 3,
        }
    }

    /// Decodes the on-disk tier index. Every tier corresponds to exactly one
    /// index in `0..=3`; any other byte is rejected.
    pub fn from_index(x: u8) -> (r: Option<Tier>)
        ensures
            x == 0 ==> r == Some(Tier::Base),
            x == 1 ==> r == Some(Tier::LowerMid),
            x == 2 ==> r == Some(Tier::UpperMid),
            x == 3 ==> r == Some(Tier::TopTier),
            x > 3 ==> r is None,
    {
        match x {
            0 => Some(Tier::Base),
            1 => Some(Tier::LowerMid),
            2 => Some(Tier::UpperMid),
            3 => Some(Tier::TopTier),
            _ => None,
        }
    }

    /// True when `self` ranks at least as high as `other`.
    pub fn at_least(self, other: Tier) -> (r: bool)
        ensures
            r == (self.rank() >= other.rank()),
    {
        self.rank_u8() >= other.rank_u8()
    }

    /// The tier one rank below `self`, for tiers that have one.
    pub open spec fn spec_below(self) -> Tier
        recommends
            self != Tier::Base,
    {
        match self {
            Tier::TopTier => Tier::UpperMid,
            Tier::UpperMid => Tier::LowerMid,
            Tier::LowerMid => Tier::Base,
            Tier::Base => Tier::Base,
        }
    }

    /// Executable form of [`Self::spec_below`].
    pub fn below(self) -> (r: Tier)
        ensures
            r == self.spec_below(),
    {
        match self {
            Tier::TopTier => Tier::UpperMid,
            Tier::UpperMid => Tier::LowerMid,
            Tier::LowerMid => Tier::Base,
            Tier::Base => Tier::Base,
        }
    }
}

} // verus!
