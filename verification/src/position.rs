//! Canonical position groups and the raw-label classifier.
//!
//! Every player carries a raw position label from the roster file. The
//! classifier maps a label, together with whether the player's team runs a
//! 3-4 defensive front, to at most one of the 13 canonical groups.

use crate::text::str_eq;
use vstd::prelude::*;
use vstd::string::StringExecFns;

verus! {

/// One of the 13 canonical position groups used for quota accounting.
#[derive(Clone, Copy, Debug, PartialEq, Eq, Structural)]
pub enum PositionGroup {
    QB,
    HB,
    FB,
    WR,
    TE,
    OL,
    IDL,
    EDGE,
    LB,
    CB,
    S,
    K,
    P,
}

/// The canonical group for a raw position label, if any.
///
/// Linemen labels collapse to `OL`. Defensive ends count as interior linemen
/// for 3-4 teams and as edge rushers otherwise; outside linebackers count as
/// edge rushers for 3-4 teams and as linebackers otherwise.
pub open spec fn spec_classify(label: Seq<char>, three_four: bool) -> Option<PositionGroup> {
    if label == "QB"@ {
        Some(PositionGroup::QB)
    } else if label == "HB"@ {
        Some(PositionGroup::HB)
    } else if label == "FB"@ {
        Some(PositionGroup::FB)
    } else if label == "WR"@ {
        Some(PositionGroup::WR)
    } else if label == "TE"@ {
        Some(PositionGroup::TE)
    } else if label == "LG"@ || label == "LT"@ || label == "RG"@ || label == "RT"@ || label
        == "C"@ {
        Some(PositionGroup::OL)
    } else if label == "DT"@ {
        Some(PositionGroup::IDL)
    } else if label == "LE"@ || label == "RE"@ {
        if three_four {
            Some(PositionGroup::IDL)
        } else {
            Some(PositionGroup::EDGE)
        }
    } else if label == "LOLB"@ || label == "ROLB"@ {
        if three_four {
            Some(PositionGroup::EDGE)
        } else {
            Some(PositionGroup::LB)
        }
    } else if label == "MLB"@ {
        Some(PositionGroup::LB)
    } else if label == "CB"@ {
        Some(PositionGroup::CB)
    } else if label == "S"@ {
        Some(PositionGroup::S)
    } else if label == "K"@ {
        Some(PositionGroup::K)
    } else if label == "P"@ {
        Some(PositionGroup::P)
    } else {
        None
    }
}

/// Classifies a raw position label. A label outside the known set belongs to
/// no group and yields `None`.
pub fn classify(label: &str, three_four: bool) -> (r: Option<PositionGroup>)
    ensures
        r == spec_classify(label@, three_four),
{
    if str_eq(label, "QB") {
        Some(PositionGroup::QB)
    } else if str_eq(label, "HB") {
        Some(PositionGroup::HB)
    } else if str_eq(label, "FB") {
        Some(PositionGroup::FB)
    } else if str_eq(label, "WR") {
        Some(PositionGroup::WR)
    } else if str_eq(label, "TE") {
        Some(PositionGroup::TE)
    } else if str_eq(label, "LG") || str_eq(label, "LT") || str_eq(label, "RG") || str_eq(
        label,
        "RT",
    ) || str_eq(label, "C") {
        Some(PositionGroup::OL)
    } else if str_eq(label, "DT") {
        Some(PositionGroup::IDL)
    } else if str_eq(label, "LE") || str_eq(label, "RE") {
        if three_four {
            Some(PositionGroup::IDL)
        } else {
            Some(PositionGroup::EDGE)
        }
    } else if str_eq(label, "LOLB") || str_eq(label, "ROLB") {
        if three_four {
            Some(PositionGroup::EDGE)
        } else {
            Some(PositionGroup::LB)
        }
    } else if str_eq(label, "MLB") {
        Some(PositionGroup::LB)
    } else if str_eq(label, "CB") {
        Some(PositionGroup::CB)
    } else if str_eq(label, "S") {
        Some(PositionGroup::S)
    } else if str_eq(label, "K") {
        Some(PositionGroup::K)
    } else if str_eq(label, "P") {
        Some(PositionGroup::P)
    } else {
        None
    }
}

/// The display label of a canonical group.
pub open spec fn spec_group_label(g: PositionGroup) -> Seq<char> {
    match g {
        PositionGroup::QB => "QB"@,
        PositionGroup::HB => "HB"@,
        PositionGroup::FB => "FB"@,
        PositionGroup::WR => "WR"@,
        PositionGroup::TE => "TE"@,
        PositionGroup::OL => "OL"@,
        PositionGroup::IDL => "IDL"@,
        PositionGroup::EDGE => "EDGE"@,
        PositionGroup::LB => "LB"@,
        PositionGroup::CB => "CB"@,
        PositionGroup::S => "S"@,
        PositionGroup::K => "K"@,
        PositionGroup::P => "P"@,
    }
}

impl PositionGroup {
    /// Returns the display label of this group.
    pub fn label(self) -> (r: String)
        ensures
            r@ == spec_group_label(self),
    {
        match self {
            PositionGroup::QB => String::from_str("QB"),
            PositionGroup::HB => String::from_str("HB"),
            PositionGroup::FB => String::from_str("FB"),
            PositionGroup::WR => String::from_str("WR"),
            PositionGroup::TE => String::from_str("TE"),
            PositionGroup::OL => String::from_str("OL"),
            PositionGroup::IDL => String::from_str("IDL"),
            PositionGroup::EDGE => String::from_str("EDGE"),
            PositionGroup::LB => String::from_str("LB"),
            PositionGroup::CB => String::from_str("CB"),
            PositionGroup::S => String::from_str("S"),
            PositionGroup::K => String::from_str("K"),
            PositionGroup::P => String::from_str("P"),
        }
    }
}

/// The fixed processing order of the 13 canonical groups.
pub open spec fn spec_group_order() -> Seq<PositionGroup> {
    seq![
        PositionGroup::QB,
        PositionGroup::HB,
        PositionGroup::FB,
        PositionGroup::WR,
        PositionGroup::TE,
        PositionGroup::OL,
        PositionGroup::IDL,
        PositionGroup::EDGE,
        PositionGroup::LB,
        PositionGroup::CB,
        PositionGroup::S,
        PositionGroup::K,
        PositionGroup::P,
    ]
}

/// Returns the 13 canonical groups in processing order.
pub fn group_order() -> (r: Vec<PositionGroup>)
    ensures
        r@ == spec_group_order(),
{
    let v: Vec<PositionGroup> = vec![
        PositionGroup::QB,
        PositionGroup::HB,
        PositionGroup::FB,
        PositionGroup::WR,
        PositionGroup::TE,
        PositionGroup::OL,
        PositionGroup::IDL,
        PositionGroup::EDGE,
        PositionGroup::LB,
        PositionGroup::CB,
        PositionGroup::S,
        PositionGroup::K,
        PositionGroup::P,
    ];
    proof {
        assert(v@ =~= spec_group_order());
    }
    v
}

} // verus!
