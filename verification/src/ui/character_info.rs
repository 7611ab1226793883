//! The tabs of the character information screen.
use vstd::prelude::*;

verus! {

/// The tabs of the character screen, in display order.
#[derive(Debug, Clone, Copy, PartialEq, Eq, Structural)]
pub enum CharacterInfoTab {
    Skills,
    Reputation,
    Assets,
    Background,
}

/// The position of a tab.
pub open spec fn tab_index(t: CharacterInfoTab) -> usize {
    match t {
        CharacterInfoTab::Skills => 0,
        CharacterInfoTab::Reputation => 1,
        CharacterInfoTab::Assets => 2,
        CharacterInfoTab::Background => 3,
    }
}

/// The tab at a position (the first one for a position out of range).
pub open spec fn tab_at(i: usize) -> CharacterInfoTab {
    if i == 1 {
        CharacterInfoTab::Reputation
    } else if i == 2 {
        CharacterInfoTab::Assets
    } else if i == 3 {
        CharacterInfoTab::Background
    } else {
        CharacterInfoTab::Skills
    }
}

impl CharacterInfoTab {
    /// The position of this tab.
    pub fn index(&self) -> (i: usize)
        ensures
            i == tab_index(*self),
    {
        match self {
            CharacterInfoTab::Skills => 0,
            CharacterInfoTab::Reputation => 1,
            CharacterInfoTab::Assets => 2,
            CharacterInfoTab::Background => 3,
        }
    }

    /// The tab at position `index`; positions past the last give the first tab.
    pub fn from_index(index: usize) -> (t: CharacterInfoTab)
        ensures
            t == tab_at(index),
    {
        match index {
            1 => CharacterInfoTab::Reputation,
            2 => CharacterInfoTab::Assets,
            3 => CharacterInfoTab::Background,
            _ => CharacterInfoTab::Skills,
        }
    }
}

/// Going to a tab's position and back gives the same tab.
pub proof fn law_tab_index_round_trip(t: CharacterInfoTab)
    ensures
        tab_at(tab_index(t)) == t,
{
}

} // verus!
