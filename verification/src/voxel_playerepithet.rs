//! The epithets residents give to players after what they keep doing.

use vstd::prelude::*;

verus! {

/// The role a resident sees a player in.
#[derive(Clone, Copy, Debug, PartialEq, Eq, Hash, Structural)]
pub enum PlayerRole {
    Maker,
    Giver,
    Trader,
    Companion,
}

/// The epithet of a role.
pub open spec fn epithet_of(r: PlayerRole) -> Seq<char> {
    match r {
        PlayerRole::Maker => "造物者"@,
        PlayerRole::Giver => "慷慨的人"@,
        PlayerRole::Trader => "老搭檔"@,
        PlayerRole::Companion => "常來的老友"@,
    }
}

impl PlayerRole {
    /// The epithet of this role.
    pub fn epithet(self) -> (r: &'static str)
        ensures
            r@ == epithet_of(self),
    {
        match self {
            PlayerRole::Maker => "造物者",
            PlayerRole::Giver => "慷慨的人",
            PlayerRole::Trader => "老搭檔",
            PlayerRole::Companion => "常來的老友",
        }
    }
}

} // verus!
