//! The kinds of buildings residents dream of building, with their display names.

use vstd::prelude::*;

verus! {

/// A kind of building a resident can wish for.
#[derive(Clone, Copy, Debug, PartialEq, Eq, Hash, Structural)]
pub enum BuildKind {
    House,
    Well,
    Tower,
    Garden,
    Pavilion,
}

/// The display name of a building kind.
pub open spec fn build_name(k: BuildKind) -> Seq<char> {
    match k {
        BuildKind::House => "小屋"@,
        BuildKind::Well => "水井"@,
        BuildKind::Tower => "瞭望台"@,
        BuildKind::Garden => "花圃"@,
        BuildKind::Pavilion => "涼亭"@,
    }
}

impl BuildKind {
    /// The display name of this kind.
    pub fn display_name(self) -> (r: &'static str)
        ensures
            r@ == build_name(self),
    {
        match self {
            BuildKind::House => "小屋",
            BuildKind::Well => "水井",
            BuildKind::Tower => "瞭望台",
            BuildKind::Garden => "花圃",
            BuildKind::Pavilion => "涼亭",
        }
    }
}

} // verus!
