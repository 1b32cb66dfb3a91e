//! Honour signs: a resident carves a sign by her door naming a player's epithet.

use vstd::prelude::*;
use crate::text::{cat, cat5};
use crate::voxel_playerepithet::{PlayerRole, epithet_of};

verus! {

/// The fixed prefix of every honour sign.
pub const HONOR_PREFIX: &'static str = "此地常客·";
/// Feed category of an honour sign.
pub const FEED_KIND: &'static str = "名號立牌";

/// The text of the honour sign for a role: the prefix followed by the epithet.
pub fn honor_sign_text(role: PlayerRole) -> (r: String)
    ensures
        r@ == "此地常客·"@ + epithet_of(role),
{
    cat("此地常客·", role.epithet())
}

/// Whether a sign's text is an honour sign: it starts with the prefix.
pub fn is_honor_sign(text: &str) -> (b: bool)
    ensures
        b == (text@.len() >= "此地常客·"@.len() && text@.subrange(0, "此地常客·"@.len() as int) == "此地常客·"@),
{
    let t = crate::text::chars_of(text);
    let p = crate::text::chars_of("此地常客·");
    if t.len() < p.len() {
        return false;
    }
    let mut i: usize = 0;
    while i < p.len()
        invariant
            t@ == text@,
            p@ == "此地常客·"@,
            p@.len() <= t@.len(),
            i <= p@.len(),
            forall|j: int| 0 <= j < i ==> t@[j] == p@[j],
        decreases p@.len() - i,
    {
        if t[i] != p[i] {
            assert(text@.subrange(0, p@.len() as int)[i as int] != p@[i as int]);
            return false;
        }
        i = i + 1;
    }
    assert(text@.subrange(0, p@.len() as int) =~= p@);
    true
}

/// The feed line of a resident carving an honour sign; an empty player name reads as 這位旅人.
pub fn honor_feed_line(resident_name: &str, player_name: &str, role: PlayerRole) -> (r: String)
    ensures
        player_name@.len() == 0 ==> r@ == resident_name@ + " 在自家門旁刻了一塊牌，把這位旅人記作這一帶的「"@
            + epithet_of(role) + "」"@,
        player_name@.len() > 0 ==> r@ == resident_name@ + " 在自家門旁刻了一塊牌，把 "@ + player_name@
            + " 記作這一帶的「"@ + epithet_of(role) + "」"@,
{
    let e = role.epithet();
    if player_name.unicode_len() == 0 {
        let mut s = crate::text::cat3(resident_name, " 在自家門旁刻了一塊牌，把這位旅人記作這一帶的「", e);
        s.append("」");
        s
    } else {
        let mut s = cat5(resident_name, " 在自家門旁刻了一塊牌，把 ", player_name, " 記作這一帶的「", e);
        s.append("」");
        s
    }
}

} // verus!
