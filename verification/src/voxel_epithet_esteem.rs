//! Esteem: a resident who holds a player in high regard walks over to greet them.

use vstd::prelude::*;
use crate::text::{take_upto, trim_seq, trim_str, truncate_chars, cat, cat3, cat5};
use crate::voxel_playerepithet::{PlayerRole, epithet_of};

verus! {

/// The name a greeting uses: the first twelve characters, or `fallback` when those are blank.
pub open spec fn name_or(name: Seq<char>, fallback: Seq<char>) -> Seq<char> {
    if trim_seq(take_upto(name, 12)).len() == 0 {
        fallback
    } else {
        take_upto(name, 12)
    }
}

/// The first twelve characters of a name, or `fallback` when those are blank.
pub fn name_or_exec(name: &str, fallback: &str) -> (r: String)
    ensures
        r@ == name_or(name@, fallback@),
{
    let n = truncate_chars(name, 12);
    if trim_str(n.as_str()).unicode_len() == 0 {
        String::from_str(fallback)
    } else {
        n
    }
}

/// The three esteem greetings.
pub open spec fn arrive_template(who: Seq<char>, ep: Seq<char>, k: int) -> Seq<char> {
    if k == 0 {
        "看到"@ + who + "了，特地過來向你打聲招呼，"@ + ep + "。"@
    } else if k == 1 {
        ep + "，我特地走過來看看你～"@
    } else {
        "遠遠望見"@ + who + "，就想過來跟你說說話，"@ + ep + "。"@
    }
}

/// The greeting of a resident who walked over out of esteem, naming the player (旅人 when
/// blank) and the role's epithet, chosen by `pick`.
pub fn esteem_arrive_line(role: PlayerRole, player_name: &str, pick: usize) -> (r: String)
    ensures
        r@ == arrive_template(name_or(player_name@, "旅人"@), epithet_of(role), (pick % 3) as int),
{
    let who = name_or_exec(player_name, "旅人");
    let ep = role.epithet();
    let k = pick % 3;
    if k == 0 {
        let mut s = cat5("看到", who.as_str(), "了，特地過來向你打聲招呼，", ep, "。");
        s
    } else if k == 1 {
        cat(ep, "，我特地走過來看看你～")
    } else {
        cat5("遠遠望見", who.as_str(), "，就想過來跟你說說話，", ep, "。")
    }
}

/// The feed line of a resident walking over to greet a player she esteems.
pub fn esteem_feed_line(player_name: &str, role: PlayerRole) -> (r: String)
    ensures
        r@ == "特地放下手邊的事，走過去向「"@ + epithet_of(role) + "」"@ + name_or(player_name@, "那位旅人"@)
            + "打了聲招呼。"@,
{
    let who = name_or_exec(player_name, "那位旅人");
    let mut s = cat5("特地放下手邊的事，走過去向「", role.epithet(), "」", who.as_str(), "打了聲招呼。");
    s
}

} // verus!
