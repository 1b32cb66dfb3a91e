//! Aether fireworks: a player lets off a crafted firework into the night sky, and the
//! residents nearby look up and cheer.

use vstd::prelude::*;
use crate::text::{take_upto, truncate_chars, views};

verus! {

/// The item id of an aether firework (kept in the bag, used up when launched).
pub const FIREWORK_ID: u8 = 68;

/// Longest cheer bubble, in characters.
pub const CHEER_SAY_MAX_CHARS: usize = 40;

/// Number of spark palettes the client knows.
pub const PALETTE_COUNT: u32 = 6;

/// The spark palette for a random number `r`: `r` modulo [`PALETTE_COUNT`].
pub fn firework_palette(r: u64) -> (p: u32)
    ensures
        p == r % (PALETTE_COUNT as u64),
        p < PALETTE_COUNT,
{
    (r % 6) as u32
}

/// The four lines the launcher sees.
pub open spec fn launch_self_pool() -> Seq<Seq<char>> {
    seq![
        "咻——砰！一束乙太煙火在夜空中綻放成一朵光花。"@,
        "你朝天空一放，火花灑滿星幕，映亮了腳下的方塊世界。"@,
        "乙太煙火升空炸開，星空下一片絢爛的青金色光雨。"@,
        "砰！煙火在頭頂盛開，餘光在夜色裡慢慢飄落。"@,
    ]
}

/// What the launcher sees: line `pick % 4`.
pub fn launch_self_line(pick: usize) -> (r: &'static str)
    ensures
        r@ == launch_self_pool()[(pick % 4) as int],
{
    let lines: [&'static str; 4] = [
        "咻——砰！一束乙太煙火在夜空中綻放成一朵光花。",
        "你朝天空一放，火花灑滿星幕，映亮了腳下的方塊世界。",
        "乙太煙火升空炸開，星空下一片絢爛的青金色光雨。",
        "砰！煙火在頭頂盛開，餘光在夜色裡慢慢飄落。",
    ];
    proof {
        assert(views(lines@) =~= launch_self_pool());
        assert(views(lines@)[(pick % 4) as int] == lines@[(pick % 4) as int]@);
    }
    lines[pick % 4]
}

/// The five cheers of residents who see the firework.
pub open spec fn cheer_pool() -> Seq<Seq<char>> {
    seq![
        "哇——你看那煙火！好美啊！"@,
        "煙火！好久沒看到這麼漂亮的夜空了！"@,
        "快看快看，天上開出一朵花來了！"@,
        "這束煙火真教人開心，謝謝你放給大家看～"@,
        "抬頭一看正好趕上，這一刻真幸福呀！"@,
    ]
}

/// A resident's cheer: line `pick % 5`.
pub fn cheer_line(pick: usize) -> (r: &'static str)
    ensures
        r@ == cheer_pool()[(pick % 5) as int],
{
    let lines: [&'static str; 5] = [
        "哇——你看那煙火！好美啊！",
        "煙火！好久沒看到這麼漂亮的夜空了！",
        "快看快看，天上開出一朵花來了！",
        "這束煙火真教人開心，謝謝你放給大家看～",
        "抬頭一看正好趕上，這一刻真幸福呀！",
    ];
    proof {
        assert(views(lines@) =~= cheer_pool());
        assert(views(lines@)[(pick % 5) as int] == lines@[(pick % 5) as int]@);
    }
    lines[pick % 5]
}

/// The player's name cut to 24 characters, or `fallback` when it is empty.
pub open spec fn name_or(player: Seq<char>, fallback: Seq<char>) -> Seq<char> {
    take_upto(if player.len() == 0 { fallback } else { player }, 24)
}

fn name_or_exec(player: &str, fallback: &str) -> (r: String)
    ensures
        r@ == name_or(player@, fallback@),
{
    if player.unicode_len() == 0 {
        truncate_chars(fallback, 24)
    } else {
        truncate_chars(player, 24)
    }
}

/// The feed line of a player letting off a firework.
pub fn launch_feed_line(player: &str) -> (r: String)
    ensures
        r@ == name_or(player@, "有位旅人"@) + "朝夜空施放了一束乙太煙火，火花灑滿星空，居民都抬頭歡呼起來。"@,
{
    let mut s = name_or_exec(player, "有位旅人");
    s.append("朝夜空施放了一束乙太煙火，火花灑滿星空，居民都抬頭歡呼起來。");
    s
}

/// A resident's memory of watching the player's firework.
pub fn cheer_memory_line(player: &str) -> (r: String)
    ensures
        r@ == "那晚"@ + name_or(player@, "一位旅人"@) + "放了一束煙火，我抬頭看著它在夜空中綻放，心裡暖暖的。"@,
{
    let who = name_or_exec(player, "一位旅人");
    let mut s = String::from_str("那晚");
    s.append(who.as_str());
    s.append("放了一束煙火，我抬頭看著它在夜空中綻放，心裡暖暖的。");
    s
}

} // verus!
