//! A resident who watches a traveller till and sow a row of fields stops to praise the
//! care that went into it. Positions are measured by the caller; this module holds the
//! streak and trigger rules and the words.

use vstd::prelude::*;
use crate::text::{replace_all, replace_str};

verus! {

/// How many tilling or sowing actions in a row count as real field work.
pub const FARM_ADMIRE_STREAK_MIN: u32 = 3;

/// Cooldown between two praises of the same resident for the same player, in seconds.
pub const FARM_ADMIRE_COOLDOWN_SECS: u64 = 150;

/// Longest pause, in seconds, that still continues a streak.
pub const STREAK_WINDOW_SECS: u64 = 40;

/// Whether an action at `now_secs` comes soon enough after one at `last_secs`.
pub open spec fn streak_fresh(last_secs: u64, now_secs: u64) -> bool {
    (if now_secs >= last_secs { now_secs - last_secs } else { 0 }) <= STREAK_WINDOW_SECS
}

/// The streak count after one more action: the previous count plus one when there was a
/// previous action (`prev` holds its count and time), it lay near this one (`near`, measured
/// by the caller) and came within [`STREAK_WINDOW_SECS`]; otherwise a new streak of one.
pub fn streak_count_after(prev: Option<(u32, u64)>, near: bool, now_secs: u64) -> (c: u32)
    requires
        prev matches Some((count, _)) ==> count < u32::MAX,
    ensures
        c == (match prev {
            Some((count, last)) => if near && streak_fresh(last, now_secs) { count + 1 } else { 1 },
            None => 1,
        }),
{
    match prev {
        Some((count, last)) => {
            let fresh = now_secs.saturating_sub(last) <= STREAK_WINDOW_SECS;
            if near && fresh {
                count + 1
            } else {
                1
            }
        },
        None => 1,
    }
}

/// Whether a resident praises the work: the streak is long enough, the resident stands
/// within sight (measured by the caller) and the cooldown is over.
pub fn admire_triggers_within(streak: u32, within_radius: bool, cooldown_ok: bool) -> (b: bool)
    ensures
        b == (streak >= FARM_ADMIRE_STREAK_MIN && within_radius && cooldown_ok),
{
    streak >= FARM_ADMIRE_STREAK_MIN && within_radius && cooldown_ok
}

/// The five praise frames, with {p} for the player.
pub open spec fn admire_frames() -> Seq<Seq<char>> {
    seq![
        "{p}，你這畦地翻得真仔細，我都聞到泥土的香氣了。"@,
        "看{p}這樣一畦一畦仔細照顧，這片田一定會長得很好。"@,
        "難怪{p}種的田總是長得漂亮，原來這麼下功夫。"@,
        "光是看{p}種田，我心情都跟著好起來了。"@,
        "{p}，你對這片田的用心，我都看在眼裡。"@,
    ]
}

/// The praise of the player's field work: frame `pick % 5` with {p} filled in.
pub fn admire_say_line(player_name: &str, pick: usize) -> (r: String)
    ensures
        r@ == replace_all(admire_frames()[(pick % 5) as int], "{p}"@, player_name@),
{
    let frames: [&str; 5] = [
        "{p}，你這畦地翻得真仔細，我都聞到泥土的香氣了。",
        "看{p}這樣一畦一畦仔細照顧，這片田一定會長得很好。",
        "難怪{p}種的田總是長得漂亮，原來這麼下功夫。",
        "光是看{p}種田，我心情都跟著好起來了。",
        "{p}，你對這片田的用心，我都看在眼裡。",
    ];
    proof {
        assert(crate::text::views(frames@) =~= admire_frames());
        assert(crate::text::views(frames@)[(pick % 5) as int] == frames@[(pick % 5) as int]@);
        reveal_strlit("{p}");
    }
    replace_str(frames[pick % 5], "{p}", player_name)
}

/// The resident's memory of watching the player work the fields.
pub fn admire_memory_line(player_name: &str) -> (r: String)
    ensures
        r@ == "看著"@ + player_name@ + "在田裡忙進忙出，一畦一畦仔細照顧，那份用心我都看在眼裡。"@,
{
    crate::text::cat3("看著", player_name, "在田裡忙進忙出，一畦一畦仔細照顧，那份用心我都看在眼裡。")
}

} // verus!
