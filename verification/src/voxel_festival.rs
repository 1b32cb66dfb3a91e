//! The village festival: every few world days is a festival day, on which idle residents
//! are more inclined to show their good mood.

use vstd::prelude::*;
use crate::text::views;

verus! {

/// Every this many world days, one is a festival day.
pub const FESTIVAL_INTERVAL_DAYS: u64 = 6;

/// Whether world day `day` is a festival day (the first day of the world is one).
pub fn is_festival_day(day: u64) -> (b: bool)
    ensures
        b == (day % FESTIVAL_INTERVAL_DAYS == 0),
{
    day % FESTIVAL_INTERVAL_DAYS == 0
}

/// Whether a resident shows her festival mood now: it is a festival day, she is free, her
/// cooldown is over and the caller's roll came in under the chance.
pub fn celebrates(is_festival: bool, eligible: bool, cooldown_ok: bool, roll_under_chance: bool) -> (b: bool)
    ensures
        b == (is_festival && eligible && cooldown_ok && roll_under_chance),
{
    is_festival && eligible && cooldown_ok && roll_under_chance
}

/// The four festival bubbles.
pub open spec fn festival_pool() -> Seq<Seq<char>> {
    seq![
        "🎉 今天是慶典日呢，心情特別好！"@,
        "🎊 慶典日就是要笑得比平常燦爛一點～"@,
        "🎉 這種日子，連空氣都甜甜的"@,
        "🎊 好想跟大家一起熱鬧一下！"@,
    ]
}

/// The festival bubble at `pick`, taken modulo the four bubbles.
pub fn festival_bubble_line(pick: usize) -> (r: &'static str)
    ensures
        r@ == festival_pool()[(pick % 4) as int],
{
    let pool: [&'static str; 4] = [
        "🎉 今天是慶典日呢，心情特別好！",
        "🎊 慶典日就是要笑得比平常燦爛一點～",
        "🎉 這種日子，連空氣都甜甜的",
        "🎊 好想跟大家一起熱鬧一下！",
    ];
    proof {
        assert(views(pool@) =~= festival_pool());
        assert(views(pool@)[(pick % 4) as int] == pool@[(pick % 4) as int]@);
    }
    pool[pick % 4]
}

/// The feed line announcing the start of a festival day.
pub fn festival_begin_feed_line() -> (r: &'static str)
    ensures
        r@ == "今天是村莊的慶典日🎉，村里的人都比平常更容易眉開眼笑。"@,
{
    "今天是村莊的慶典日🎉，村里的人都比平常更容易眉開眼笑。"
}

} // verus!
