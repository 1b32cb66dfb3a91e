//! Expeditions: a wandering resident sets out alone for the wild frontier, arrives,
//! lingers and comes home, telling of it in bubbles, memories and the feed.

use vstd::prelude::*;
use crate::text::{take_upto, truncate_chars, cat, cat3};

verus! {

/// Longest bubble, in characters.
pub const SAY_MAX_CHARS: usize = 40;
/// The sentinel player under which expedition memories are kept.
pub const EXPEDITION_MEMORY_PLAYER: &'static str = "__voxel_expedition__";

/// The three bubbles on setting out towards `bearing`.
pub open spec fn embark_template(bearing: Seq<char>, k: int) -> Seq<char> {
    if k == 0 {
        "今天想往"@ + bearing + "走遠一點，去世界的邊陲看看～"@
    } else if k == 1 {
        "待在城裡太久了，我想一個人去"@ + bearing + "的荒野走走。"@
    } else {
        "腳癢了！這就動身往"@ + bearing + "遠行一趟。"@
    }
}

/// The bubble on setting out, chosen by `pick` and cut to [`SAY_MAX_CHARS`].
pub fn embark_bubble(bearing: &str, pick: usize) -> (r: String)
    ensures
        r@ == take_upto(embark_template(bearing@, (pick % 3) as int), SAY_MAX_CHARS as int),
        r@.len() <= SAY_MAX_CHARS,
{
    let k = pick % 3;
    let line = if k == 0 {
        cat3("今天想往", bearing, "走遠一點，去世界的邊陲看看～")
    } else if k == 1 {
        cat3("待在城裡太久了，我想一個人去", bearing, "的荒野走走。")
    } else {
        cat3("腳癢了！這就動身往", bearing, "遠行一趟。")
    };
    truncate_chars(line.as_str(), SAY_MAX_CHARS)
}

/// The three bubbles on reaching the frontier.
pub open spec fn arrive_template(bearing: Seq<char>, k: int) -> Seq<char> {
    if k == 0 {
        "終於走到"@ + bearing + "的邊陲了，這裡好開闊啊……"@
    } else if k == 1 {
        "原來"@ + bearing + "這麼遠的地方，是這副模樣。"@
    } else {
        "遠離人聲的荒野，安安靜靜的，真好。"@
    }
}

/// The bubble on reaching the frontier, chosen by `pick` and cut to [`SAY_MAX_CHARS`].
pub fn arrive_bubble(bearing: &str, pick: usize) -> (r: String)
    ensures
        r@ == take_upto(arrive_template(bearing@, (pick % 3) as int), SAY_MAX_CHARS as int),
        r@.len() <= SAY_MAX_CHARS,
{
    let k = pick % 3;
    let line = if k == 0 {
        cat3("終於走到", bearing, "的邊陲了，這裡好開闊啊……")
    } else if k == 1 {
        cat3("原來", bearing, "這麼遠的地方，是這副模樣。")
    } else {
        String::from_str("遠離人聲的荒野，安安靜靜的，真好。")
    };
    truncate_chars(line.as_str(), SAY_MAX_CHARS)
}

/// The three bubbles on coming home.
pub open spec fn return_pool() -> Seq<Seq<char>> {
    seq!["遠行回來啦！世界真的比想像的還大。"@, "走了好遠一圈，還是家附近讓人安心～"@, "這趟遠行看了好多，回家真好。"@]
}

/// The bubble on coming home, chosen by `pick` and cut to [`SAY_MAX_CHARS`].
pub fn return_bubble(pick: usize) -> (r: String)
    ensures
        r@ == take_upto(return_pool()[(pick % 3) as int], SAY_MAX_CHARS as int),
        r@.len() <= SAY_MAX_CHARS,
{
    let pool: [&str; 3] = ["遠行回來啦！世界真的比想像的還大。", "走了好遠一圈，還是家附近讓人安心～", "這趟遠行看了好多，回家真好。"];
    proof {
        assert(crate::text::views(pool@) =~= return_pool());
        assert(crate::text::views(pool@)[(pick % 3) as int] == pool@[(pick % 3) as int]@);
    }
    truncate_chars(pool[pick % 3], SAY_MAX_CHARS)
}

/// The memory of reaching the frontier towards `bearing`.
pub fn arrive_memory_summary(bearing: &str) -> (r: String)
    ensures
        r@ == "我獨自遠行到"@ + bearing@ + "的邊陲，看見了主城以外那片開闊的荒野。"@,
{
    cat3("我獨自遠行到", bearing, "的邊陲，看見了主城以外那片開闊的荒野。")
}

/// The feed detail of setting out towards `bearing`.
pub fn embark_feed_line(bearing: &str) -> (r: String)
    ensures
        r@ == "獨自往"@ + bearing@ + "的邊陲遠行了"@,
{
    cat3("獨自往", bearing, "的邊陲遠行了")
}

/// The feed detail of coming home.
pub fn return_feed_line() -> (r: String)
    ensures
        r@ == "遠行歸來，帶回了荒野盡頭的見聞"@,
{
    String::from_str("遠行歸來，帶回了荒野盡頭的見聞")
}

} // verus!
