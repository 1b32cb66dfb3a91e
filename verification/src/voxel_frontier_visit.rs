//! A town-bound resident who misses a friend staying out at the frontier sets out to find
//! her there. Distances, timers and the roll are kept by the caller; this module holds the
//! rule that starts the journey and every line of it.

use vstd::prelude::*;
use crate::text::{take_upto, truncate_chars};

verus! {

/// Longest bubble, in characters.
pub const SAY_MAX_CHARS: usize = 40;

/// The first [`SAY_MAX_CHARS`] characters of `s`.
pub fn cap(s: String) -> (r: String)
    ensures
        r@ == take_upto(s@, SAY_MAX_CHARS as int),
        r@.len() <= SAY_MAX_CHARS,
{
    truncate_chars(s.as_str(), SAY_MAX_CHARS)
}

/// Whether a resident sets out to find her friend: she stays in town by nature, they are
/// old friends, the friend is staying at the frontier, she is free and silent, the cooldown
/// is over (told by the caller) and the caller's roll came in under the chance.
pub fn seeks_friend(
    town_bound: bool,
    is_friend: bool,
    friend_at_outpost: bool,
    idle_free: bool,
    cooldown_over: bool,
    say_empty: bool,
    roll_under_chance: bool,
) -> (b: bool)
    ensures
        b == (town_bound && is_friend && friend_at_outpost && idle_free && cooldown_over && say_empty
            && roll_under_chance),
{
    town_bound && is_friend && friend_at_outpost && idle_free && cooldown_over && say_empty
        && roll_under_chance
}

/// The three texts of [`depart_bubble`] before any cut.
pub open spec fn depart_bubble_text(friend: Seq<char>, bearing: Seq<char>, k: int) -> Seq<char> {
    if k == 0 {
        "聽說"@ + friend + "跑去"@ + bearing + "的邊陲了，我想去看看她過得好不好～"@
    } else if k == 1 {
        "好久沒見到"@ + friend + "了，這就動身去"@ + bearing + "的邊陲找她。"@
    } else {
        friend + "一個人待在那麼遠的地方，我去"@ + bearing + "探望一下。"@
    }
}

/// The bubble of a resident setting out to find her friend at the frontier: line `pick % 3`, cut to [`SAY_MAX_CHARS`] characters.
pub fn depart_bubble(friend: &str, bearing: &str, pick: usize) -> (r: String)
    ensures
        r@ == take_upto(depart_bubble_text(friend@, bearing@, (pick % 3) as int), SAY_MAX_CHARS as int),
        r@.len() <= SAY_MAX_CHARS,
{
    let k = pick % 3;
    let s = if k == 0 {
        let mut s = String::from_str("聽說");
        s.append(friend);
        s.append("跑去");
        s.append(bearing);
        s.append("的邊陲了，我想去看看她過得好不好～");
        s
    } else if k == 1 {
        let mut s = String::from_str("好久沒見到");
        s.append(friend);
        s.append("了，這就動身去");
        s.append(bearing);
        s.append("的邊陲找她。");
        s
    } else {
        let mut s = String::from_str(friend);
        s.append("一個人待在那麼遠的地方，我去");
        s.append(bearing);
        s.append("探望一下。");
        s
    };
    truncate_chars(s.as_str(), SAY_MAX_CHARS)
}

/// The feed detail of setting out.
pub fn depart_feed_line(friend: &str, bearing: &str) -> (r: String)
    ensures
        r@ == "特地動身，跋涉去"@ + bearing@ + "的邊陲找"@ + friend@,
{
    let mut s = String::from_str("特地動身，跋涉去");
    s.append(bearing);
    s.append("的邊陲找");
    s.append(friend);
    s
}

/// The three texts of [`arrive_bubble`] before any cut.
pub open spec fn arrive_bubble_text(friend: Seq<char>, k: int) -> Seq<char> {
    if k == 0 {
        friend + "！真的找到你了，這麼遠還特地跑一趟，值得！"@
    } else if k == 1 {
        "終於找到你了～一個人待在這麼遠的地方，會不會孤單？"@
    } else {
        "走了好遠一段路，就為了來看看"@ + friend + "過得好不好。"@
    }
}

/// The visitor's bubble on finding her friend: line `pick % 3`, cut to [`SAY_MAX_CHARS`] characters.
pub fn arrive_bubble(friend: &str, pick: usize) -> (r: String)
    ensures
        r@ == take_upto(arrive_bubble_text(friend@, (pick % 3) as int), SAY_MAX_CHARS as int),
        r@.len() <= SAY_MAX_CHARS,
{
    let k = pick % 3;
    let s = if k == 0 {
        let mut s = String::from_str(friend);
        s.append("！真的找到你了，這麼遠還特地跑一趟，值得！");
        s
    } else if k == 1 {
        let mut s = String::from_str("終於找到你了～一個人待在這麼遠的地方，會不會孤單？");
        s
    } else {
        let mut s = String::from_str("走了好遠一段路，就為了來看看");
        s.append(friend);
        s.append("過得好不好。");
        s
    };
    truncate_chars(s.as_str(), SAY_MAX_CHARS)
}

/// The three texts of [`host_reply_bubble`] before any cut.
pub open spec fn host_reply_bubble_text(visitor: Seq<char>, k: int) -> Seq<char> {
    if k == 0 {
        "你怎麼找到這裡來的？"@ + visitor + "，太讓人驚喜了！"@
    } else if k == 1 {
        "沒想到"@ + visitor + "會跋涉到這麼遠的地方來找我……好感動。"@
    } else {
        "咦？有人來了！原來你一路找到這裡，太開心了。"@
    }
}

/// The surprised reply of the friend who was found: line `pick % 3`, cut to [`SAY_MAX_CHARS`] characters.
pub fn host_reply_bubble(visitor: &str, pick: usize) -> (r: String)
    ensures
        r@ == take_upto(host_reply_bubble_text(visitor@, (pick % 3) as int), SAY_MAX_CHARS as int),
        r@.len() <= SAY_MAX_CHARS,
{
    let k = pick % 3;
    let s = if k == 0 {
        let mut s = String::from_str("你怎麼找到這裡來的？");
        s.append(visitor);
        s.append("，太讓人驚喜了！");
        s
    } else if k == 1 {
        let mut s = String::from_str("沒想到");
        s.append(visitor);
        s.append("會跋涉到這麼遠的地方來找我……好感動。");
        s
    } else {
        let mut s = String::from_str("咦？有人來了！原來你一路找到這裡，太開心了。");
        s
    };
    truncate_chars(s.as_str(), SAY_MAX_CHARS)
}

/// The feed detail of the two meeting at the frontier.
pub fn arrive_feed_line(visitor: &str, host: &str, bearing: &str) -> (r: String)
    ensures
        r@ == visitor@ + "跋涉到"@ + bearing@ + "的邊陲，找到了正在那兒的"@ + host@ + "，兩人重聚了一會兒"@,
{
    let mut s = String::from_str(visitor);
    s.append("跋涉到");
    s.append(bearing);
    s.append("的邊陲，找到了正在那兒的");
    s.append(host);
    s.append("，兩人重聚了一會兒");
    s
}

/// The visitor's memory of the journey.
pub fn visitor_memory_line(host: &str, bearing: &str) -> (r: String)
    ensures
        r@ == "我跋涉到"@ + bearing@ + "的邊陲，就為了去看看"@ + host@ + "——找到她的那一刻，值得了。"@,
{
    let mut s = String::from_str("我跋涉到");
    s.append(bearing);
    s.append("的邊陲，就為了去看看");
    s.append(host);
    s.append("——找到她的那一刻，值得了。");
    s
}

/// The found friend's memory of the visit.
pub fn host_memory_line(visitor: &str) -> (r: String)
    ensures
        r@ == visitor@ + "特地跋涉到這麼遠的邊陲來找我，這份心意我記下了。"@,
{
    let mut s = String::from_str(visitor);
    s.append("特地跋涉到這麼遠的邊陲來找我，這份心意我記下了。");
    s
}

/// The feed detail of the visitor leaving for home.
pub fn depart_home_feed_line(host: &str) -> (r: String)
    ensures
        r@ == "在邊陲與"@ + host@ + "道別，啟程回家了"@,
{
    let mut s = String::from_str("在邊陲與");
    s.append(host);
    s.append("道別，啟程回家了");
    s
}

/// The feed detail of a journey given up.
pub fn giveup_feed_line(friend: &str) -> (r: String)
    ensures
        r@ == "這趟去找"@ + friend@ + "撲了個空，只好先回家了"@,
{
    let mut s = String::from_str("這趟去找");
    s.append(friend);
    s.append("撲了個空，只好先回家了");
    s
}

} // verus!
