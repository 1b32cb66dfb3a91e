//! Longing turned into a journey: once a resident has missed a friend in another village
//! often enough, she sets out to visit her, and the reunion, the empty house or the road
//! given up are told in bubbles, memories and the feed. Distances and timers are kept by
//! the caller; this module holds the rule that starts the journey and every line of it.

use vstd::prelude::*;
use crate::text::{take_upto, truncate_chars};

verus! {

/// How many times a resident must have missed her friend before she sets out.
pub const EMBARK_AFTER_MISSES: u32 = 3;

/// Longest bubble, in characters.
pub const SAY_MAX_CHARS: usize = 50;

/// The feed's name for this kind of event.
pub const FEED_KIND: &'static str = "跨村探親";

/// The first [`SAY_MAX_CHARS`] characters of `s`.
pub fn cap(s: String) -> (r: String)
    ensures
        r@ == take_upto(s@, SAY_MAX_CHARS as int),
        r@.len() <= SAY_MAX_CHARS,
{
    truncate_chars(s.as_str(), SAY_MAX_CHARS)
}

/// Whether this moment of longing becomes a journey: the misses have reached
/// [`EMBARK_AFTER_MISSES`], the journey cooldown is over (told by the caller), the resident
/// is free and awake.
pub fn should_embark_now(miss_count: u32, cooldown_over: bool, idle_free: bool, asleep: bool) -> (b: bool)
    ensures
        b == (miss_count >= EMBARK_AFTER_MISSES && cooldown_over && idle_free && !asleep),
{
    miss_count >= EMBARK_AFTER_MISSES && cooldown_over && idle_free && !asleep
}

/// The three texts of [`depart_bubble`] before any cut.
pub open spec fn depart_bubble_text(friend: Seq<char>, place: Seq<char>, k: int) -> Seq<char> {
    if k == 0 {
        "想"@ + friend + "想了這麼多回……這次我要親自走一趟「"@ + place + "」！"@
    } else if k == 1 {
        "光是念叨不夠了，我這就動身去「"@ + place + "」看"@ + friend + "。"@
    } else {
        "收拾好心情，去「"@ + place + "」！"@ + friend + "，等我啊。"@
    }
}

/// The bubble of a resident setting out: line `pick % 3`, naming the friend and her village, cut to [`SAY_MAX_CHARS`] characters.
pub fn depart_bubble(friend: &str, place: &str, pick: usize) -> (r: String)
    ensures
        r@ == take_upto(depart_bubble_text(friend@, place@, (pick % 3) as int), SAY_MAX_CHARS as int),
        r@.len() <= SAY_MAX_CHARS,
{
    let k = pick % 3;
    let s = if k == 0 {
        let mut s = String::from_str("想");
        s.append(friend);
        s.append("想了這麼多回……這次我要親自走一趟「");
        s.append(place);
        s.append("」！");
        s
    } else if k == 1 {
        let mut s = String::from_str("光是念叨不夠了，我這就動身去「");
        s.append(place);
        s.append("」看");
        s.append(friend);
        s.append("。");
        s
    } else {
        let mut s = String::from_str("收拾好心情，去「");
        s.append(place);
        s.append("」！");
        s.append(friend);
        s.append("，等我啊。");
        s
    };
    truncate_chars(s.as_str(), SAY_MAX_CHARS)
}

/// The feed detail of a resident setting out for another village.
pub fn depart_feed_line(friend: &str, place: &str) -> (r: String)
    ensures
        r@ == "念叨了一回又一回，終於動身踏上前往「"@ + place@ + "」的遠路，要去看看老朋友"@ + friend@,
{
    let mut s = String::from_str("念叨了一回又一回，終於動身踏上前往「");
    s.append(place);
    s.append("」的遠路，要去看看老朋友");
    s.append(friend);
    s
}

/// The three texts of [`arrive_bubble`] before any cut.
pub open spec fn arrive_bubble_text(friend: Seq<char>, k: int) -> Seq<char> {
    if k == 0 {
        friend + "！我真的走來了——這一路好遠，見到你就值得！"@
    } else if k == 1 {
        "好久不見！"@ + friend + "，你在這村裡過得好不好？"@
    } else {
        "想了你那麼多回，終於又見到"@ + friend + "了……"@
    }
}

/// The visitor's bubble on meeting her friend again: line `pick % 3`, cut to [`SAY_MAX_CHARS`] characters.
pub fn arrive_bubble(friend: &str, pick: usize) -> (r: String)
    ensures
        r@ == take_upto(arrive_bubble_text(friend@, (pick % 3) as int), SAY_MAX_CHARS as int),
        r@.len() <= SAY_MAX_CHARS,
{
    let k = pick % 3;
    let s = if k == 0 {
        let mut s = String::from_str(friend);
        s.append("！我真的走來了——這一路好遠，見到你就值得！");
        s
    } else if k == 1 {
        let mut s = String::from_str("好久不見！");
        s.append(friend);
        s.append("，你在這村裡過得好不好？");
        s
    } else {
        let mut s = String::from_str("想了你那麼多回，終於又見到");
        s.append(friend);
        s.append("了……");
        s
    };
    truncate_chars(s.as_str(), SAY_MAX_CHARS)
}

/// The three texts of [`host_reply_bubble`] before any cut.
pub open spec fn host_reply_bubble_text(visitor: Seq<char>, k: int) -> Seq<char> {
    if k == 0 {
        visitor + "？！你竟然走了這麼遠的路來看我……"@
    } else if k == 1 {
        "是"@ + visitor + "！隔著兩座村還特地跑一趟，太讓人感動了。"@
    } else {
        visitor + "來了！快，讓我好好看看你——一路辛苦了。"@
    }
}

/// The surprised reply of the friend being visited: line `pick % 3`, cut to [`SAY_MAX_CHARS`] characters.
pub fn host_reply_bubble(visitor: &str, pick: usize) -> (r: String)
    ensures
        r@ == take_upto(host_reply_bubble_text(visitor@, (pick % 3) as int), SAY_MAX_CHARS as int),
        r@.len() <= SAY_MAX_CHARS,
{
    let k = pick % 3;
    let s = if k == 0 {
        let mut s = String::from_str(visitor);
        s.append("？！你竟然走了這麼遠的路來看我……");
        s
    } else if k == 1 {
        let mut s = String::from_str("是");
        s.append(visitor);
        s.append("！隔著兩座村還特地跑一趟，太讓人感動了。");
        s
    } else {
        let mut s = String::from_str(visitor);
        s.append("來了！快，讓我好好看看你——一路辛苦了。");
        s
    };
    truncate_chars(s.as_str(), SAY_MAX_CHARS)
}

/// The feed detail of the reunion.
pub fn reunion_feed_line(visitor: &str, host: &str, place: &str) -> (r: String)
    ensures
        r@ == visitor@ + "走完幾百格的遠路抵達「"@ + place@ + "」，與久別的老朋友"@ + host@ + "在村口重逢了"@,
{
    let mut s = String::from_str(visitor);
    s.append("走完幾百格的遠路抵達「");
    s.append(place);
    s.append("」，與久別的老朋友");
    s.append(host);
    s.append("在村口重逢了");
    s
}

/// The visitor's memory of the journey.
pub fn visitor_memory_line(host: &str, place: &str) -> (r: String)
    ensures
        r@ == "想"@ + host@ + "想到坐不住，我真的走了一趟「"@ + place@ + "」——重逢那一刻，這一路的遠都值得了。"@,
{
    let mut s = String::from_str("想");
    s.append(host);
    s.append("想到坐不住，我真的走了一趟「");
    s.append(place);
    s.append("」——重逢那一刻，這一路的遠都值得了。");
    s
}

/// The host's memory of being visited.
pub fn host_memory_line(visitor: &str, place: &str) -> (r: String)
    ensures
        r@ == visitor@ + "因為想念，從另一座村一路走到「"@ + place@ + "」來看我——這份情誼我一輩子記得。"@,
{
    let mut s = String::from_str(visitor);
    s.append("因為想念，從另一座村一路走到「");
    s.append(place);
    s.append("」來看我——這份情誼我一輩子記得。");
    s
}

/// The feed detail of the visitor leaving for home.
pub fn depart_home_feed_line(host: &str, place: &str) -> (r: String)
    ensures
        r@ == "在「"@ + place@ + "」與"@ + host@ + "道別，帶著滿滿的暖意踏上歸途"@,
{
    let mut s = String::from_str("在「");
    s.append(place);
    s.append("」與");
    s.append(host);
    s.append("道別，帶著滿滿的暖意踏上歸途");
    s
}

/// The three texts of [`not_home_bubble`] before any cut.
pub open spec fn not_home_bubble_text(friend: Seq<char>, k: int) -> Seq<char> {
    if k == 0 {
        "咦……"@ + friend + "不在村裡？偏偏挑了她出門的日子來。"@
    } else if k == 1 {
        "走了這麼遠，"@ + friend + "卻不在家……緣分真會捉弄人。"@
    } else {
        friend + "不在啊……那我在村口坐一會兒就回吧。"@
    }
}

/// The bubble of a visitor who finds her friend away: line `pick % 3`, cut to [`SAY_MAX_CHARS`] characters.
pub fn not_home_bubble(friend: &str, pick: usize) -> (r: String)
    ensures
        r@ == take_upto(not_home_bubble_text(friend@, (pick % 3) as int), SAY_MAX_CHARS as int),
        r@.len() <= SAY_MAX_CHARS,
{
    let k = pick % 3;
    let s = if k == 0 {
        let mut s = String::from_str("咦……");
        s.append(friend);
        s.append("不在村裡？偏偏挑了她出門的日子來。");
        s
    } else if k == 1 {
        let mut s = String::from_str("走了這麼遠，");
        s.append(friend);
        s.append("卻不在家……緣分真會捉弄人。");
        s
    } else {
        let mut s = String::from_str(friend);
        s.append("不在啊……那我在村口坐一會兒就回吧。");
        s
    };
    truncate_chars(s.as_str(), SAY_MAX_CHARS)
}

/// The feed detail of a visit that found the friend away.
pub fn not_home_feed_line(friend: &str, place: &str) -> (r: String)
    ensures
        r@ == "遠路走到「"@ + place@ + "」卻撲了個空——"@ + friend@ + "恰好不在村裡，只好悵然折返"@,
{
    let mut s = String::from_str("遠路走到「");
    s.append(place);
    s.append("」卻撲了個空——");
    s.append(friend);
    s.append("恰好不在村裡，只好悵然折返");
    s
}

/// The feed detail of a journey given up on the way.
pub fn giveup_feed_line(friend: &str, place: &str) -> (r: String)
    ensures
        r@ == "往「"@ + place@ + "」的路太遠太難走，這趟沒能見到"@ + friend@ + "，半途折返了"@,
{
    let mut s = String::from_str("往「");
    s.append(place);
    s.append("」的路太遠太難走，這趟沒能見到");
    s.append(friend);
    s.append("，半途折返了");
    s
}

} // verus!
