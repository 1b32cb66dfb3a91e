//! A player who travels out to the frontier and finds a resident on her expedition there:
//! she is delighted that someone came so far for her.

use vstd::prelude::*;
use crate::text::{replace_all, replace_str, take_upto, truncate_chars, views};

verus! {

/// The feed's name for this kind of event.
pub const FEED_KIND: &'static str = "邊陲巧遇";

/// Whether the meeting happens this tick: the resident is staying at the frontier, the
/// player is near, the cooldown is over and the caller's roll came in under the chance.
pub fn finds(settled: bool, player_near: bool, cooldown_over: bool, roll_under_chance: bool) -> (b: bool)
    ensures
        b == (settled && player_near && cooldown_over && roll_under_chance),
{
    settled && player_near && cooldown_over && roll_under_chance
}

/// A player name cut to eight characters.
pub fn clip_name(name: &str) -> (r: String)
    ensures
        r@ == take_upto(name@, 8),
{
    truncate_chars(name, 8)
}

/// The four surprised greetings, with {name} for the player and {bearing} for the direction.
pub open spec fn found_frames() -> Seq<Seq<char>> {
    seq![
        "咦？！{name}你怎麼找到{bearing}這麼遠的地方來了！"@,
        "哇，{name}真的追過來了？這裡可是{bearing}的邊陲呢！"@,
        "沒想到{name}會一路跑到{bearing}找我，太驚喜了！"@,
        "{name}，你也太厲害了，連我躲到{bearing}都被你找到。"@,
    ]
}

/// The resident's greeting: frame `pick % 4` with the clipped player name and then the
/// direction filled in.
pub fn found_bubble(player: &str, bearing: &str, pick: usize) -> (r: String)
    ensures
        r@ == replace_all(
            replace_all(found_frames()[(pick % 4) as int], "{name}"@, take_upto(player@, 8)),
            "{bearing}"@,
            bearing@,
        ),
{
    let frames: [&str; 4] = [
        "咦？！{name}你怎麼找到{bearing}這麼遠的地方來了！",
        "哇，{name}真的追過來了？這裡可是{bearing}的邊陲呢！",
        "沒想到{name}會一路跑到{bearing}找我，太驚喜了！",
        "{name}，你也太厲害了，連我躲到{bearing}都被你找到。",
    ];
    proof {
        assert(views(frames@) =~= found_frames());
        assert(views(frames@)[(pick % 4) as int] == frames@[(pick % 4) as int]@);
        reveal_strlit("{name}");
        reveal_strlit("{bearing}");
    }
    let name = clip_name(player);
    let a = replace_str(frames[pick % 4], "{name}", name.as_str());
    replace_str(a.as_str(), "{bearing}", bearing)
}

/// The resident's memory of being found, with every line break turned into a space.
pub fn found_memory_line(player: &str, bearing: &str) -> (r: String)
    ensures
        r@ == replace_all(
            take_upto(player@, 8) + "一路追到"@ + bearing@ + "的邊陲找到正在遠行的我，那份特地跑一趟的心意，我記下了。"@,
            "\n"@,
            " "@,
        ),
{
    let mut s = clip_name(player);
    s.append("一路追到");
    s.append(bearing);
    s.append("的邊陲找到正在遠行的我，那份特地跑一趟的心意，我記下了。");
    proof {
        reveal_strlit("\n");
    }
    replace_str(s.as_str(), "\n", " ")
}

/// The feed line of the meeting.
pub fn found_feed_line(resident: &str, player: &str, bearing: &str) -> (r: String)
    ensures
        r@ == player@ + "在"@ + bearing@ + "的邊陲，巧遇了正在遠行的"@ + resident@ + "——牠很驚喜你追了這麼遠來找牠。"@,
{
    let mut s = String::from_str(player);
    s.append("在");
    s.append(bearing);
    s.append("的邊陲，巧遇了正在遠行的");
    s.append(resident);
    s.append("——牠很驚喜你追了這麼遠來找牠。");
    s
}

} // verus!
