//! Friendship tokens: when two residents first become old friends, the host lights a
//! small lamp beside her home as a token of it.

use vstd::prelude::*;
use crate::text::{take_upto, trim_seq, trim_str, truncate_chars};
use crate::voxel::Block;

verus! {

/// Longest bubble, memory or feed line, in characters.
pub const TOKEN_SAY_MAX_CHARS: usize = 40;

/// The feed's name for this kind of event.
pub const FEED_KIND: &'static str = "友誼信物";

/// The two lamps a token may be.
pub open spec fn token_blocks() -> Seq<Block> {
    seq![Block::Torch, Block::IceLantern]
}

/// The token lamp for the `pick`-th friendship: the two lamps in turn.
pub fn token_block(pick: usize) -> (b: Block)
    ensures
        b == token_blocks()[(pick % 2) as int],
{
    let blocks: [Block; 2] = [Block::Torch, Block::IceLantern];
    assert(blocks@ =~= token_blocks());
    blocks[pick % 2]
}

/// `name`, or `fallback` when `name` is blank.
pub open spec fn or_when_blank(name: Seq<char>, fallback: Seq<char>) -> Seq<char> {
    if trim_seq(name).len() == 0 { fallback } else { name }
}

fn or_when_blank_exec(name: &str, fallback: &str) -> (r: String)
    ensures
        r@ == or_when_blank(name@, fallback@),
{
    if trim_str(name).unicode_len() == 0 {
        String::from_str(fallback)
    } else {
        String::from_str(name)
    }
}

/// The three bubbles of the host lighting the lamp, for the friend `f`.
pub open spec fn token_say_text(f: Seq<char>, k: int) -> Seq<char> {
    if k == 0 {
        "我和"@ + f + "成了老朋友，就在這兒點盞燈，紀念我們的情誼吧。"@
    } else if k == 1 {
        "和"@ + f + "處成了老朋友，這盞小燈，就當作我們友誼的信物。"@
    } else {
        "我想為和"@ + f + "的這段友誼留點什麼——就點一盞燈在這兒吧。"@
    }
}

/// The host's bubble on lighting the lamp: line `pick % 3` naming the friend ("老朋友" for
/// a blank name), cut to [`TOKEN_SAY_MAX_CHARS`] characters.
pub fn token_say_line(friend: &str, pick: usize) -> (r: String)
    ensures
        r@ == take_upto(token_say_text(or_when_blank(friend@, "老朋友"@), (pick % 3) as int), TOKEN_SAY_MAX_CHARS as int),
        r@.len() <= TOKEN_SAY_MAX_CHARS,
{
    let f = or_when_blank_exec(friend, "老朋友");
    let k = pick % 3;
    let s = if k == 0 {
        crate::text::cat3("我和", f.as_str(), "成了老朋友，就在這兒點盞燈，紀念我們的情誼吧。")
    } else if k == 1 {
        crate::text::cat3("和", f.as_str(), "處成了老朋友，這盞小燈，就當作我們友誼的信物。")
    } else {
        crate::text::cat3("我想為和", f.as_str(), "的這段友誼留點什麼——就點一盞燈在這兒吧。")
    };
    truncate_chars(s.as_str(), TOKEN_SAY_MAX_CHARS)
}

/// The feed line of the token, naming host and friend (with fallbacks for blank names),
/// cut to [`TOKEN_SAY_MAX_CHARS`] characters.
pub fn token_feed_line(host: &str, friend: &str) -> (r: String)
    ensures
        r@ == take_upto(
            or_when_blank(host@, "一位居民"@) + "為和"@ + or_when_blank(friend@, "另一位居民"@)
                + "的友誼，在家旁點起了一盞友誼的燈。"@,
            TOKEN_SAY_MAX_CHARS as int,
        ),
        r@.len() <= TOKEN_SAY_MAX_CHARS,
{
    let h = or_when_blank_exec(host, "一位居民");
    let f = or_when_blank_exec(friend, "另一位居民");
    let mut s = h;
    s.append("為和");
    s.append(f.as_str());
    s.append("的友誼，在家旁點起了一盞友誼的燈。");
    truncate_chars(s.as_str(), TOKEN_SAY_MAX_CHARS)
}

/// The host's memory of the token, naming the friend ("一位老朋友" for a blank name), cut to
/// [`TOKEN_SAY_MAX_CHARS`] characters.
pub fn token_memory_line(friend: &str) -> (r: String)
    ensures
        r@ == take_upto(
            "我和"@ + or_when_blank(friend@, "一位老朋友"@) + "成了老朋友，在家旁點起一盞燈，紀念我們這段情誼。"@,
            TOKEN_SAY_MAX_CHARS as int,
        ),
        r@.len() <= TOKEN_SAY_MAX_CHARS,
{
    let f = or_when_blank_exec(friend, "一位老朋友");
    let s = crate::text::cat3("我和", f.as_str(), "成了老朋友，在家旁點起一盞燈，紀念我們這段情誼。");
    truncate_chars(s.as_str(), TOKEN_SAY_MAX_CHARS)
}

} // verus!
