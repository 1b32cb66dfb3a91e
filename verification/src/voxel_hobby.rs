//! Private hobbies: in idle moments a resident pursues a hobby of her own (pressing flowers
//! or collecting glowing crystals), keeps what she gathers, and now and then surprises a
//! player she likes with part of her collection.

use vstd::prelude::*;
use crate::text::{take_upto, truncate_chars, views, seq_contains, lemma_contains_at};

verus! {

/// A resident's private hobby.
#[derive(Clone, Copy, Debug, PartialEq, Eq, Structural)]
pub enum Hobby {
    /// Pressing wild flowers.
    Flowers,
    /// Collecting glowing crystals.
    Crystals,
}

/// The hobby of the `i`-th resident: flowers for even indexes, crystals for odd ones.
pub fn hobby_for(i: usize) -> (h: Hobby)
    ensures
        h == if i % 2 == 0 { Hobby::Flowers } else { Hobby::Crystals },
{
    if i % 2 == 0 {
        Hobby::Flowers
    } else {
        Hobby::Crystals
    }
}

/// The name of a hobby.
pub open spec fn hobby_label(h: Hobby) -> Seq<char> {
    match h {
        Hobby::Flowers => "押花"@,
        Hobby::Crystals => "收藏發光結晶"@,
    }
}

/// The item a hobby gives: red, yellow or blue flowers in turn (94, 95, 96), or a glowing
/// crystal (106).
pub open spec fn hobby_item(h: Hobby, pick: usize) -> u8 {
    match h {
        Hobby::Flowers => if pick % 3 == 0 { 94 } else if pick % 3 == 1 { 95 } else { 96 },
        Hobby::Crystals => 106,
    }
}

impl Hobby {
    /// The name of the hobby.
    pub fn label(&self) -> (r: &'static str)
        ensures
            r@ == hobby_label(*self),
    {
        match self {
            Hobby::Flowers => "押花",
            Hobby::Crystals => "收藏發光結晶",
        }
    }

    /// The item given as a surprise gift.
    pub fn item_block_id(&self, pick: usize) -> (id: u8)
        ensures
            id == hobby_item(*self, pick),
    {
        match self {
            Hobby::Flowers => {
                let k = pick % 3;
                if k == 0 {
                    94
                } else if k == 1 {
                    95
                } else {
                    96
                }
            },
            Hobby::Crystals => 106,
        }
    }
}

/// How much must be kept before a surprise gift is given.
pub const STASH_THRESHOLD: u32 = 3;

/// How much a surprise gift gives (and takes from what is kept).
pub const GIFT_ITEM_COUNT: u32 = 2;

/// Most a resident keeps.
pub const STASH_CAP: u32 = 6;

/// Fewest memories of a player for a surprise gift.
pub const GIFT_AFFINITY: usize = 3;

/// The feed's name for this kind of event.
pub const FEED_KIND: &'static str = "私人嗜好";

/// Whether an idle resident adds one to what she keeps this tick: she is idle, keeps less
/// than [`STASH_CAP`], and the caller's roll came in under the chance.
pub fn collects(idle: bool, stash: u32, roll_under_chance: bool) -> (b: bool)
    ensures
        b == (idle && stash < STASH_CAP && roll_under_chance),
{
    idle && stash < STASH_CAP && roll_under_chance
}

/// Whether a resident gives a surprise gift in this conversation: she keeps at least
/// [`STASH_THRESHOLD`], remembers the player at least [`GIFT_AFFINITY`] times, and the
/// caller's roll came in under the chance.
pub fn gives_surprise(stash: u32, affinity: usize, roll_under_chance: bool) -> (b: bool)
    ensures
        b == (stash >= STASH_THRESHOLD && affinity >= GIFT_AFFINITY && roll_under_chance),
{
    stash >= STASH_THRESHOLD && affinity >= GIFT_AFFINITY && roll_under_chance
}

/// The idle bubbles of each hobby.
pub open spec fn collect_pool(h: Hobby) -> Seq<Seq<char>> {
    match h {
        Hobby::Flowers => seq![
            "蹲下身，仔細挑揀著路邊的野花～"@,
            "把撿來的花瓣夾進手邊的小本子裡。"@,
            "又找到一朵喜歡的顏色，開心地收了起來。"@,
        ],
        Hobby::Crystals => seq![
            "撿起一顆微微發亮的結晶，對著光看了又看。"@,
            "把新撿的發光結晶收進口袋，滿足地笑了。"@,
            "蹲在地上，仔細端詳手裡那顆閃著微光的結晶。"@,
        ],
    }
}

/// The bubble of a resident at her hobby: line `pick % 3` of the hobby.
pub fn collect_say_line(hobby: Hobby, pick: usize) -> (r: String)
    ensures
        r@ == collect_pool(hobby)[(pick % 3) as int],
{
    let lines: [&str; 3] = match hobby {
        Hobby::Flowers => [
            "蹲下身，仔細挑揀著路邊的野花～",
            "把撿來的花瓣夾進手邊的小本子裡。",
            "又找到一朵喜歡的顏色，開心地收了起來。",
        ],
        Hobby::Crystals => [
            "撿起一顆微微發亮的結晶，對著光看了又看。",
            "把新撿的發光結晶收進口袋，滿足地笑了。",
            "蹲在地上，仔細端詳手裡那顆閃著微光的結晶。",
        ],
    };
    proof {
        assert(views(lines@) =~= collect_pool(hobby));
        assert(views(lines@)[(pick % 3) as int] == lines@[(pick % 3) as int]@);
    }
    String::from_str(lines[pick % 3])
}

/// The two surprise-gift lines of each hobby, for the name `n`.
pub open spec fn surprise_text(h: Hobby, n: Seq<char>, k: int) -> Seq<char> {
    match h {
        Hobby::Flowers => if k == 0 {
            "對了"@ + n + "，這是我一直在攢的押花，送你一些！"@
        } else {
            n + "，這幾朵是我挑最喜歡的顏色留的，給你！"@
        },
        Hobby::Crystals => if k == 0 {
            n + "，這是我私藏的發光結晶，分你一點～"@
        } else {
            "對了"@ + n + "，這顆我一直很喜歡，也想讓你看看！"@
        },
    }
}

/// The resident's words on giving her surprise: line `pick % 2` of the hobby, naming the
/// player by the first six characters of the name ("你" for none), cut to 40 characters.
pub fn surprise_gift_say_line(hobby: Hobby, player_name: &str, pick: usize) -> (r: String)
    ensures
        r@ == take_upto(
            surprise_text(hobby, if player_name@.len() == 0 { "你"@ } else { take_upto(player_name@, 6) }, (pick % 2) as int),
            40,
        ),
{
    let name = if player_name.unicode_len() == 0 {
        String::from_str("你")
    } else {
        truncate_chars(player_name, 6)
    };
    let k = pick % 2;
    let line = match hobby {
        Hobby::Flowers => if k == 0 {
            crate::text::cat3("對了", name.as_str(), "，這是我一直在攢的押花，送你一些！")
        } else {
            crate::text::cat(name.as_str(), "，這幾朵是我挑最喜歡的顏色留的，給你！")
        },
        Hobby::Crystals => if k == 0 {
            crate::text::cat(name.as_str(), "，這是我私藏的發光結晶，分你一點～")
        } else {
            crate::text::cat3("對了", name.as_str(), "，這顆我一直很喜歡，也想讓你看看！")
        },
    };
    truncate_chars(line.as_str(), 40)
}

/// The resident's memory of sharing her collection.
pub fn surprise_gift_memory_line(hobby: Hobby) -> (r: String)
    ensures
        r@ == match hobby {
            Hobby::Flowers => "今天，我把私藏的押花分給了對方，看到對方開心，我也很高興。"@,
            Hobby::Crystals => "今天，我把私藏的發光結晶分給了對方，這是我私底下珍視的東西。"@,
        },
{
    match hobby {
        Hobby::Flowers => String::from_str("今天，我把私藏的押花分給了對方，看到對方開心，我也很高興。"),
        Hobby::Crystals => String::from_str("今天，我把私藏的發光結晶分給了對方，這是我私底下珍視的東西。"),
    }
}

/// The feed line of a surprise gift: both names cut to 12 characters ("一位旅人" for no player).
pub fn surprise_gift_feed_line(resident_name: &str, hobby: Hobby, player_name: &str) -> (r: String)
    ensures
        r@ == take_upto(resident_name@, 12) + "把自己私藏的"@ + hobby_label(hobby) + "分給了"@ + (if player_name@.len() == 0 {
            "一位旅人"@
        } else {
            take_upto(player_name@, 12)
        }) + "。"@,
{
    let rname = truncate_chars(resident_name, 12);
    let pname = if player_name.unicode_len() == 0 {
        String::from_str("一位旅人")
    } else {
        truncate_chars(player_name, 12)
    };
    let mut s = crate::text::cat(rname.as_str(), "把自己私藏的");
    s.append(hobby.label());
    s.append("分給了");
    s.append(pname.as_str());
    s.append("。");
    s
}


/// The name a surprise-gift line uses: the first six characters, or 你 for no name.
pub open spec fn surprise_name(player: Seq<char>) -> Seq<char> {
    if player.len() == 0 { "你"@ } else { take_upto(player, 6) }
}

/// Law: the resident's words on giving her surprise name the player (by the name the line
/// uses), whichever hobby and line.
pub proof fn lemma_surprise_names_player(hobby: Hobby, player: Seq<char>, k: int)
    ensures
        seq_contains(take_upto(surprise_text(hobby, surprise_name(player), k), 40), surprise_name(player)),
{
    reveal_strlit("你");
    reveal_strlit("對了");
    let n = surprise_name(player);
    assert(n.len() <= 6);
    match hobby {
        Hobby::Flowers => {
            if k == 0 {
                lemma_contains_at("對了"@, n, "，這是我一直在攢的押花，送你一些！"@, 40);
            } else {
                lemma_contains_at(Seq::<char>::empty(), n, "，這幾朵是我挑最喜歡的顏色留的，給你！"@, 40);
                assert(Seq::<char>::empty() + n + "，這幾朵是我挑最喜歡的顏色留的，給你！"@ =~= n + "，這幾朵是我挑最喜歡的顏色留的，給你！"@);
            }
        },
        Hobby::Crystals => {
            if k == 0 {
                lemma_contains_at(Seq::<char>::empty(), n, "，這是我私藏的發光結晶，分你一點～"@, 40);
                assert(Seq::<char>::empty() + n + "，這是我私藏的發光結晶，分你一點～"@ =~= n + "，這是我私藏的發光結晶，分你一點～"@);
            } else {
                lemma_contains_at("對了"@, n, "，這顆我一直很喜歡，也想讓你看看！"@, 40);
            }
        },
    }
}

} // verus!
