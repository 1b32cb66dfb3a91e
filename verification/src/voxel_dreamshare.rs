//! Sharing a dream: the morning after, a resident may tell a nearby player about the
//! dream she had, which also becomes a memory and a feed line.

use vstd::prelude::*;
use crate::text::{take_upto, trim_seq, trim_str, trim_take, cat, cat3, cat5, truncate_chars, seq_contains, lemma_contains_at};

verus! {

/// Longest dream-sharing bubble, in characters.
pub const DREAMSHARE_MAX_CHARS: usize = 40;
/// Longest dream core embedded in a shared line, in characters.
pub const DREAMSHARE_CORE_CHARS: usize = 16;

/// The core of a dream: trimmed, then cut to [`DREAMSHARE_CORE_CHARS`] characters.
pub open spec fn share_core(dream_core: Seq<char>) -> Seq<char> {
    take_upto(trim_seq(dream_core), DREAMSHARE_CORE_CHARS as int)
}

/// The core of a dream, trimmed and cut to [`DREAMSHARE_CORE_CHARS`] characters.
pub fn trim_core(dream_core: &str) -> (r: String)
    ensures
        r@ == share_core(dream_core@),
{
    trim_take(dream_core, DREAMSHARE_CORE_CHARS)
}

/// The untruncated sharing line: a generic line when the core is empty, a line without a
/// name when the (trimmed) player name is empty, else one that addresses the player.
pub open spec fn share_template(core: Seq<char>, p: Seq<char>, k: int) -> Seq<char> {
    if core.len() == 0 {
        if k == 0 {
            "我昨晚做了個好夢呢，醒來心裡都是暖的。"@
        } else if k == 1 {
            "昨晚睡得真好，還做了個溫柔的夢。"@
        } else {
            "昨晚的夢真教人捨不得醒來呀。"@
        }
    } else if p.len() == 0 {
        if k == 0 {
            "我昨晚做了個夢，夢見……"@ + core + "呢。"@
        } else if k == 1 {
            "昨晚睡著後，"@ + core + "的畫面又回到夢裡了。"@
        } else {
            "跟你說，我昨晚夢見了……"@ + core + "。"@
        }
    } else {
        if k == 0 {
            p + "，我昨晚做了個夢，夢見……"@ + core + "呢。"@
        } else if k == 1 {
            p + "，昨晚睡著後，"@ + core + "又回到我夢裡了。"@
        } else {
            "跟你說呀"@ + p + "，我昨晚夢見了……"@ + core + "。"@
        }
    }
}

/// The bubble in which a resident tells `player` about last night's dream: template
/// `pick % 3`, cut to [`DREAMSHARE_MAX_CHARS`] characters.
pub fn dreamshare_line(dream_core: &str, player: &str, pick: usize) -> (r: String)
    ensures
        r@ == take_upto(
            share_template(share_core(dream_core@), trim_seq(player@), (pick % 3) as int),
            DREAMSHARE_MAX_CHARS as int,
        ),
        r@.len() <= DREAMSHARE_MAX_CHARS,
{
    let core = trim_core(dream_core);
    let p = trim_str(player);
    let k = pick % 3;
    let line = if core.as_str().unicode_len() == 0 {
        if k == 0 {
            String::from_str("我昨晚做了個好夢呢，醒來心裡都是暖的。")
        } else if k == 1 {
            String::from_str("昨晚睡得真好，還做了個溫柔的夢。")
        } else {
            String::from_str("昨晚的夢真教人捨不得醒來呀。")
        }
    } else if p.unicode_len() == 0 {
        if k == 0 {
            cat3("我昨晚做了個夢，夢見……", core.as_str(), "呢。")
        } else if k == 1 {
            cat3("昨晚睡著後，", core.as_str(), "的畫面又回到夢裡了。")
        } else {
            cat3("跟你說，我昨晚夢見了……", core.as_str(), "。")
        }
    } else {
        if k == 0 {
            let mut s = cat3(p, "，我昨晚做了個夢，夢見……", core.as_str());
            s.append("呢。");
            s
        } else if k == 1 {
            let mut s = cat3(p, "，昨晚睡著後，", core.as_str());
            s.append("又回到我夢裡了。");
            s
        } else {
            cat5("跟你說呀", p, "，我昨晚夢見了……", core.as_str(), "。")
        }
    };
    truncate_chars(line.as_str(), DREAMSHARE_MAX_CHARS)
}

/// The memory a resident keeps of having shared a dream with `player` (never the dream itself).
pub fn dreamshare_memory_line(player: &str) -> (r: String)
    ensures
        trim_seq(player@).len() == 0 ==> r@ == "我把昨晚做的夢，說給了一位路過的旅人聽，心裡覺得親近了些。"@,
        trim_seq(player@).len() > 0 ==> r@ == "我把昨晚做的夢，說給了"@ + trim_seq(player@) + "聽，心裡覺得跟對方親近了些。"@,
{
    let p = trim_str(player);
    if p.unicode_len() == 0 {
        String::from_str("我把昨晚做的夢，說給了一位路過的旅人聽，心裡覺得親近了些。")
    } else {
        cat3("我把昨晚做的夢，說給了", p, "聽，心裡覺得跟對方親近了些。")
    }
}

/// The feed line of a shared dream; an empty resident name reads as 一位居民 and an empty
/// player name as a passing traveller.
pub fn dreamshare_feed_line(resident: &str, player: &str) -> (r: String)
    ensures
        ({
            let rn = if trim_seq(resident@).len() == 0 { "一位居民"@ } else { trim_seq(resident@) };
            let p = trim_seq(player@);
            r@ == if p.len() == 0 {
                rn + "把昨晚做的夢，說給了路過的旅人聽。"@
            } else {
                rn + "把昨晚做的夢，說給了"@ + p + "聽。"@
            }
        }),
{
    let r0 = trim_str(resident);
    let p = trim_str(player);
    let r = if r0.unicode_len() == 0 { "一位居民" } else { r0 };
    if p.unicode_len() == 0 {
        cat(r, "把昨晚做的夢，說給了路過的旅人聽。")
    } else {
        let mut s = cat3(r, "把昨晚做的夢，說給了", p);
        s.append("聽。");
        s
    }
}


/// Law: a dream shared with a named player names the player (a trimmed name of at most 36
/// characters, so the line is not cut before it), whatever the template; every shared line
/// says something; and with no dream core the line is the same for every player.
pub proof fn lemma_dreamshare_names_player(core: Seq<char>, p: Seq<char>, q: Seq<char>, k: int)
    ensures
        take_upto(share_template(core, p, k), DREAMSHARE_MAX_CHARS as int).len() > 0,
        core.len() > 0 && p.len() > 0 && p.len() <= 36 ==> seq_contains(
            take_upto(share_template(core, p, k), DREAMSHARE_MAX_CHARS as int),
            p,
        ),
        core.len() == 0 ==> share_template(core, p, k) == share_template(core, q, k),
{
    reveal_strlit("我昨晚做了個好夢呢，醒來心裡都是暖的。");
    reveal_strlit("昨晚睡得真好，還做了個溫柔的夢。");
    reveal_strlit("昨晚的夢真教人捨不得醒來呀。");
    reveal_strlit("我昨晚做了個夢，夢見……");
    reveal_strlit("昨晚睡著後，");
    reveal_strlit("跟你說，我昨晚夢見了……");
    reveal_strlit("，我昨晚做了個夢，夢見……");
    reveal_strlit("，昨晚睡著後，");
    reveal_strlit("跟你說呀");
    let t = share_template(core, p, k);
    if core.len() > 0 && p.len() > 0 && p.len() <= 36 {
        if k == 0 {
            let rest = "，我昨晚做了個夢，夢見……"@ + core + "呢。"@;
            assert(t =~= Seq::<char>::empty() + p + rest);
            lemma_contains_at(Seq::<char>::empty(), p, rest, 40);
        } else if k == 1 {
            let rest = "，昨晚睡著後，"@ + core + "又回到我夢裡了。"@;
            assert(t =~= Seq::<char>::empty() + p + rest);
            lemma_contains_at(Seq::<char>::empty(), p, rest, 40);
        } else {
            let rest = "，我昨晚夢見了……"@ + core + "。"@;
            assert(t =~= "跟你說呀"@ + p + rest);
            lemma_contains_at("跟你說呀"@, p, rest, 40);
        }
    }
    assert(t.len() > 0);
}

} // verus!
