//! Families: a married couple welcomes a child, who introduces herself as theirs;
//! the parents greet her, keep the day as a lasting memory, and the feed tells of it.

use vstd::prelude::*;
use crate::text::{take_upto, truncate_chars, cat, cat3, cat5, replace_all, replace_str};

verus! {

/// Longest name shown, in characters.
pub const NAME_MAX: usize = 12;
/// Feed category of a family birth.
pub const BIRTH_FAMILY_FEED_KIND: &'static str = "愛的結晶";

/// A name cut to [`NAME_MAX`] characters.
pub fn clip(name: &str) -> (r: String)
    ensures
        r@ == take_upto(name@, NAME_MAX as int),
{
    truncate_chars(name, NAME_MAX)
}

/// A name cut to [`NAME_MAX`] characters, or `fallback` when that leaves nothing.
pub open spec fn clipped_or(name: Seq<char>, fallback: Seq<char>) -> Seq<char> {
    if take_upto(name, NAME_MAX as int).len() == 0 {
        fallback
    } else {
        take_upto(name, NAME_MAX as int)
    }
}

/// A name cut to [`NAME_MAX`] characters, or `fallback` when that leaves nothing.
pub fn clip_or(name: &str, fallback: &str) -> (r: String)
    ensures
        r@ == clipped_or(name@, fallback@),
{
    let s = clip(name);
    if s.as_str().unicode_len() == 0 {
        String::from_str(fallback)
    } else {
        s
    }
}

/// The couples (in order) whose two members are distinct residents of a population of `pop`.
pub open spec fn valid_couples(pop: usize, s: Seq<(usize, usize)>) -> Seq<(usize, usize)>
    decreases s.len(),
{
    if s.len() == 0 {
        Seq::empty()
    } else {
        let c = s.last();
        let prev = valid_couples(pop, s.drop_last());
        if c.0 < pop && c.1 < pop && c.0 != c.1 {
            prev.push(c)
        } else {
            prev
        }
    }
}

/// The couple who become a child's parents: among the valid couples, the one at `seed`
/// modulo their number; `None` when there is no valid couple.
pub fn pick_married_couple(pop: usize, couples: &[(usize, usize)], seed: u64) -> (r: Option<(usize, usize)>)
    ensures
        ({
            let v = valid_couples(pop, couples@);
            if v.len() == 0 {
                r == None::<(usize, usize)>
            } else {
                r == Some(v[(seed as int) % (v.len() as int)])
            }
        }),
{
    let mut valid: Vec<(usize, usize)> = Vec::new();
    let mut i: usize = 0;
    while i < couples.len()
        invariant
            i <= couples@.len(),
            valid@ == valid_couples(pop, couples@.subrange(0, i as int)),
            valid@.len() <= i,
        decreases couples@.len() - i,
    {
        proof {
            assert(couples@.subrange(0, i as int + 1).drop_last() =~= couples@.subrange(0, i as int));
        }
        let (a, b) = couples[i];
        if a < pop && b < pop && a != b {
            valid.push((a, b));
        }
        i = i + 1;
    }
    assert(couples@.subrange(0, i as int) =~= couples@);
    if valid.len() == 0 {
        return None;
    }
    let n = valid.len() as u64;
    let idx = (seed % n) as usize;
    Some(valid[idx])
}

/// The newborn's first words: her name and both parents', and who taught her an inherited
/// skill when there is one.
pub fn child_birth_say(child: &str, parent_a: &str, parent_b: &str, inherited: Option<&str>) -> (r: String)
    ensures
        ({
            let c = clipped_or(child@, "孩子"@);
            let a = clipped_or(parent_a@, "爸爸"@);
            let b = clipped_or(parent_b@, "媽媽"@);
            r@ == match inherited {
                Some(skill) => "我是"@ + c + "，"@ + a + "和"@ + b + "的孩子～"@ + a + "把「"@ + take_upto(skill@, NAME_MAX as int) + "」教給了我！"@,
                None => "我是"@ + c + "，"@ + a + "和"@ + b + "的孩子，剛在這片天地誕生，請多指教！"@,
            }
        }),
{
    let c = clip_or(child, "孩子");
    let a = clip_or(parent_a, "爸爸");
    let b = clip_or(parent_b, "媽媽");
    let mut s = cat5("我是", c.as_str(), "，", a.as_str(), "和");
    s.append(b.as_str());
    match inherited {
        Some(skill) => {
            let k = clip(skill);
            s.append("的孩子～");
            s.append(a.as_str());
            s.append("把「");
            s.append(k.as_str());
            s.append("」教給了我！");
        },
        None => {
            s.append("的孩子，剛在這片天地誕生，請多指教！");
        },
    }
    s
}

/// The parents' three welcomes, with {c} for the child.
pub open spec fn welcome_frames() -> Seq<Seq<char>> {
    seq!["歡迎來到世界，{c}！你是我們的寶貝。"@, "我的孩子{c}，往後有爸爸媽媽陪著你慢慢長大。"@, "{c}，這片天地從今天起因你更完整了。💕"@]
}

/// A parent's welcome to the newborn, chosen by `pick`.
pub fn parent_welcome_say(child: &str, pick: usize) -> (r: String)
    ensures
        r@ == replace_all(welcome_frames()[(pick % 3) as int], "{c}"@, clipped_or(child@, "孩子"@)),
{
    let frames: [&str; 3] = ["歡迎來到世界，{c}！你是我們的寶貝。", "我的孩子{c}，往後有爸爸媽媽陪著你慢慢長大。", "{c}，這片天地從今天起因你更完整了。💕"];
    proof {
        assert(crate::text::views(frames@) =~= welcome_frames());
        assert(crate::text::views(frames@)[(pick % 3) as int] == frames@[(pick % 3) as int]@);
        reveal_strlit("{c}");
    }
    let c = clip_or(child, "孩子");
    replace_str(frames[pick % 3], "{c}", c.as_str())
}

/// A parent's lasting memory of welcoming the child with her partner.
pub fn family_memory_line(partner: &str, child: &str) -> (r: String)
    ensures
        r@ == "今天，我和"@ + clipped_or(partner@, "另一半"@) + "一起迎來了我們的孩子"@ + clipped_or(child@, "孩子"@)
            + "——我一定會用一生守護這個家。"@,
{
    let p = clip_or(partner, "另一半");
    let c = clip_or(child, "孩子");
    cat5("今天，我和", p.as_str(), "一起迎來了我們的孩子", c.as_str(), "——我一定會用一生守護這個家。")
}

/// The feed line of a couple welcoming a child.
pub fn family_feed_line(parent_a: &str, parent_b: &str, child: &str) -> (r: String)
    ensures
        r@ == clipped_or(parent_a@, "一位居民"@) + "與"@ + clipped_or(parent_b@, "另一位居民"@) + "一家，迎來了新生命"@
            + clipped_or(child@, "孩子"@),
{
    let a = clip_or(parent_a, "一位居民");
    let b = clip_or(parent_b, "另一位居民");
    let c = clip_or(child, "孩子");
    cat5(a.as_str(), "與", b.as_str(), "一家，迎來了新生命", c.as_str())
}

} // verus!
