//! Old-friend greetings: a resident who remembers enough of a player greets them with a
//! line drawn from what they did together (a gift, a trade, or just talk).

use vstd::prelude::*;
use crate::text::{no_char, contains_any, contains_any_of, replace_all, replace_str, seq_contains, str_contains, string_views, take_upto, truncate_chars, views};

verus! {

/// How many memories of a player make a resident an old friend.
pub const FOND_AFFINITY: usize = 5;

/// What the remembered time together was about, most touching first.
#[derive(Clone, Copy, Debug, PartialEq, Eq, Structural)]
pub enum FriendContext {
    /// The player once gave the resident a gift.
    PlayerGaveGift,
    /// The two once traded.
    Traded,
    /// They only talked.
    JustTalked,
}

/// The words in a memory that tell of a gift.
pub open spec fn gift_words() -> Seq<Seq<char>> {
    seq!["送來"@, "送我"@]
}

/// Whether some summary tells of a gift.
pub open spec fn any_gift(summaries: Seq<Seq<char>>) -> bool {
    exists|i: int| 0 <= i < summaries.len() && contains_any(#[trigger] summaries[i], gift_words())
}

/// Whether some summary tells of a trade.
pub open spec fn any_trade(summaries: Seq<Seq<char>>) -> bool {
    exists|i: int| 0 <= i < summaries.len() && seq_contains(#[trigger] summaries[i], "以物易物"@)
}

/// The context read from memory summaries, by priority: a gift told of in any summary,
/// else a trade told of in any summary, else just talk.
pub open spec fn context_of(summaries: Seq<Seq<char>>) -> FriendContext {
    if any_gift(summaries) {
        FriendContext::PlayerGaveGift
    } else if any_trade(summaries) {
        FriendContext::Traded
    } else {
        FriendContext::JustTalked
    }
}

/// The context of the time together, read from memory summaries: a gift anywhere comes
/// first, then a trade, then just talk.
pub fn detect_context(summaries: &[String]) -> (c: FriendContext)
    ensures
        c == context_of(string_views(summaries@)),
{
    let gift: [&str; 2] = ["送來", "送我"];
    proof {
        assert(views(gift@) =~= gift_words());
    }
    let ghost all = string_views(summaries@);
    let mut i: usize = 0;
    while i < summaries.len()
        invariant
            i <= summaries.len(),
            all == string_views(summaries@),
            views(gift@) == gift_words(),
            forall|j: int| 0 <= j < i ==> !contains_any(#[trigger] all[j], gift_words()),
        decreases summaries.len() - i,
    {
        if contains_any_of(summaries[i].as_str(), &gift) {
            proof {
                assert(all[i as int] == summaries@[i as int]@);
            }
            return FriendContext::PlayerGaveGift;
        }
        assert(all[i as int] == summaries@[i as int]@);
        i = i + 1;
    }
    let mut k: usize = 0;
    while k < summaries.len()
        invariant
            k <= summaries.len(),
            all == string_views(summaries@),
            !any_gift(all),
            forall|j: int| 0 <= j < k ==> !seq_contains(#[trigger] all[j], "以物易物"@),
        decreases summaries.len() - k,
    {
        if str_contains(summaries[k].as_str(), "以物易物") {
            proof {
                assert(all[k as int] == summaries@[k as int]@);
            }
            return FriendContext::Traded;
        }
        assert(all[k as int] == summaries@[k as int]@);
        k = k + 1;
    }
    FriendContext::JustTalked
}

/// The greetings for each context, with {n} for the player.
pub open spec fn fond_frames(ctx: FriendContext) -> Seq<Seq<char>> {
    match ctx {
        FriendContext::PlayerGaveGift => seq![
            "剛還在想{n}帶來的心意，你回來啦！"@,
            "{n}！你送的那份心意我一直記著。"@,
            "歡迎{n}！你上次送我的真的很暖心。"@,
        ],
        FriendContext::Traded => seq![
            "{n}！上次的交換你滿意嗎？"@,
            "嗨，{n}！手邊又攢了些材料，想換換。"@,
            "{n}，有空再來以物易物吧！"@,
        ],
        FriendContext::JustTalked => seq![
            "{n}！你說的那些話，我一直放在心上。"@,
            "嗨，{n}！你回來了，有好多話想說。"@,
            "{n}回來了！你上次分享的我還記著呢。"@,
        ],
    }
}

/// The name used in a greeting: the player's first six characters, or "旅人" for no name.
pub open spec fn greeting_name(player: Seq<char>) -> Seq<char> {
    if player.len() == 0 { "旅人"@ } else { take_upto(player, 6) }
}

/// An old friend's greeting: frame `pick % 3` of the context with the name filled in, cut
/// to 40 characters.
pub fn fond_greeting_line(player_name: &str, ctx: &FriendContext, pick: usize) -> (r: String)
    ensures
        r@ == take_upto(replace_all(fond_frames(*ctx)[(pick % 3) as int], "{n}"@, greeting_name(player_name@)), 40),
        r@ == fond_line(player_name@, *ctx, pick as int),
        r@.len() <= 40,
{
    let name = if player_name.unicode_len() == 0 {
        String::from_str("旅人")
    } else {
        truncate_chars(player_name, 6)
    };
    let frames: [&str; 3] = match ctx {
        FriendContext::PlayerGaveGift => [
            "剛還在想{n}帶來的心意，你回來啦！",
            "{n}！你送的那份心意我一直記著。",
            "歡迎{n}！你上次送我的真的很暖心。",
        ],
        FriendContext::Traded => [
            "{n}！上次的交換你滿意嗎？",
            "嗨，{n}！手邊又攢了些材料，想換換。",
            "{n}，有空再來以物易物吧！",
        ],
        FriendContext::JustTalked => [
            "{n}！你說的那些話，我一直放在心上。",
            "嗨，{n}！你回來了，有好多話想說。",
            "{n}回來了！你上次分享的我還記著呢。",
        ],
    };
    proof {
        assert(views(frames@) =~= fond_frames(*ctx));
        assert(views(frames@)[(pick % 3) as int] == frames@[(pick % 3) as int]@);
        reveal_strlit("{n}");
    }
    let raw = replace_str(frames[pick % 3], "{n}", name.as_str());
    truncate_chars(raw.as_str(), 40)
}


/// The greeting for `player`, context `ctx` and choice `pick`, as
/// [`fond_greeting_line`] gives it.
pub open spec fn fond_line(player: Seq<char>, ctx: FriendContext, pick: int) -> Seq<char> {
    take_upto(replace_all(fond_frames(ctx)[pick % 3], "{n}"@, greeting_name(player)), 40)
}

/// Law: an old friend's greeting names the player (by the name it uses: the first six
/// characters, or 旅人 for no name), and only `pick % 3` chooses among the lines.
pub proof fn lemma_fond_greeting_names_player(player: Seq<char>, ctx: FriendContext, pick: int)
    requires
        pick >= 0,
    ensures
        seq_contains(fond_line(player, ctx, pick), greeting_name(player)),
        fond_line(player, ctx, pick) == fond_line(player, ctx, pick % 3),
{
    reveal_strlit("旅人");
    reveal_strlit("{n}");
    let name = greeting_name(player);
    assert(name.len() <= 6);
    let k = pick % 3;
    if ctx == FriendContext::PlayerGaveGift && k == 0 {
        reveal_strlit("剛還在想{n}帶來的心意，你回來啦！");
        reveal_strlit("剛還在想");
        reveal_strlit("帶來的心意，你回來啦！");
        assert("剛還在想{n}帶來的心意，你回來啦！"@ =~= "剛還在想"@ + "{n}"@ + "帶來的心意，你回來啦！"@);
        assert(no_char("剛還在想"@, '{'));
        assert(no_char("帶來的心意，你回來啦！"@, '{'));
        crate::text::lemma_fill_frame("剛還在想"@, "{n}"@, name, "帶來的心意，你回來啦！"@, 40);
    } else if ctx == FriendContext::PlayerGaveGift && k == 1 {
        reveal_strlit("{n}！你送的那份心意我一直記著。");
        reveal_strlit("");
        reveal_strlit("！你送的那份心意我一直記著。");
        assert("{n}！你送的那份心意我一直記著。"@ =~= ""@ + "{n}"@ + "！你送的那份心意我一直記著。"@);
        assert(no_char(""@, '{'));
        assert(no_char("！你送的那份心意我一直記著。"@, '{'));
        crate::text::lemma_fill_frame(""@, "{n}"@, name, "！你送的那份心意我一直記著。"@, 40);
    } else if ctx == FriendContext::PlayerGaveGift && k == 2 {
        reveal_strlit("歡迎{n}！你上次送我的真的很暖心。");
        reveal_strlit("歡迎");
        reveal_strlit("！你上次送我的真的很暖心。");
        assert("歡迎{n}！你上次送我的真的很暖心。"@ =~= "歡迎"@ + "{n}"@ + "！你上次送我的真的很暖心。"@);
        assert(no_char("歡迎"@, '{'));
        assert(no_char("！你上次送我的真的很暖心。"@, '{'));
        crate::text::lemma_fill_frame("歡迎"@, "{n}"@, name, "！你上次送我的真的很暖心。"@, 40);
    } else if ctx == FriendContext::Traded && k == 0 {
        reveal_strlit("{n}！上次的交換你滿意嗎？");
        reveal_strlit("");
        reveal_strlit("！上次的交換你滿意嗎？");
        assert("{n}！上次的交換你滿意嗎？"@ =~= ""@ + "{n}"@ + "！上次的交換你滿意嗎？"@);
        assert(no_char(""@, '{'));
        assert(no_char("！上次的交換你滿意嗎？"@, '{'));
        crate::text::lemma_fill_frame(""@, "{n}"@, name, "！上次的交換你滿意嗎？"@, 40);
    } else if ctx == FriendContext::Traded && k == 1 {
        reveal_strlit("嗨，{n}！手邊又攢了些材料，想換換。");
        reveal_strlit("嗨，");
        reveal_strlit("！手邊又攢了些材料，想換換。");
        assert("嗨，{n}！手邊又攢了些材料，想換換。"@ =~= "嗨，"@ + "{n}"@ + "！手邊又攢了些材料，想換換。"@);
        assert(no_char("嗨，"@, '{'));
        assert(no_char("！手邊又攢了些材料，想換換。"@, '{'));
        crate::text::lemma_fill_frame("嗨，"@, "{n}"@, name, "！手邊又攢了些材料，想換換。"@, 40);
    } else if ctx == FriendContext::Traded && k == 2 {
        reveal_strlit("{n}，有空再來以物易物吧！");
        reveal_strlit("");
        reveal_strlit("，有空再來以物易物吧！");
        assert("{n}，有空再來以物易物吧！"@ =~= ""@ + "{n}"@ + "，有空再來以物易物吧！"@);
        assert(no_char(""@, '{'));
        assert(no_char("，有空再來以物易物吧！"@, '{'));
        crate::text::lemma_fill_frame(""@, "{n}"@, name, "，有空再來以物易物吧！"@, 40);
    } else if ctx == FriendContext::JustTalked && k == 0 {
        reveal_strlit("{n}！你說的那些話，我一直放在心上。");
        reveal_strlit("");
        reveal_strlit("！你說的那些話，我一直放在心上。");
        assert("{n}！你說的那些話，我一直放在心上。"@ =~= ""@ + "{n}"@ + "！你說的那些話，我一直放在心上。"@);
        assert(no_char(""@, '{'));
        assert(no_char("！你說的那些話，我一直放在心上。"@, '{'));
        crate::text::lemma_fill_frame(""@, "{n}"@, name, "！你說的那些話，我一直放在心上。"@, 40);
    } else if ctx == FriendContext::JustTalked && k == 1 {
        reveal_strlit("嗨，{n}！你回來了，有好多話想說。");
        reveal_strlit("嗨，");
        reveal_strlit("！你回來了，有好多話想說。");
        assert("嗨，{n}！你回來了，有好多話想說。"@ =~= "嗨，"@ + "{n}"@ + "！你回來了，有好多話想說。"@);
        assert(no_char("嗨，"@, '{'));
        assert(no_char("！你回來了，有好多話想說。"@, '{'));
        crate::text::lemma_fill_frame("嗨，"@, "{n}"@, name, "！你回來了，有好多話想說。"@, 40);
    } else if ctx == FriendContext::JustTalked && k == 2 {
        reveal_strlit("{n}回來了！你上次分享的我還記著呢。");
        reveal_strlit("");
        reveal_strlit("回來了！你上次分享的我還記著呢。");
        assert("{n}回來了！你上次分享的我還記著呢。"@ =~= ""@ + "{n}"@ + "回來了！你上次分享的我還記著呢。"@);
        assert(no_char(""@, '{'));
        assert(no_char("回來了！你上次分享的我還記著呢。"@, '{'));
        crate::text::lemma_fill_frame(""@, "{n}"@, name, "回來了！你上次分享的我還記著呢。"@, 40);
    }
    assert(k % 3 == k);
}

} // verus!
