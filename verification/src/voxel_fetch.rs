//! Errands: a player asks a resident to gather some material ("幫我採集 3 塊木頭"); she
//! goes, gathers the amount and brings it back. This module recognises the request,
//! phrases her answers and keeps the errand's count of what is still missing.

use vstd::prelude::*;
use crate::text::{contains_any, contains_any_of, dec, dec_string, digits_value, is_digit, replace_all, replace_str, seq_contains, str_contains, views, no_char, pat_free, ascii, non_ascii, lemma_no_char_pat_free, lemma_fill_slots};
use crate::voxel::GatherResource;

verus! {

/// Amount gathered when the request names none.
pub const FETCH_DEFAULT_COUNT: u32 = 3;

/// Largest amount one errand may ask for.
pub const FETCH_MAX_COUNT: u32 = 6;

/// The words that ask for an errand.
pub open spec fn fetch_verbs() -> Seq<Seq<char>> {
    seq!["幫我採集"@, "幫我採"@, "幫我拿"@, "幫我找"@, "幫我搬"@, "幫我準備"@]
}

/// The material words, in table order.
pub open spec fn material_words() -> Seq<Seq<char>> {
    seq![
        "木頭"@, "木材"@, "原木"@, "石頭"@, "石塊"@, "石材"@, "沙子"@, "細沙"@, "泥土"@, "泥巴"@,
        "草皮"@,
    ]
}

/// The resource of each material word, in table order.
pub open spec fn material_resources() -> Seq<GatherResource> {
    seq![
        GatherResource::Wood,
        GatherResource::Wood,
        GatherResource::Wood,
        GatherResource::Stone,
        GatherResource::Stone,
        GatherResource::Stone,
        GatherResource::Sand,
        GatherResource::Sand,
        GatherResource::Dirt,
        GatherResource::Dirt,
        GatherResource::Grass,
    ]
}

/// The resource of the first table row, from row `i` on, whose word occurs in `text`.
pub open spec fn first_resource_from(text: Seq<char>, i: int) -> Option<GatherResource>
    decreases 11 - i,
{
    if i < 0 || i >= 11 {
        None
    } else if seq_contains(text, material_words()[i]) {
        Some(material_resources()[i])
    } else {
        first_resource_from(text, i + 1)
    }
}

/// Index of the first digit at or after `i` (`s.len()` when there is none).
pub open spec fn first_digit_from(s: Seq<char>, i: int) -> int
    decreases s.len() - i,
{
    if i < 0 || i >= s.len() {
        s.len() as int
    } else if is_digit(s[i]) {
        i
    } else {
        first_digit_from(s, i + 1)
    }
}

/// One past the run of digits that starts at `i`.
pub open spec fn digit_run_end(s: Seq<char>, i: int) -> int
    decreases s.len() - i,
{
    if i < 0 || i >= s.len() {
        s.len() as int
    } else if is_digit(s[i]) {
        digit_run_end(s, i + 1)
    } else {
        i
    }
}

/// The value of the first run of digits in `s`, when there is one.
pub open spec fn first_run_value(s: Seq<char>) -> Option<nat> {
    let a = first_digit_from(s, 0);
    if a >= s.len() {
        None
    } else {
        Some(digits_value(s.subrange(a, digit_run_end(s, a))))
    }
}

/// The number written by the first run of digits in `s`, when there is one and it fits a
/// `u32`.
pub open spec fn first_number(s: Seq<char>) -> Option<u32> {
    match first_run_value(s) {
        Some(v) => if v <= u32::MAX { Some(v as u32) } else { None },
        None => None,
    }
}

/// The amount a request writes: the first run of digits, a number too large for a `u32`
/// reading as `u32::MAX` (it is then kept at the largest amount).
pub open spec fn saturated_number(s: Seq<char>) -> Option<u32> {
    match first_run_value(s) {
        Some(v) => if v <= u32::MAX { Some(v as u32) } else { Some(u32::MAX) },
        None => None,
    }
}

/// The number written by the first run of ASCII digits in `text`; none when there is no
/// digit or the number does not fit a `u32`.
pub fn extract_count(text: &str) -> (r: Option<u32>)
    ensures
        r == first_number(text@),
{
    let (v, over) = scan_first_number(text);
    if over {
        None
    } else {
        v
    }
}

/// The first run of digits: its value saturated at `u32::MAX`, and whether it was larger.
fn scan_first_number(text: &str) -> (r: (Option<u32>, bool))
    ensures
        r.0 == saturated_number(text@),
        r.1 == (first_run_value(text@) matches Some(v) && v > u32::MAX),
{
    let v = crate::text::chars_of(text);
    let n = v.len();
    let mut i: usize = 0;
    while i < n && !('0' <= v[i] && v[i] <= '9')
        invariant
            v@ == text@,
            n == v.len(),
            i <= n,
            first_digit_from(text@, 0) == first_digit_from(text@, i as int),
        decreases n - i,
    {
        i = i + 1;
    }
    if i == n {
        return (None, false);
    }
    let start = i;
    let mut val: u64 = 0;
    let mut over = false;
    while i < n && '0' <= v[i] && v[i] <= '9'
        invariant
            v@ == text@,
            n == v.len(),
            start <= i <= n,
            start == first_digit_from(text@, 0),
            digit_run_end(text@, start as int) == digit_run_end(text@, i as int),
            !over ==> val == digits_value(text@.subrange(start as int, i as int)) && val <= u32::MAX,
            over ==> digits_value(text@.subrange(start as int, i as int)) > u32::MAX,
        decreases n - i,
    {
        let c = v[i];
        let d = (c as u64) - 48;
        proof {
            assert(text@.subrange(start as int, i + 1).drop_last() =~= text@.subrange(start as int, i as int));
            assert(text@.subrange(start as int, i + 1).last() == c);
        }
        if !over {
            let nv = val * 10 + d;
            if nv > 4294967295 {
                over = true;
            } else {
                val = nv;
            }
        }
        i = i + 1;
    }
    if over {
        (Some(4294967295), true)
    } else {
        (Some(val as u32), false)
    }
}

/// The amount asked for, kept between one and [`FETCH_MAX_COUNT`].
pub open spec fn clamp_count(c: u32) -> u32 {
    if c < 1 { 1 } else if c > FETCH_MAX_COUNT { FETCH_MAX_COUNT } else { c }
}

/// What an errand request asks for: it needs an errand word and a material word; the
/// resource is that of the first material row whose word occurs, the amount the first
/// number written (or [`FETCH_DEFAULT_COUNT`]) kept between one and [`FETCH_MAX_COUNT`].
pub open spec fn fetch_command(text: Seq<char>) -> Option<(GatherResource, u32)> {
    if !contains_any(text, fetch_verbs()) {
        None
    } else {
        match first_resource_from(text, 0) {
            None => None,
            Some(r) => Some(
                (
                    r,
                    clamp_count(
                        match saturated_number(text) {
                            Some(c) => c,
                            None => FETCH_DEFAULT_COUNT,
                        },
                    ),
                ),
            ),
        }
    }
}

/// Whether the player's words ask for an errand, and for what and how much.
pub fn detect_fetch_command(text: &str) -> (r: Option<(GatherResource, u32)>)
    ensures
        r == fetch_command(text@),
        r matches Some((_, c)) ==> 1 <= c <= FETCH_MAX_COUNT,
{
    let verbs: [&str; 6] = ["幫我採集", "幫我採", "幫我拿", "幫我找", "幫我搬", "幫我準備"];
    proof {
        assert(views(verbs@) =~= fetch_verbs());
    }
    if !contains_any_of(text, &verbs) {
        return None;
    }
    let words: [&str; 11] = ["木頭", "木材", "原木", "石頭", "石塊", "石材", "沙子", "細沙", "泥土", "泥巴", "草皮"];
    let kinds: [GatherResource; 11] = [
        GatherResource::Wood,
        GatherResource::Wood,
        GatherResource::Wood,
        GatherResource::Stone,
        GatherResource::Stone,
        GatherResource::Stone,
        GatherResource::Sand,
        GatherResource::Sand,
        GatherResource::Dirt,
        GatherResource::Dirt,
        GatherResource::Grass,
    ];
    proof {
        assert(views(words@) =~= material_words());
        assert(kinds@ =~= material_resources());
    }
    let mut i: usize = 0;
    let mut found: Option<GatherResource> = None;
    while i < 11
        invariant
            i <= 11,
            views(words@) == material_words(),
            kinds@ == material_resources(),
            found is None ==> first_resource_from(text@, 0) == first_resource_from(text@, i as int),
            found is Some ==> found == first_resource_from(text@, 0),
        decreases 11 - i,
    {
        if found.is_none() {
            assert(views(words@)[i as int] == words@[i as int]@);
            if str_contains(text, words[i]) {
                found = Some(kinds[i]);
            }
        }
        i = i + 1;
    }
    let resource = match found {
        Some(r) => r,
        None => return None,
    };
    let asked = match scan_first_number(text).0 {
        Some(c) => c,
        None => FETCH_DEFAULT_COUNT,
    };
    let count = if asked < 1 {
        1
    } else if asked > FETCH_MAX_COUNT {
        FETCH_MAX_COUNT
    } else {
        asked
    };
    Some((resource, count))
}

/// The four answers accepting an errand, with {n} for the amount and {item} for the material.
pub open spec fn accept_frames() -> Seq<Seq<char>> {
    seq![
        "好，我這就去採{n}份{item}，帶回來給你！"@,
        "沒問題，交給我吧——我去找{n}份{item}，找到就送過去～"@,
        "好呀，我這就出發採{n}份{item}，等我一下下！"@,
        "交給我！我去採{n}份{item}，湊齊了就親自送到你手上。"@,
    ]
}

/// A frame with {n} filled by `count` and then {item} by the material name.
pub open spec fn fill_count_item(frame: Seq<char>, count: u32, item: Seq<char>) -> Seq<char> {
    replace_all(replace_all(frame, "{n}"@, dec(count as nat)), "{item}"@, item)
}

fn fill_frame(frame: &str, count: u32, item: &str) -> (r: String)
    ensures
        r@ == fill_count_item(frame@, count, item@),
{
    proof {
        reveal_strlit("{n}");
        reveal_strlit("{item}");
    }
    let n = dec_string(count as u64);
    let a = replace_str(frame, "{n}", n.as_str());
    replace_str(a.as_str(), "{item}", item)
}

/// The resident's answer accepting the errand: frame `pick % 4` with the amount and material.
pub fn accept_line(resource_name: &str, count: u32, pick: usize) -> (r: String)
    ensures
        r@ == fill_count_item(accept_frames()[(pick % 4) as int], count, resource_name@),
{
    let frames: [&str; 4] = [
        "好，我這就去採{n}份{item}，帶回來給你！",
        "沒問題，交給我吧——我去找{n}份{item}，找到就送過去～",
        "好呀，我這就出發採{n}份{item}，等我一下下！",
        "交給我！我去採{n}份{item}，湊齊了就親自送到你手上。",
    ];
    proof {
        assert(views(frames@) =~= accept_frames());
        assert(views(frames@)[(pick % 4) as int] == frames@[(pick % 4) as int]@);
    }
    fill_frame(frames[pick % 4], count, resource_name)
}

/// The four hand-over lines when everything asked for was gathered.
pub open spec fn deliver_full_frames() -> Seq<Seq<char>> {
    seq![
        "採到了！這{n}份{item}給你～"@,
        "久等啦，{n}份{item}都採齊了，拿去用吧！"@,
        "任務完成！{n}份{item}親手交給你。"@,
        "呼～總算湊齊{n}份{item}了，這是你要的！"@,
    ]
}

/// The three hand-over lines when less was gathered than asked for.
pub open spec fn deliver_partial_frames() -> Seq<Seq<char>> {
    seq![
        "抱歉，附近只找到{n}份{item}，先給你這些，之後找到再補！"@,
        "沒能湊滿，只採到{n}份{item}——先拿去用，我之後再幫你找找！"@,
        "找了好一陣子，目前只有{n}份{item}，先交給你，別的之後再說～"@,
    ]
}

/// The hand-over words: a full-delivery line (`pick % 4`) when `delivered` reaches
/// `requested`, else a partial one (`pick % 3`), with the amount delivered and the material.
pub open spec fn deliver_text(item: Seq<char>, requested: u32, delivered: u32, pick: int) -> Seq<char> {
    if delivered >= requested {
        fill_count_item(deliver_full_frames()[pick % 4], delivered, item)
    } else {
        fill_count_item(deliver_partial_frames()[pick % 3], delivered, item)
    }
}

/// The resident's words on handing over: a full-delivery line (`pick % 4`) when `delivered`
/// reaches `requested`, else an apologetic partial one (`pick % 3`); {n} is the delivered amount.
pub fn deliver_line(resource_name: &str, requested: u32, delivered: u32, pick: usize) -> (r: String)
    ensures
        r@ == deliver_text(resource_name@, requested, delivered, pick as int),
{
    if delivered >= requested {
        let frames: [&str; 4] = [
            "採到了！這{n}份{item}給你～",
            "久等啦，{n}份{item}都採齊了，拿去用吧！",
            "任務完成！{n}份{item}親手交給你。",
            "呼～總算湊齊{n}份{item}了，這是你要的！",
        ];
        proof {
            assert(views(frames@) =~= deliver_full_frames());
            assert(views(frames@)[(pick % 4) as int] == frames@[(pick % 4) as int]@);
        }
        fill_frame(frames[pick % 4], delivered, resource_name)
    } else {
        let frames: [&str; 3] = [
            "抱歉，附近只找到{n}份{item}，先給你這些，之後找到再補！",
            "沒能湊滿，只採到{n}份{item}——先拿去用，我之後再幫你找找！",
            "找了好一陣子，目前只有{n}份{item}，先交給你，別的之後再說～",
        ];
        proof {
            assert(views(frames@) =~= deliver_partial_frames());
            assert(views(frames@)[(pick % 3) as int] == frames@[(pick % 3) as int]@);
        }
        fill_frame(frames[pick % 3], delivered, resource_name)
    }
}

/// The three apologies when nothing at all could be gathered, with {item} for the material.
pub open spec fn fail_frames() -> Seq<Seq<char>> {
    seq![
        "抱歉，這附近找不到{item}，我先回來了，之後找到再幫你採！"@,
        "找了一圈都沒看到{item}……先跟你說一聲，晚點再試試看。"@,
        "唉，附近沒有{item}可以採，這次先放棄，別的地方再找找看！"@,
    ]
}

/// The resident's apology when she found none of the material: frame `pick % 3`.
pub fn fail_line(resource_name: &str, pick: usize) -> (r: String)
    ensures
        r@ == replace_all(fail_frames()[(pick % 3) as int], "{item}"@, resource_name@),
{
    let frames: [&str; 3] = [
        "抱歉，這附近找不到{item}，我先回來了，之後找到再幫你採！",
        "找了一圈都沒看到{item}……先跟你說一聲，晚點再試試看。",
        "唉，附近沒有{item}可以採，這次先放棄，別的地方再找找看！",
    ];
    proof {
        assert(views(frames@) =~= fail_frames());
        assert(views(frames@)[(pick % 3) as int] == frames@[(pick % 3) as int]@);
        reveal_strlit("{item}");
    }
    replace_str(frames[pick % 3], "{item}", resource_name)
}

/// An errand: `requested` of `resource` promised to `requester`, `remaining` still to
/// gather and `carried` gathered but not yet handed over. The errand's time budget is
/// kept by the caller beside it.
#[derive(Debug, PartialEq)]
pub struct FetchTask {
    /// The player who asked.
    pub requester: String,
    /// What to gather.
    pub resource: GatherResource,
    /// The amount promised.
    pub requested: u32,
    /// The amount still to gather.
    pub remaining: u32,
    /// The amount gathered and not yet handed over.
    pub carried: u32,
}

impl FetchTask {
    /// A new errand for `count` of `resource`: nothing gathered yet.
    pub fn new(requester: String, resource: GatherResource, count: u32) -> (t: Self)
        ensures
            t.requester@ == requester@,
            t.resource == resource,
            t.requested == count,
            t.remaining == count,
            t.carried == 0,
    {
        FetchTask { requester, resource, requested: count, remaining: count, carried: 0 }
    }

    /// Whether everything has been gathered and the errand moves on to handing over.
    pub fn is_gathering_done(&self) -> (b: bool)
        ensures
            b == (self.remaining == 0),
    {
        self.remaining == 0
    }
}


proof fn lemma_dec_no_brace(n: nat)
    ensures
        no_char(dec(n), '{'),
{
    crate::text::lemma_dec_value(n);
    assert forall|k: int| 0 <= k < dec(n).len() implies #[trigger] dec(n)[k] != '{' by {
        assert(is_digit(dec(n)[k]));
    }
}

proof fn lemma_fetch_placeholders()
    ensures
        "{n}"@.len() == 3,
        "{item}"@.len() == 6,
        "{n}"@[0] == '{',
        "{item}"@[0] == '{',
        ascii("{n}"@),
        ascii("{item}"@),
        pat_free("{item}"@, "{n}"@),
{
    reveal_strlit("{n}");
    reveal_strlit("{item}");
    assert(ascii("{n}"@));
    assert(ascii("{item}"@));
    assert forall|q: int| 0 <= q && q + "{n}"@.len() <= "{item}"@.len() implies #[trigger] "{item}"@.subrange(q, q + "{n}"@.len()) != "{n}"@ by {
        let w = "{item}"@.subrange(q, q + "{n}"@.len());
        if q == 0 {
            assert(w[1] == 'i');
        } else {
            assert(w[0] == "{item}"@[q]);
        }
    }
}

proof fn lemma_dec_free(n: nat)
    ensures
        pat_free(dec(n), "{n}"@),
        pat_free(dec(n), "{item}"@),
{
    lemma_fetch_placeholders();
    lemma_dec_no_brace(n);
    lemma_no_char_pat_free(dec(n), "{n}"@);
    lemma_no_char_pat_free(dec(n), "{item}"@);
}

proof fn lemma_deliver_full_0(count: u32, item: Seq<char>)
    ensures
        fill_count_item("採到了！這{n}份{item}給你～"@, count, item)[0] == '採',
        seq_contains(fill_count_item("採到了！這{n}份{item}給你～"@, count, item), dec(count as nat)),
        seq_contains(fill_count_item("採到了！這{n}份{item}給你～"@, count, item), item),
        pat_free(item, "{n}"@) ==> pat_free(fill_count_item("採到了！這{n}份{item}給你～"@, count, item), "{n}"@),
        pat_free(item, "{item}"@) ==> pat_free(fill_count_item("採到了！這{n}份{item}給你～"@, count, item), "{item}"@),
{
    lemma_fetch_placeholders();
    lemma_dec_free(count as nat);
    reveal_strlit("{n}");
    reveal_strlit("{item}");
    reveal_strlit("採到了！這{n}份{item}給你～");
    reveal_strlit("採到了！這");
    reveal_strlit("份");
    reveal_strlit("給你～");
    assert("採到了！這{n}份{item}給你～"@ =~= "採到了！這"@ + "{n}"@ + "份"@ + "{item}"@ + "給你～"@);
    assert(non_ascii("採到了！這"@));
    assert(non_ascii("份"@));
    assert(non_ascii("給你～"@));
    lemma_fill_slots("採到了！這"@, "{n}"@, "份"@, "{item}"@, "給你～"@, dec(count as nat), item);
    assert(("採到了！這"@ + dec(count as nat) + "份"@ + item + "給你～"@)[0] == "採到了！這"@[0]);
}

proof fn lemma_deliver_full_1(count: u32, item: Seq<char>)
    ensures
        fill_count_item("久等啦，{n}份{item}都採齊了，拿去用吧！"@, count, item)[0] == '久',
        seq_contains(fill_count_item("久等啦，{n}份{item}都採齊了，拿去用吧！"@, count, item), dec(count as nat)),
        seq_contains(fill_count_item("久等啦，{n}份{item}都採齊了，拿去用吧！"@, count, item), item),
        pat_free(item, "{n}"@) ==> pat_free(fill_count_item("久等啦，{n}份{item}都採齊了，拿去用吧！"@, count, item), "{n}"@),
        pat_free(item, "{item}"@) ==> pat_free(fill_count_item("久等啦，{n}份{item}都採齊了，拿去用吧！"@, count, item), "{item}"@),
{
    lemma_fetch_placeholders();
    lemma_dec_free(count as nat);
    reveal_strlit("{n}");
    reveal_strlit("{item}");
    reveal_strlit("久等啦，{n}份{item}都採齊了，拿去用吧！");
    reveal_strlit("久等啦，");
    reveal_strlit("份");
    reveal_strlit("都採齊了，拿去用吧！");
    assert("久等啦，{n}份{item}都採齊了，拿去用吧！"@ =~= "久等啦，"@ + "{n}"@ + "份"@ + "{item}"@ + "都採齊了，拿去用吧！"@);
    assert(non_ascii("久等啦，"@));
    assert(non_ascii("份"@));
    assert(non_ascii("都採齊了，拿去用吧！"@));
    lemma_fill_slots("久等啦，"@, "{n}"@, "份"@, "{item}"@, "都採齊了，拿去用吧！"@, dec(count as nat), item);
    assert(("久等啦，"@ + dec(count as nat) + "份"@ + item + "都採齊了，拿去用吧！"@)[0] == "久等啦，"@[0]);
}

proof fn lemma_deliver_full_2(count: u32, item: Seq<char>)
    ensures
        fill_count_item("任務完成！{n}份{item}親手交給你。"@, count, item)[0] == '任',
        seq_contains(fill_count_item("任務完成！{n}份{item}親手交給你。"@, count, item), dec(count as nat)),
        seq_contains(fill_count_item("任務完成！{n}份{item}親手交給你。"@, count, item), item),
        pat_free(item, "{n}"@) ==> pat_free(fill_count_item("任務完成！{n}份{item}親手交給你。"@, count, item), "{n}"@),
        pat_free(item, "{item}"@) ==> pat_free(fill_count_item("任務完成！{n}份{item}親手交給你。"@, count, item), "{item}"@),
{
    lemma_fetch_placeholders();
    lemma_dec_free(count as nat);
    reveal_strlit("{n}");
    reveal_strlit("{item}");
    reveal_strlit("任務完成！{n}份{item}親手交給你。");
    reveal_strlit("任務完成！");
    reveal_strlit("份");
    reveal_strlit("親手交給你。");
    assert("任務完成！{n}份{item}親手交給你。"@ =~= "任務完成！"@ + "{n}"@ + "份"@ + "{item}"@ + "親手交給你。"@);
    assert(non_ascii("任務完成！"@));
    assert(non_ascii("份"@));
    assert(non_ascii("親手交給你。"@));
    lemma_fill_slots("任務完成！"@, "{n}"@, "份"@, "{item}"@, "親手交給你。"@, dec(count as nat), item);
    assert(("任務完成！"@ + dec(count as nat) + "份"@ + item + "親手交給你。"@)[0] == "任務完成！"@[0]);
}

proof fn lemma_deliver_full_3(count: u32, item: Seq<char>)
    ensures
        fill_count_item("呼～總算湊齊{n}份{item}了，這是你要的！"@, count, item)[0] == '呼',
        seq_contains(fill_count_item("呼～總算湊齊{n}份{item}了，這是你要的！"@, count, item), dec(count as nat)),
        seq_contains(fill_count_item("呼～總算湊齊{n}份{item}了，這是你要的！"@, count, item), item),
        pat_free(item, "{n}"@) ==> pat_free(fill_count_item("呼～總算湊齊{n}份{item}了，這是你要的！"@, count, item), "{n}"@),
        pat_free(item, "{item}"@) ==> pat_free(fill_count_item("呼～總算湊齊{n}份{item}了，這是你要的！"@, count, item), "{item}"@),
{
    lemma_fetch_placeholders();
    lemma_dec_free(count as nat);
    reveal_strlit("{n}");
    reveal_strlit("{item}");
    reveal_strlit("呼～總算湊齊{n}份{item}了，這是你要的！");
    reveal_strlit("呼～總算湊齊");
    reveal_strlit("份");
    reveal_strlit("了，這是你要的！");
    assert("呼～總算湊齊{n}份{item}了，這是你要的！"@ =~= "呼～總算湊齊"@ + "{n}"@ + "份"@ + "{item}"@ + "了，這是你要的！"@);
    assert(non_ascii("呼～總算湊齊"@));
    assert(non_ascii("份"@));
    assert(non_ascii("了，這是你要的！"@));
    lemma_fill_slots("呼～總算湊齊"@, "{n}"@, "份"@, "{item}"@, "了，這是你要的！"@, dec(count as nat), item);
    assert(("呼～總算湊齊"@ + dec(count as nat) + "份"@ + item + "了，這是你要的！"@)[0] == "呼～總算湊齊"@[0]);
}

proof fn lemma_deliver_partial_0(count: u32, item: Seq<char>)
    ensures
        fill_count_item("抱歉，附近只找到{n}份{item}，先給你這些，之後找到再補！"@, count, item)[0] == '抱',
        seq_contains(fill_count_item("抱歉，附近只找到{n}份{item}，先給你這些，之後找到再補！"@, count, item), dec(count as nat)),
        seq_contains(fill_count_item("抱歉，附近只找到{n}份{item}，先給你這些，之後找到再補！"@, count, item), item),
        pat_free(item, "{n}"@) ==> pat_free(fill_count_item("抱歉，附近只找到{n}份{item}，先給你這些，之後找到再補！"@, count, item), "{n}"@),
        pat_free(item, "{item}"@) ==> pat_free(fill_count_item("抱歉，附近只找到{n}份{item}，先給你這些，之後找到再補！"@, count, item), "{item}"@),
{
    lemma_fetch_placeholders();
    lemma_dec_free(count as nat);
    reveal_strlit("{n}");
    reveal_strlit("{item}");
    reveal_strlit("抱歉，附近只找到{n}份{item}，先給你這些，之後找到再補！");
    reveal_strlit("抱歉，附近只找到");
    reveal_strlit("份");
    reveal_strlit("，先給你這些，之後找到再補！");
    assert("抱歉，附近只找到{n}份{item}，先給你這些，之後找到再補！"@ =~= "抱歉，附近只找到"@ + "{n}"@ + "份"@ + "{item}"@ + "，先給你這些，之後找到再補！"@);
    assert(non_ascii("抱歉，附近只找到"@));
    assert(non_ascii("份"@));
    assert(non_ascii("，先給你這些，之後找到再補！"@));
    lemma_fill_slots("抱歉，附近只找到"@, "{n}"@, "份"@, "{item}"@, "，先給你這些，之後找到再補！"@, dec(count as nat), item);
    assert(("抱歉，附近只找到"@ + dec(count as nat) + "份"@ + item + "，先給你這些，之後找到再補！"@)[0] == "抱歉，附近只找到"@[0]);
}

proof fn lemma_deliver_partial_1(count: u32, item: Seq<char>)
    ensures
        fill_count_item("沒能湊滿，只採到{n}份{item}——先拿去用，我之後再幫你找找！"@, count, item)[0] == '沒',
        seq_contains(fill_count_item("沒能湊滿，只採到{n}份{item}——先拿去用，我之後再幫你找找！"@, count, item), dec(count as nat)),
        seq_contains(fill_count_item("沒能湊滿，只採到{n}份{item}——先拿去用，我之後再幫你找找！"@, count, item), item),
        pat_free(item, "{n}"@) ==> pat_free(fill_count_item("沒能湊滿，只採到{n}份{item}——先拿去用，我之後再幫你找找！"@, count, item), "{n}"@),
        pat_free(item, "{item}"@) ==> pat_free(fill_count_item("沒能湊滿，只採到{n}份{item}——先拿去用，我之後再幫你找找！"@, count, item), "{item}"@),
{
    lemma_fetch_placeholders();
    lemma_dec_free(count as nat);
    reveal_strlit("{n}");
    reveal_strlit("{item}");
    reveal_strlit("沒能湊滿，只採到{n}份{item}——先拿去用，我之後再幫你找找！");
    reveal_strlit("沒能湊滿，只採到");
    reveal_strlit("份");
    reveal_strlit("——先拿去用，我之後再幫你找找！");
    assert("沒能湊滿，只採到{n}份{item}——先拿去用，我之後再幫你找找！"@ =~= "沒能湊滿，只採到"@ + "{n}"@ + "份"@ + "{item}"@ + "——先拿去用，我之後再幫你找找！"@);
    assert(non_ascii("沒能湊滿，只採到"@));
    assert(non_ascii("份"@));
    assert(non_ascii("——先拿去用，我之後再幫你找找！"@));
    lemma_fill_slots("沒能湊滿，只採到"@, "{n}"@, "份"@, "{item}"@, "——先拿去用，我之後再幫你找找！"@, dec(count as nat), item);
    assert(("沒能湊滿，只採到"@ + dec(count as nat) + "份"@ + item + "——先拿去用，我之後再幫你找找！"@)[0] == "沒能湊滿，只採到"@[0]);
}

proof fn lemma_deliver_partial_2(count: u32, item: Seq<char>)
    ensures
        fill_count_item("找了好一陣子，目前只有{n}份{item}，先交給你，別的之後再說～"@, count, item)[0] == '找',
        seq_contains(fill_count_item("找了好一陣子，目前只有{n}份{item}，先交給你，別的之後再說～"@, count, item), dec(count as nat)),
        seq_contains(fill_count_item("找了好一陣子，目前只有{n}份{item}，先交給你，別的之後再說～"@, count, item), item),
        pat_free(item, "{n}"@) ==> pat_free(fill_count_item("找了好一陣子，目前只有{n}份{item}，先交給你，別的之後再說～"@, count, item), "{n}"@),
        pat_free(item, "{item}"@) ==> pat_free(fill_count_item("找了好一陣子，目前只有{n}份{item}，先交給你，別的之後再說～"@, count, item), "{item}"@),
{
    lemma_fetch_placeholders();
    lemma_dec_free(count as nat);
    reveal_strlit("{n}");
    reveal_strlit("{item}");
    reveal_strlit("找了好一陣子，目前只有{n}份{item}，先交給你，別的之後再說～");
    reveal_strlit("找了好一陣子，目前只有");
    reveal_strlit("份");
    reveal_strlit("，先交給你，別的之後再說～");
    assert("找了好一陣子，目前只有{n}份{item}，先交給你，別的之後再說～"@ =~= "找了好一陣子，目前只有"@ + "{n}"@ + "份"@ + "{item}"@ + "，先交給你，別的之後再說～"@);
    assert(non_ascii("找了好一陣子，目前只有"@));
    assert(non_ascii("份"@));
    assert(non_ascii("，先交給你，別的之後再說～"@));
    lemma_fill_slots("找了好一陣子，目前只有"@, "{n}"@, "份"@, "{item}"@, "，先交給你，別的之後再說～"@, dec(count as nat), item);
    assert(("找了好一陣子，目前只有"@ + dec(count as nat) + "份"@ + item + "，先交給你，別的之後再說～"@)[0] == "找了好一陣子，目前只有"@[0]);
}

/// Law: the hand-over line names the amount delivered (in decimal) and the material, and it
/// holds a placeholder only where the material's name does.
pub proof fn lemma_deliver_line_law(item: Seq<char>, requested: u32, delivered: u32, pick: int)
    requires
        pick >= 0,
    ensures
        seq_contains(deliver_text(item, requested, delivered, pick), dec(delivered as nat)),
        seq_contains(deliver_text(item, requested, delivered, pick), item),
        pat_free(item, "{n}"@) ==> pat_free(deliver_text(item, requested, delivered, pick), "{n}"@),
        pat_free(item, "{item}"@) ==> pat_free(deliver_text(item, requested, delivered, pick), "{item}"@),
{
    if delivered >= requested && pick % 4 == 0 { lemma_deliver_full_0(delivered, item); }
    if delivered >= requested && pick % 4 == 1 { lemma_deliver_full_1(delivered, item); }
    if delivered >= requested && pick % 4 == 2 { lemma_deliver_full_2(delivered, item); }
    if delivered >= requested && pick % 4 == 3 { lemma_deliver_full_3(delivered, item); }
    if delivered < requested && pick % 3 == 0 { lemma_deliver_partial_0(delivered, item); }
    if delivered < requested && pick % 3 == 1 { lemma_deliver_partial_1(delivered, item); }
    if delivered < requested && pick % 3 == 2 { lemma_deliver_partial_2(delivered, item); }
}

/// Law: a full hand-over never reads like a partial one: whatever the material and the
/// pick, the line for everything gathered differs from the line for less.
pub proof fn lemma_full_delivery_differs(item: Seq<char>, requested: u32, short: u32, pick: int)
    requires
        pick >= 0,
        short < requested,
    ensures
        deliver_text(item, requested, requested, pick) != deliver_text(item, requested, short, pick),
{
    if pick % 4 == 0 { lemma_deliver_full_0(requested, item); }
    if pick % 4 == 1 { lemma_deliver_full_1(requested, item); }
    if pick % 4 == 2 { lemma_deliver_full_2(requested, item); }
    if pick % 4 == 3 { lemma_deliver_full_3(requested, item); }
    if pick % 3 == 0 { lemma_deliver_partial_0(short, item); }
    if pick % 3 == 1 { lemma_deliver_partial_1(short, item); }
    if pick % 3 == 2 { lemma_deliver_partial_2(short, item); }
}

/// The resource a material word names: 木頭, 木材 and 原木 wood, 石頭, 石塊 and 石材 stone, 沙子 and
/// 細沙 sand, 泥土 and 泥巴 dirt, 草皮 grass; nothing for any other word.
pub open spec fn gathered_resource(w: Seq<char>) -> Option<GatherResource> {
    if w == "木頭"@ || w == "木材"@ || w == "原木"@ {
        Some(GatherResource::Wood)
    } else if w == "石頭"@ || w == "石塊"@ || w == "石材"@ {
        Some(GatherResource::Stone)
    } else if w == "沙子"@ || w == "細沙"@ {
        Some(GatherResource::Sand)
    } else if w == "泥土"@ || w == "泥巴"@ {
        Some(GatherResource::Dirt)
    } else if w == "草皮"@ {
        Some(GatherResource::Grass)
    } else {
        None
    }
}

/// Every row of the table pairs a word with what that word names, and every word that
/// names something is a row of the table.
proof fn lemma_gathered_resource_table()
    ensures
        forall|i: int| 0 <= i < 11 ==> gathered_resource(#[trigger] material_words()[i]) == Some(material_resources()[i]),
        forall|w: Seq<char>| #[trigger] gathered_resource(w) is Some ==> exists|i: int| 0 <= i < 11 && #[trigger] material_words()[i] == w,
{
    reveal_strlit("木頭");
    reveal_strlit("木材");
    reveal_strlit("原木");
    reveal_strlit("石頭");
    reveal_strlit("石塊");
    reveal_strlit("石材");
    reveal_strlit("沙子");
    reveal_strlit("細沙");
    reveal_strlit("泥土");
    reveal_strlit("泥巴");
    reveal_strlit("草皮");
    assert forall|i: int| 0 <= i < 11 implies gathered_resource(#[trigger] material_words()[i]) == Some(material_resources()[i]) by {
        if i == 0 {
            assert("木頭"@[1] != "木材"@[1]);
            assert("木頭"@[0] != "原木"@[0]);
            assert("木頭"@[0] != "石頭"@[0]);
            assert("木頭"@[0] != "石塊"@[0]);
            assert("木頭"@[0] != "石材"@[0]);
            assert("木頭"@[0] != "沙子"@[0]);
            assert("木頭"@[0] != "細沙"@[0]);
            assert("木頭"@[0] != "泥土"@[0]);
            assert("木頭"@[0] != "泥巴"@[0]);
            assert("木頭"@[0] != "草皮"@[0]);
            assert(gathered_resource("木頭"@) == Some(material_resources()[0]));
        }
        if i == 1 {
            assert("木材"@[1] != "木頭"@[1]);
            assert("木材"@[0] != "原木"@[0]);
            assert("木材"@[0] != "石頭"@[0]);
            assert("木材"@[0] != "石塊"@[0]);
            assert("木材"@[0] != "石材"@[0]);
            assert("木材"@[0] != "沙子"@[0]);
            assert("木材"@[0] != "細沙"@[0]);
            assert("木材"@[0] != "泥土"@[0]);
            assert("木材"@[0] != "泥巴"@[0]);
            assert("木材"@[0] != "草皮"@[0]);
            assert(gathered_resource("木材"@) == Some(material_resources()[1]));
        }
        if i == 2 {
            assert("原木"@[0] != "木頭"@[0]);
            assert("原木"@[0] != "木材"@[0]);
            assert("原木"@[0] != "石頭"@[0]);
            assert("原木"@[0] != "石塊"@[0]);
            assert("原木"@[0] != "石材"@[0]);
            assert("原木"@[0] != "沙子"@[0]);
            assert("原木"@[0] != "細沙"@[0]);
            assert("原木"@[0] != "泥土"@[0]);
            assert("原木"@[0] != "泥巴"@[0]);
            assert("原木"@[0] != "草皮"@[0]);
            assert(gathered_resource("原木"@) == Some(material_resources()[2]));
        }
        if i == 3 {
            assert("石頭"@[0] != "木頭"@[0]);
            assert("石頭"@[0] != "木材"@[0]);
            assert("石頭"@[0] != "原木"@[0]);
            assert("石頭"@[1] != "石塊"@[1]);
            assert("石頭"@[1] != "石材"@[1]);
            assert("石頭"@[0] != "沙子"@[0]);
            assert("石頭"@[0] != "細沙"@[0]);
            assert("石頭"@[0] != "泥土"@[0]);
            assert("石頭"@[0] != "泥巴"@[0]);
            assert("石頭"@[0] != "草皮"@[0]);
            assert(gathered_resource("石頭"@) == Some(material_resources()[3]));
        }
        if i == 4 {
            assert("石塊"@[0] != "木頭"@[0]);
            assert("石塊"@[0] != "木材"@[0]);
            assert("石塊"@[0] != "原木"@[0]);
            assert("石塊"@[1] != "石頭"@[1]);
            assert("石塊"@[1] != "石材"@[1]);
            assert("石塊"@[0] != "沙子"@[0]);
            assert("石塊"@[0] != "細沙"@[0]);
            assert("石塊"@[0] != "泥土"@[0]);
            assert("石塊"@[0] != "泥巴"@[0]);
            assert("石塊"@[0] != "草皮"@[0]);
            assert(gathered_resource("石塊"@) == Some(material_resources()[4]));
        }
        if i == 5 {
            assert("石材"@[0] != "木頭"@[0]);
            assert("石材"@[0] != "木材"@[0]);
            assert("石材"@[0] != "原木"@[0]);
            assert("石材"@[1] != "石頭"@[1]);
            assert("石材"@[1] != "石塊"@[1]);
            assert("石材"@[0] != "沙子"@[0]);
            assert("石材"@[0] != "細沙"@[0]);
            assert("石材"@[0] != "泥土"@[0]);
            assert("石材"@[0] != "泥巴"@[0]);
            assert("石材"@[0] != "草皮"@[0]);
            assert(gathered_resource("石材"@) == Some(material_resources()[5]));
        }
        if i == 6 {
            assert("沙子"@[0] != "木頭"@[0]);
            assert("沙子"@[0] != "木材"@[0]);
            assert("沙子"@[0] != "原木"@[0]);
            assert("沙子"@[0] != "石頭"@[0]);
            assert("沙子"@[0] != "石塊"@[0]);
            assert("沙子"@[0] != "石材"@[0]);
            assert("沙子"@[0] != "細沙"@[0]);
            assert("沙子"@[0] != "泥土"@[0]);
            assert("沙子"@[0] != "泥巴"@[0]);
            assert("沙子"@[0] != "草皮"@[0]);
            assert(gathered_resource("沙子"@) == Some(material_resources()[6]));
        }
        if i == 7 {
            assert("細沙"@[0] != "木頭"@[0]);
            assert("細沙"@[0] != "木材"@[0]);
            assert("細沙"@[0] != "原木"@[0]);
            assert("細沙"@[0] != "石頭"@[0]);
            assert("細沙"@[0] != "石塊"@[0]);
            assert("細沙"@[0] != "石材"@[0]);
            assert("細沙"@[0] != "沙子"@[0]);
            assert("細沙"@[0] != "泥土"@[0]);
            assert("細沙"@[0] != "泥巴"@[0]);
            assert("細沙"@[0] != "草皮"@[0]);
            assert(gathered_resource("細沙"@) == Some(material_resources()[7]));
        }
        if i == 8 {
            assert("泥土"@[0] != "木頭"@[0]);
            assert("泥土"@[0] != "木材"@[0]);
            assert("泥土"@[0] != "原木"@[0]);
            assert("泥土"@[0] != "石頭"@[0]);
            assert("泥土"@[0] != "石塊"@[0]);
            assert("泥土"@[0] != "石材"@[0]);
            assert("泥土"@[0] != "沙子"@[0]);
            assert("泥土"@[0] != "細沙"@[0]);
            assert("泥土"@[1] != "泥巴"@[1]);
            assert("泥土"@[0] != "草皮"@[0]);
            assert(gathered_resource("泥土"@) == Some(material_resources()[8]));
        }
        if i == 9 {
            assert("泥巴"@[0] != "木頭"@[0]);
            assert("泥巴"@[0] != "木材"@[0]);
            assert("泥巴"@[0] != "原木"@[0]);
            assert("泥巴"@[0] != "石頭"@[0]);
            assert("泥巴"@[0] != "石塊"@[0]);
            assert("泥巴"@[0] != "石材"@[0]);
            assert("泥巴"@[0] != "沙子"@[0]);
            assert("泥巴"@[0] != "細沙"@[0]);
            assert("泥巴"@[1] != "泥土"@[1]);
            assert("泥巴"@[0] != "草皮"@[0]);
            assert(gathered_resource("泥巴"@) == Some(material_resources()[9]));
        }
        if i == 10 {
            assert("草皮"@[0] != "木頭"@[0]);
            assert("草皮"@[0] != "木材"@[0]);
            assert("草皮"@[0] != "原木"@[0]);
            assert("草皮"@[0] != "石頭"@[0]);
            assert("草皮"@[0] != "石塊"@[0]);
            assert("草皮"@[0] != "石材"@[0]);
            assert("草皮"@[0] != "沙子"@[0]);
            assert("草皮"@[0] != "細沙"@[0]);
            assert("草皮"@[0] != "泥土"@[0]);
            assert("草皮"@[0] != "泥巴"@[0]);
            assert(gathered_resource("草皮"@) == Some(material_resources()[10]));
        }
    }
    assert forall|w: Seq<char>| #[trigger] gathered_resource(w) is Some implies exists|i: int| 0 <= i < 11 && #[trigger] material_words()[i] == w by {
        if w == "木頭"@ {
            assert(material_words()[0] == w);
        }
        if w == "木材"@ {
            assert(material_words()[1] == w);
        }
        if w == "原木"@ {
            assert(material_words()[2] == w);
        }
        if w == "石頭"@ {
            assert(material_words()[3] == w);
        }
        if w == "石塊"@ {
            assert(material_words()[4] == w);
        }
        if w == "石材"@ {
            assert(material_words()[5] == w);
        }
        if w == "沙子"@ {
            assert(material_words()[6] == w);
        }
        if w == "細沙"@ {
            assert(material_words()[7] == w);
        }
        if w == "泥土"@ {
            assert(material_words()[8] == w);
        }
        if w == "泥巴"@ {
            assert(material_words()[9] == w);
        }
        if w == "草皮"@ {
            assert(material_words()[10] == w);
        }
    }
}

/// The first row from `from` on whose word occurs is one whose word occurs, and there is one
/// whenever some row's word occurs.
proof fn lemma_first_resource_from_found(text: Seq<char>, from: int)
    requires
        0 <= from <= 11,
    ensures
        first_resource_from(text, from) matches Some(v) ==> exists|j: int|
            from <= j < 11 && seq_contains(text, #[trigger] material_words()[j]) && material_resources()[j] == v,
        (exists|j: int| from <= j < 11 && seq_contains(text, #[trigger] material_words()[j])) ==> first_resource_from(text, from) is Some,
    decreases 11 - from,
{
    if from < 11 {
        lemma_first_resource_from_found(text, from + 1);
        if !seq_contains(text, material_words()[from]) {
            if exists|j: int| from <= j < 11 && seq_contains(text, #[trigger] material_words()[j]) {
                let j = choose|j: int| from <= j < 11 && seq_contains(text, #[trigger] material_words()[j]);
                assert(j != from);
            }
        }
    }
}

/// Law: a recognised errand gathers the resource that some material word in the request
/// names.
pub proof fn lemma_errand_resource_is_named(text: Seq<char>)
    ensures
        fetch_command(text) matches Some((r, _)) ==> exists|w: Seq<char>| seq_contains(text, w) && #[trigger] gathered_resource(w) == Some(r),
{
    lemma_gathered_resource_table();
    lemma_first_resource_from_found(text, 0);
    match fetch_command(text) {
        Some((r, _)) => {
            let j = choose|j: int| 0 <= j < 11 && seq_contains(text, #[trigger] material_words()[j]) && material_resources()[j] == r;
            assert(gathered_resource(material_words()[j]) == Some(r));
        },
        None => {},
    }
}

/// Law: a request holding an errand verb and a material word `w`, where every material word
/// it holds names the same resource as `w`, is an errand for the resource `w` names (so
/// "幫我採集原木" gathers wood).
pub proof fn lemma_errand_word_gives_resource(text: Seq<char>, w: Seq<char>)
    requires
        gathered_resource(w) is Some,
        seq_contains(text, w),
        contains_any(text, fetch_verbs()),
        forall|v: Seq<char>| #[trigger] gathered_resource(v) is Some && seq_contains(text, v) ==> gathered_resource(v) == gathered_resource(w),
    ensures
        fetch_command(text) is Some,
        Some(fetch_command(text).unwrap().0) == gathered_resource(w),
{
    lemma_gathered_resource_table();
    let i = choose|i: int| 0 <= i < 11 && #[trigger] material_words()[i] == w;
    assert(seq_contains(text, material_words()[i]));
    lemma_first_resource_from_found(text, 0);
    let r = first_resource_from(text, 0).unwrap();
    let j = choose|j: int| 0 <= j < 11 && seq_contains(text, #[trigger] material_words()[j]) && material_resources()[j] == r;
    assert(gathered_resource(material_words()[j]) == Some(material_resources()[j]));
}

} // verus!
