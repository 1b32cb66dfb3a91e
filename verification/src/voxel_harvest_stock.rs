//! Autumn stockpiling: in autumn residents put by more of their spare goods for the winter,
//! say so, and the first stockpiling of each autumn is announced once in the feed.

use vstd::prelude::*;
use crate::text::{dec, dec_string, replace_all, replace_str, take_upto, truncate_chars, views};

verus! {

/// The feed's name for this kind of event.
pub const FEED_KIND: &'static str = "秋收囤糧";

/// The feed line of the first stockpiling of an autumn.
pub const FIRST_STOCKPILE_FEED: &'static str = "秋收到了，居民開始為過冬囤糧，村裡的箱子一天天豐盛起來。";

/// Longest stockpiling bubble, in characters.
pub const STOCKPILE_SAY_MAX_CHARS: usize = 40;

/// The three stockpiling bubbles, with {i} for the item and {q} for the amount.
pub open spec fn stockpile_frames() -> Seq<Seq<char>> {
    seq![
        "秋收了，趁現在多囤{q}份{i}進箱子，好過冬。"@,
        "天涼了，存{q}份{i}備著——冬天可就靠這些了。"@,
        "趁收成的時節，把{q}份{i}存進箱子囤著過冬。"@,
    ]
}

/// A resident's bubble on putting goods by for winter: frame `pick % 3` with the item and
/// then the amount filled in, cut to [`STOCKPILE_SAY_MAX_CHARS`] characters.
pub fn stockpile_bubble(item_name: &str, qty: u32, pick: usize) -> (r: String)
    ensures
        r@ == take_upto(
            replace_all(replace_all(stockpile_frames()[(pick % 3) as int], "{i}"@, item_name@), "{q}"@, dec(qty as nat)),
            STOCKPILE_SAY_MAX_CHARS as int,
        ),
        r@.len() <= STOCKPILE_SAY_MAX_CHARS,
{
    let frames: [&str; 3] = [
        "秋收了，趁現在多囤{q}份{i}進箱子，好過冬。",
        "天涼了，存{q}份{i}備著——冬天可就靠這些了。",
        "趁收成的時節，把{q}份{i}存進箱子囤著過冬。",
    ];
    proof {
        assert(views(frames@) =~= stockpile_frames());
        assert(views(frames@)[(pick % 3) as int] == frames@[(pick % 3) as int]@);
        reveal_strlit("{i}");
        reveal_strlit("{q}");
    }
    let a = replace_str(frames[pick % 3], "{i}", item_name);
    let q = dec_string(qty as u64);
    let b = replace_str(a.as_str(), "{q}", q.as_str());
    truncate_chars(b.as_str(), STOCKPILE_SAY_MAX_CHARS)
}

/// The feed line of a resident putting goods by for winter.
pub fn stockpile_feed_line(resident_name: &str, item_name: &str, qty: u32) -> (r: String)
    ensures
        r@ == resident_name@ + "為過冬把"@ + dec(qty as nat) + "份"@ + item_name@ + "囤進了村裡的箱子"@,
{
    let mut s = crate::text::cat(resident_name, "為過冬把");
    crate::text::push_dec(&mut s, qty as u64);
    s.append("份");
    s.append(item_name);
    s.append("囤進了村裡的箱子");
    s
}

/// Whether the first stockpiling of the current autumn has been announced.
pub struct AutumnStockTracker {
    announced: bool,
}

impl AutumnStockTracker {
    /// Whether this autumn's first stockpiling has been announced.
    pub closed spec fn announced(self) -> bool {
        self.announced
    }

    /// Nothing announced yet.
    pub fn new() -> (t: Self)
        ensures
            !t.announced(),
    {
        AutumnStockTracker { announced: false }
    }

    /// Told every tick whether it is autumn: outside autumn the announcement is forgotten,
    /// so the next autumn is announced again.
    pub fn sync_season(&mut self, is_autumn: bool)
        ensures
            final(self).announced() == (old(self).announced() && is_autumn),
    {
        if !is_autumn {
            self.announced = false;
        }
    }

    /// Called on each successful autumn stockpiling: true the first time in an autumn only.
    pub fn claim_first(&mut self) -> (first: bool)
        ensures
            first == !old(self).announced(),
            final(self).announced(),
    {
        if self.announced {
            false
        } else {
            self.announced = true;
            true
        }
    }
}

impl Default for AutumnStockTracker {
    fn default() -> (t: Self)
        ensures
            !t.announced(),
    {
        AutumnStockTracker::new()
    }
}

/// Law: once per autumn. After a claim and a tick told the season, the next claim
/// succeeds exactly when the season was not autumn.
pub proof fn lemma_one_announcement_per_autumn(
    after_claim: AutumnStockTracker,
    synced: AutumnStockTracker,
    is_autumn: bool,
    second: bool,
)
    requires
        after_claim.announced(),
        synced.announced() == (after_claim.announced() && is_autumn),
        second == !synced.announced(),
    ensures
        second == !is_autumn,
{
}


/// Whether the tracker has announced, after one call: `None` is a successful stockpiling
/// ([`AutumnStockTracker::claim_first`]), `Some(a)` a tick told whether it is autumn
/// ([`AutumnStockTracker::sync_season`]).
pub open spec fn announced_after(announced: bool, call: Option<bool>) -> bool {
    match call {
        None => true,
        Some(is_autumn) => announced && is_autumn,
    }
}

/// How many of the stockpilings in a run of calls are announced as the first of their
/// autumn, starting from `announced`.
pub open spec fn firsts_in(announced: bool, calls: Seq<Option<bool>>) -> nat
    decreases calls.len(),
{
    if calls.len() == 0 {
        0
    } else {
        (if calls[0] is None && !announced { 1nat } else { 0nat }) + firsts_in(
            announced_after(announced, calls[0]),
            calls.drop_first(),
        )
    }
}

/// Law: within one autumn (a run of calls whose ticks all say autumn), at most one
/// stockpiling is announced as the first, none once the autumn's first was announced, and
/// exactly one when none had been and some stockpiling happens.
pub proof fn lemma_first_once_per_autumn(announced: bool, calls: Seq<Option<bool>>)
    requires
        forall|i: int| 0 <= i < calls.len() ==> #[trigger] calls[i] != Some(false),
    ensures
        firsts_in(announced, calls) <= 1,
        announced ==> firsts_in(announced, calls) == 0,
        !announced && (exists|i: int| 0 <= i < calls.len() && #[trigger] calls[i] is None) ==> firsts_in(announced, calls) == 1,
    decreases calls.len(),
{
    if calls.len() > 0 {
        let rest = calls.drop_first();
        assert forall|i: int| 0 <= i < rest.len() implies #[trigger] rest[i] != Some(false) by {
            assert(rest[i] == calls[i + 1]);
        }
        lemma_first_once_per_autumn(announced_after(announced, calls[0]), rest);
        if !announced && calls[0] is Some {
            if exists|i: int| 0 <= i < calls.len() && #[trigger] calls[i] is None {
                let i = choose|i: int| 0 <= i < calls.len() && #[trigger] calls[i] is None;
                assert(i > 0);
                assert(rest[i - 1] is None);
            }
        }
    }
}

} // verus!
