//! Lean years: now and then the village enters a famine window in which residents grow
//! hungry faster; it lasts a fixed number of checks and is followed by a long cooldown.

use vstd::prelude::*;
use crate::text::{dec, push_dec, cat, cat3, cat5};

verus! {

/// Feed category of a famine.
pub const FEED_KIND: &'static str = "荒年";
/// Checks a famine lasts.
pub const FAMINE_DURATION_TICKS: u32 = 8;
/// Checks of forced calm after a famine.
pub const FAMINE_COOLDOWN_TICKS: u32 = 240;

/// The famine state: checks of famine left, and checks of cooldown left.
#[derive(Clone, Copy, Debug, PartialEq, Eq, Structural)]
pub struct FamineTick {
    pub remaining: u32,
    pub cooldown: u32,
}

impl Default for FamineTick {
    fn default() -> (r: Self)
        ensures
            r.remaining == 0 && r.cooldown == 0,
    {
        FamineTick { remaining: 0, cooldown: 0 }
    }
}

impl FamineTick {
    /// Whether a famine is under way.
    pub fn is_active(&self) -> (b: bool)
        ensures
            b == (self.remaining > 0),
    {
        self.remaining > 0
    }
}

/// What happened in one check.
#[derive(Clone, Copy, Debug, PartialEq, Eq, Structural)]
pub enum FamineEvent {
    NoChange,
    Started,
    Ended,
}

/// One check of the famine state machine, given whether this check's roll hit the trigger
/// chance: a famine counts down and turns into the full cooldown when it runs out; a
/// cooldown counts down; a calm village starts a famine of the full length when the roll hit.
pub fn advance_famine(prev: FamineTick, triggered: bool) -> (r: (FamineTick, FamineEvent))
    ensures
        prev.remaining > 1 ==> r == (FamineTick { remaining: (prev.remaining - 1) as u32, cooldown: 0 }, FamineEvent::NoChange),
        prev.remaining == 1 ==> r == (FamineTick { remaining: 0, cooldown: FAMINE_COOLDOWN_TICKS }, FamineEvent::Ended),
        prev.remaining == 0 && prev.cooldown > 0 ==> r == (FamineTick { remaining: 0, cooldown: (prev.cooldown - 1) as u32 }, FamineEvent::NoChange),
        prev.remaining == 0 && prev.cooldown == 0 && triggered ==> r == (FamineTick { remaining: FAMINE_DURATION_TICKS, cooldown: 0 }, FamineEvent::Started),
        prev.remaining == 0 && prev.cooldown == 0 && !triggered ==> r == (FamineTick { remaining: 0, cooldown: 0 }, FamineEvent::NoChange),
        r.0.remaining == 0 || r.0.cooldown == 0,
{
    if prev.remaining > 0 {
        let remaining = prev.remaining - 1;
        if remaining == 0 {
            return (FamineTick { remaining: 0, cooldown: FAMINE_COOLDOWN_TICKS }, FamineEvent::Ended);
        }
        return (FamineTick { remaining, cooldown: 0 }, FamineEvent::NoChange);
    }
    if prev.cooldown > 0 {
        return (FamineTick { remaining: 0, cooldown: prev.cooldown - 1 }, FamineEvent::NoChange);
    }
    if triggered {
        return (FamineTick { remaining: FAMINE_DURATION_TICKS, cooldown: 0 }, FamineEvent::Started);
    }
    (FamineTick { remaining: 0, cooldown: 0 }, FamineEvent::NoChange)
}

/// The state after `n` checks from `t` in which the roll never hit.
pub open spec fn run_quiet(t: FamineTick, n: nat) -> FamineTick
    decreases n,
{
    if n == 0 {
        t
    } else {
        let next = if t.remaining > 1 {
            FamineTick { remaining: (t.remaining - 1) as u32, cooldown: 0 }
        } else if t.remaining == 1 {
            FamineTick { remaining: 0, cooldown: FAMINE_COOLDOWN_TICKS }
        } else if t.cooldown > 0 {
            FamineTick { remaining: 0, cooldown: (t.cooldown - 1) as u32 }
        } else {
            t
        };
        run_quiet(next, (n - 1) as nat)
    }
}

/// A famine that has just started lasts exactly [`FAMINE_DURATION_TICKS`] checks and then
/// leaves the village in a cooldown during which no famine can start for
/// [`FAMINE_COOLDOWN_TICKS`] checks, whatever the rolls: after the famine's checks the state
/// is the full cooldown, and a cooldown of `c` checks is calm again after exactly `c` checks.
pub proof fn lemma_famine_then_cooldown(c: u32)
    ensures
        run_quiet(FamineTick { remaining: FAMINE_DURATION_TICKS, cooldown: 0 }, FAMINE_DURATION_TICKS as nat)
            == (FamineTick { remaining: 0, cooldown: FAMINE_COOLDOWN_TICKS }),
        run_quiet(FamineTick { remaining: 0, cooldown: c }, c as nat) == (FamineTick { remaining: 0, cooldown: 0 }),
{
    lemma_countdown(FAMINE_DURATION_TICKS);
    lemma_cooldown_countdown(c);
}

proof fn lemma_countdown(k: u32)
    requires
        k >= 1,
    ensures
        run_quiet(FamineTick { remaining: k, cooldown: 0 }, k as nat) == (FamineTick { remaining: 0, cooldown: FAMINE_COOLDOWN_TICKS }),
    decreases k,
{
    if k > 1 {
        lemma_countdown((k - 1) as u32);
    } else {
        assert(run_quiet(FamineTick { remaining: 0, cooldown: FAMINE_COOLDOWN_TICKS }, 0) == FamineTick { remaining: 0, cooldown: FAMINE_COOLDOWN_TICKS });
    }
}

proof fn lemma_cooldown_countdown(c: u32)
    ensures
        run_quiet(FamineTick { remaining: 0, cooldown: c }, c as nat) == (FamineTick { remaining: 0, cooldown: 0 }),
    decreases c,
{
    if c > 0 {
        lemma_cooldown_countdown((c - 1) as u32);
    }
}

/// What residents say when a famine starts.
pub open spec fn start_pool() -> Seq<Seq<char>> {
    seq![
        "今年的收成看起來不太好呢…最近得省著點吃了。"@,
        "唉，這陣子田裡的東西長得特別慢，先把存糧看緊點吧。"@,
        "聽說最近日子要緊一點了，大家互相照應著點囉。"@,
        "這光景不太妙…不過撐一撐總會過去的。"@,
    ]
}

/// A resident's words at the start of a famine, chosen by `pick`.
pub fn famine_start_say_line(pick: usize) -> (r: &'static str)
    ensures
        r@ == start_pool()[(pick % 4) as int],
{
    let pool: [&'static str; 4] = [
        "今年的收成看起來不太好呢…最近得省著點吃了。",
        "唉，這陣子田裡的東西長得特別慢，先把存糧看緊點吧。",
        "聽說最近日子要緊一點了，大家互相照應著點囉。",
        "這光景不太妙…不過撐一撐總會過去的。",
    ];
    proof {
        assert(crate::text::views(pool@) =~= start_pool());
        assert(crate::text::views(pool@)[(pick % 4) as int] == pool@[(pick % 4) as int]@);
    }
    pool[pick % 4]
}

/// What residents say when a famine ends.
pub open spec fn end_pool() -> Seq<Seq<char>> {
    seq![
        "總算熬過去了，鬆了好大一口氣。"@,
        "這陣子總算撐過來了，日子又寬鬆了些。"@,
        "呼…緊巴巴的日子過去啦，謝天謝地。"@,
        "熬過來了呢，感覺又能好好過日子了。"@,
    ]
}

/// A resident's words at the end of a famine, chosen by `pick`.
pub fn famine_end_say_line(pick: usize) -> (r: &'static str)
    ensures
        r@ == end_pool()[(pick % 4) as int],
{
    let pool: [&'static str; 4] = [
        "總算熬過去了，鬆了好大一口氣。",
        "這陣子總算撐過來了，日子又寬鬆了些。",
        "呼…緊巴巴的日子過去啦，謝天謝地。",
        "熬過來了呢，感覺又能好好過日子了。",
    ];
    proof {
        assert(crate::text::views(pool@) =~= end_pool());
        assert(crate::text::views(pool@)[(pick % 4) as int] == pool@[(pick % 4) as int]@);
    }
    pool[pick % 4]
}

/// The feed summary of a famine starting.
pub fn famine_start_feed_detail() -> (r: &'static str)
    ensures
        r@ == "今年的收成不太好，村里悄悄進入了一段青黃不接的日子——大家的餓意來得比平時更快。"@,
{
    "今年的收成不太好，村里悄悄進入了一段青黃不接的日子——大家的餓意來得比平時更快。"
}

/// The feed summary of a famine ending: how often a player's food saw someone through
/// (when it happened at all) and how many famines the village has now survived.
pub fn famine_end_feed_detail(helped: u32, survived_total: u32) -> (r: String)
    ensures
        helped > 0 ==> r@ == "青黃不接的日子總算過去了——這段日子裡有 "@ + dec(helped as nat)
            + " 次是有人及時送來食物撐過難關。這是村莊第 "@ + dec(survived_total as nat) + " 次熬過荒年。"@,
        helped == 0 ==> r@ == "青黃不接的日子總算過去了，幸好誰都沒真的餓著。這是村莊第 "@ + dec(survived_total as nat)
            + " 次熬過荒年。"@,
{
    if helped > 0 {
        let mut s = String::from_str("青黃不接的日子總算過去了——這段日子裡有 ");
        push_dec(&mut s, helped as u64);
        s.append(" 次是有人及時送來食物撐過難關。這是村莊第 ");
        push_dec(&mut s, survived_total as u64);
        s.append(" 次熬過荒年。");
        s
    } else {
        let mut s = String::from_str("青黃不接的日子總算過去了，幸好誰都沒真的餓著。這是村莊第 ");
        push_dec(&mut s, survived_total as u64);
        s.append(" 次熬過荒年。");
        s
    }
}

/// The memory of being fed by `player` during a famine.
pub fn famine_fed_memory_line(player: &str) -> (r: String)
    ensures
        r@ == "荒年那陣子，是"@ + player@ + "送來食物幫我撐過了難關，這份情我會一直記得。"@,
{
    cat3("荒年那陣子，是", player, "送來食物幫我撐過了難關，這份情我會一直記得。")
}

/// The feed line of `player` feeding resident `rname` during a famine.
pub fn famine_rescue_feed_line(rname: &str, player: &str) -> (r: String)
    ensures
        r@ == "荒年正緊的時候，"@ + player@ + " 送來了食物，幫 "@ + rname@ + " 撐過了這一陣子。"@,
{
    cat5("荒年正緊的時候，", player, " 送來了食物，幫 ", rname, " 撐過了這一陣子。")
}

/// A persisted record: one famine has ended, with how often a player helped.
#[derive(Clone, Copy, Debug)]
pub struct FamineEndedEntry {
    pub helped_count: u32,
}

} // verus!
