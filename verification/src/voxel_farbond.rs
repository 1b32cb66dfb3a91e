//! Longing across villages: a resident thinks of the old friend who moved to another
//! settlement, says so, keeps it as a memory, and the feed tells of it; a per-resident
//! clock keeps such moments rare and counts them.

use vstd::prelude::*;
use crate::assoc::{keys_unique, has_key, get, lemma_get_at, lemma_update_value, lemma_push_fresh, find_key};
use crate::strset::{lex_lt, lemma_lex_total, lemma_lex_trans, str_lt};
use crate::text::{take_upto, truncate_chars, cat, cat3, cat5};

verus! {

/// Seconds between two longings of one resident.
pub const FARBOND_MIN_INTERVAL_SECS: u64 = 5400;
/// Longest bubble, in characters.
pub const SAY_MAX_CHARS: usize = 50;
/// Feed category of a longing.
pub const FEED_KIND: &'static str = "兩村相思";

/// An old friend and the settlement she lives in now, with how often the two met.
#[derive(Debug, PartialEq)]
pub struct FarFriend {
    pub name: String,
    pub settlement: u64,
    pub visits: u32,
}

impl Clone for FarFriend {
    fn clone(&self) -> (r: Self)
        ensures
            r == *self,
    {
        FarFriend { name: self.name.clone(), settlement: self.settlement, visits: self.visits }
    }
}

/// Whether friend `a` is missed more than `b`: more visits, or as many and a name that
/// comes first.
pub open spec fn beats(a: FarFriend, b: FarFriend) -> bool {
    a.visits > b.visits || (a.visits == b.visits && lex_lt(a.name@, b.name@))
}

/// Whether `f` is the friend picked from `friends` by a resident of `my_settlement`: a
/// friend living elsewhere whom no earlier such friend beats and who beats every later one.
pub open spec fn picks_at(my_settlement: u64, friends: Seq<FarFriend>, f: FarFriend) -> bool {
    exists|i: int|
        0 <= i < friends.len() && friends[i] == f && f.settlement != my_settlement && (forall|j: int|
            0 <= j < friends.len() && j != i && (#[trigger] friends[j]).settlement != my_settlement ==> (
            if j < i {
                !beats(friends[j], f)
            } else {
                beats(f, friends[j])
            }))
}

/// Law: the pick does not depend on the order of the friends. From two lists holding the
/// same friends, the friends picked have the same name and the same number of visits.
pub proof fn lemma_pick_ignores_order(
    my_settlement: u64,
    a: Seq<FarFriend>,
    b: Seq<FarFriend>,
    fa: FarFriend,
    fb: FarFriend,
)
    requires
        forall|x: FarFriend| a.contains(x) <==> b.contains(x),
        picks_at(my_settlement, a, fa),
        picks_at(my_settlement, b, fb),
    ensures
        fa.name@ == fb.name@,
        fa.visits == fb.visits,
{
    let ia = choose|i: int|
        0 <= i < a.len() && a[i] == fa && fa.settlement != my_settlement && (forall|j: int|
            0 <= j < a.len() && j != i && (#[trigger] a[j]).settlement != my_settlement ==> (
            if j < i { !beats(a[j], fa) } else { beats(fa, a[j]) }));
    let ib = choose|i: int|
        0 <= i < b.len() && b[i] == fb && fb.settlement != my_settlement && (forall|j: int|
            0 <= j < b.len() && j != i && (#[trigger] b[j]).settlement != my_settlement ==> (
            if j < i { !beats(b[j], fb) } else { beats(fb, b[j]) }));
    lemma_lex_total(fa.name@, fb.name@);
    lemma_lex_total(fb.name@, fa.name@);
    assert(b.contains(fb));
    assert(a.contains(fb));
    let ja = choose|j: int| 0 <= j < a.len() && a[j] == fb;
    assert(a.contains(fa));
    assert(b.contains(fa));
    let jb = choose|j: int| 0 <= j < b.len() && b[j] == fa;
    // Nobody in a list beats the friend picked from it.
    assert(!beats(fb, fa)) by {
        if ja != ia {
            assert(a[ja].settlement != my_settlement);
        } else {
            lemma_lex_total(fa.name@, fa.name@);
        }
    }
    assert(!beats(fa, fb)) by {
        if jb != ib {
            assert(b[jb].settlement != my_settlement);
        } else {
            lemma_lex_total(fb.name@, fb.name@);
        }
    }
}

/// The friend a resident of `my_settlement` misses most: among friends living elsewhere, the
/// one with most visits, ties going to the name that comes first (and, for friends alike in
/// both, to the later one in the list); `None` when every friend lives in the same settlement.
pub fn pick_missed_friend(my_settlement: u64, friends: &[FarFriend]) -> (r: Option<&FarFriend>)
    ensures
        match r {
            Some(f) => picks_at(my_settlement, friends@, *f),
            None => forall|j: int| 0 <= j < friends@.len() ==> (#[trigger] friends@[j]).settlement == my_settlement,
        },
{
    let mut best: Option<usize> = None;
    let mut i: usize = 0;
    while i < friends.len()
        invariant
            i <= friends@.len(),
            match best {
                Some(b) => b < i && friends@[b as int].settlement != my_settlement && (forall|j: int|
                    0 <= j < i && j != b && (#[trigger] friends@[j]).settlement != my_settlement ==> (
                    if j < b {
                        !beats(friends@[j], friends@[b as int])
                    } else {
                        beats(friends@[b as int], friends@[j])
                    })),
                None => forall|j: int| 0 <= j < i ==> (#[trigger] friends@[j]).settlement == my_settlement,
            },
        decreases friends@.len() - i,
    {
        if friends[i].settlement != my_settlement {
            match best {
                Some(b) => {
                    let cur_beats = friends[b].visits > friends[i].visits || (friends[b].visits == friends[i].visits
                        && str_lt(friends[b].name.as_str(), friends[i].name.as_str()));
                    if !cur_beats {
                        proof {
                            let fb = friends@[b as int];
                            let fi = friends@[i as int];
                            assert forall|j: int|
                                0 <= j < i + 1 && j != i && (#[trigger] friends@[j]).settlement != my_settlement implies !beats(friends@[j], fi) by {
                                let fj = friends@[j];
                                if j == b as int {
                                } else if j < b {
                                    // fj does not beat fb, and fb does not beat fi.
                                    if beats(fj, fi) {
                                        lemma_lex_total(fj.name@, fb.name@);
                                        lemma_lex_total(fb.name@, fi.name@);
                                        if fj.visits == fb.visits && fb.visits == fi.visits {
                                            if lex_lt(fj.name@, fi.name@) {
                                                if fb.name@ != fi.name@ {
                                                    lemma_lex_trans(fi.name@, fb.name@, fj.name@);
                                                    lemma_lex_total(fi.name@, fj.name@);
                                                }
                                            }
                                        }
                                    }
                                } else {
                                    // fb beats fj, and fb does not beat fi.
                                    if beats(fj, fi) {
                                        lemma_lex_total(fb.name@, fi.name@);
                                        if fb.visits == fj.visits && fj.visits == fi.visits {
                                            lemma_lex_trans(fb.name@, fj.name@, fi.name@);
                                        }
                                    }
                                }
                            }
                        }
                        best = Some(i);
                    }
                },
                None => {
                    best = Some(i);
                },
            }
        }
        i = i + 1;
    }
    match best {
        Some(b) => Some(&friends[b]),
        None => None,
    }
}

/// The three longing bubbles.
pub open spec fn farbond_template(friend: Seq<char>, place: Seq<char>, k: int) -> Seq<char> {
    if k == 0 {
        "不知道搬去「"@ + place + "」的"@ + friend + "過得好不好……"@
    } else if k == 1 {
        "好一陣子沒見到"@ + friend + "了，「"@ + place + "」離這兒可真遠。"@
    } else {
        friend + "在「"@ + place + "」還好嗎？隔著兩座村，也還是會想起。"@
    }
}

/// A resident's longing for a friend now living in `place`, chosen by `pick` and cut to
/// [`SAY_MAX_CHARS`] characters.
pub fn farbond_say_line(friend: &str, place: &str, pick: usize) -> (r: String)
    ensures
        r@ == take_upto(farbond_template(friend@, place@, (pick % 3) as int), SAY_MAX_CHARS as int),
{
    let k = pick % 3;
    let line = if k == 0 {
        let mut s = cat5("不知道搬去「", place, "」的", friend, "過得好不好……");
        s
    } else if k == 1 {
        cat5("好一陣子沒見到", friend, "了，「", place, "」離這兒可真遠。")
    } else {
        let mut s = cat3(friend, "在「", place);
        s.append("」還好嗎？隔著兩座村，也還是會想起。");
        s
    };
    truncate_chars(line.as_str(), SAY_MAX_CHARS)
}

/// The memory a longing leaves, naming the friend and her settlement.
pub fn farbond_memory_summary(friend: &str, place: &str) -> (r: String)
    ensures
        r@ == "🏘️"@ + friend@ + "搬去了「"@ + place@ + "」，隔著兩座村，我還是常常想起這位老朋友。"@,
{
    cat5("🏘️", friend, "搬去了「", place, "」，隔著兩座村，我還是常常想起這位老朋友。")
}

/// The feed detail of a longing.
pub fn farbond_feed_detail(friend: &str, place: &str) -> (r: String)
    ensures
        r@ == "望著遠方，念叨起搬去「"@ + place@ + "」的老朋友"@ + friend@ + "——兩村相隔，也還惦記著這份情誼"@,
{
    cat5("望著遠方，念叨起搬去「", place, "」的老朋友", friend, "——兩村相隔，也還惦記著這份情誼")
}

/// Each resident's last longing time and how many longings she has had.
#[derive(Debug)]
pub struct FarBondClock {
    last: Vec<(String, (u64, u32))>,
}

impl FarBondClock {
    /// The (last time, count) of a resident, if she has longed before.
    pub closed spec fn entry(&self, rid: Seq<char>) -> Option<(u64, u32)> {
        get(self.last@, rid)
    }

    /// How many residents the clock holds.
    pub closed spec fn size(&self) -> nat {
        self.last@.len()
    }

    /// One entry per resident.
    pub closed spec fn wf(&self) -> bool {
        keys_unique(self.last@)
    }

    /// A clock that has seen no longing.
    pub fn new() -> (c: Self)
        ensures
            c.wf(),
            c.size() == 0,
            forall|rid: Seq<char>| c.entry(rid) == None::<(u64, u32)>,
    {
        FarBondClock { last: Vec::new() }
    }

    /// Whether a resident may long again: she never has, or at least
    /// [`FARBOND_MIN_INTERVAL_SECS`] have passed (a clock running backwards counts as none).
    pub fn due(&self, resident_id: &str, now: u64) -> (b: bool)
        requires
            self.wf(),
        ensures
            b == match self.entry(resident_id@) {
                None => true,
                Some((last, _)) => now >= last && now - last >= FARBOND_MIN_INTERVAL_SECS,
            },
    {
        match find_key(&self.last, resident_id) {
            None => true,
            Some(i) => {
                proof {
                    lemma_get_at(self.last@, i as int);
                }
                let last = self.last[i].1.0;
                let passed = if now >= last { now - last } else { 0 };
                passed >= FARBOND_MIN_INTERVAL_SECS
            },
        }
    }

    /// Records a longing at `now`: the resident's time becomes `now` and her count goes up
    /// by one (saturating; a first longing counts one).
    pub fn mark(&mut self, resident_id: &str, now: u64)
        requires
            old(self).wf(),
        ensures
            final(self).wf(),
            final(self).entry(resident_id@) == Some((now, match old(self).entry(resident_id@) {
                None => 1u32,
                Some((_, n)) => if n == u32::MAX { n } else { (n + 1) as u32 },
            })),
            forall|rid: Seq<char>| rid != resident_id@ ==> #[trigger] final(self).entry(rid) == old(self).entry(rid),
            final(self).size() == old(self).size() + if old(self).entry(resident_id@) is None { 1int } else { 0int },
    {
        match find_key(&self.last, resident_id) {
            Some(i) => {
                proof {
                    lemma_get_at(self.last@, i as int);
                }
                let n = self.last[i].1.1;
                let n2 = if n == u32::MAX { n } else { n + 1 };
                let ghost before = self.last@;
                self.last[i].1 = (now, n2);
                proof {
                    assert(self.last@ == before.update(i as int, (before[i as int].0, (now, n2))));
                    lemma_update_value(before, i as int, (now, n2));
                }
            },
            None => {
                let ghost before = self.last@;
                let key = String::from_str(resident_id);
                self.last.push((key, (now, 1)));
                proof {
                    lemma_push_fresh(before, key, (now, 1u32));
                }
            },
        }
    }

    /// How many longings a resident has had (zero when none).
    pub fn miss_count(&self, resident_id: &str) -> (n: u32)
        requires
            self.wf(),
        ensures
            n == match self.entry(resident_id@) {
                None => 0u32,
                Some((_, c)) => c,
            },
    {
        match find_key(&self.last, resident_id) {
            None => 0,
            Some(i) => {
                proof {
                    lemma_get_at(self.last@, i as int);
                }
                self.last[i].1.1
            },
        }
    }

    /// Sets a resident's count back to zero, keeping her last time; nothing for a resident
    /// the clock does not hold.
    pub fn reset_count(&mut self, resident_id: &str)
        requires
            old(self).wf(),
        ensures
            final(self).wf(),
            final(self).size() == old(self).size(),
            final(self).entry(resident_id@) == match old(self).entry(resident_id@) {
                None => None,
                Some((t, _)) => Some((t, 0u32)),
            },
            forall|rid: Seq<char>| rid != resident_id@ ==> #[trigger] final(self).entry(rid) == old(self).entry(rid),
    {
        match find_key(&self.last, resident_id) {
            Some(i) => {
                proof {
                    lemma_get_at(self.last@, i as int);
                }
                let t = self.last[i].1.0;
                let ghost before = self.last@;
                self.last[i].1 = (t, 0);
                proof {
                    assert(self.last@ == before.update(i as int, (before[i as int].0, (t, 0u32))));
                    lemma_update_value(before, i as int, (t, 0u32));
                }
            },
            None => {},
        }
    }

    /// How many residents the clock holds.
    pub fn len(&self) -> (n: usize)
        ensures
            n == self.size(),
    {
        self.last.len()
    }

    /// Whether the clock holds no resident.
    pub fn is_empty(&self) -> (b: bool)
        ensures
            b == (self.size() == 0),
    {
        self.last.len() == 0
    }
}


/// Whether a clock lets `resident_id` long again at `now`, as [`FarBondClock::due`] tells.
pub open spec fn due_at(c: FarBondClock, resident_id: Seq<char>, now: u64) -> bool {
    match c.entry(resident_id) {
        None => true,
        Some((last, _)) => now >= last && now - last >= FARBOND_MIN_INTERVAL_SECS,
    }
}

/// Law: once [`FarBondClock::mark`] records a longing at `now`, that resident is not due
/// again at any time from `now` until [`FARBOND_MIN_INTERVAL_SECS`] have passed, and is
/// due from then on; every other resident is due exactly when she was before.
pub proof fn lemma_mark_then_due(before: FarBondClock, after: FarBondClock, resident_id: Seq<char>, now: u64, count: u32)
    requires
        after.entry(resident_id) == Some((now, count)),
        forall|rid: Seq<char>| rid != resident_id ==> #[trigger] after.entry(rid) == before.entry(rid),
    ensures
        forall|t: u64| now <= t && t < now + FARBOND_MIN_INTERVAL_SECS ==> !#[trigger] due_at(after, resident_id, t),
        forall|t: u64| t >= now + FARBOND_MIN_INTERVAL_SECS ==> #[trigger] due_at(after, resident_id, t),
        forall|rid: Seq<char>, t: u64| rid != resident_id ==> #[trigger] due_at(after, rid, t) == due_at(before, rid, t),
{
}

} // verus!
