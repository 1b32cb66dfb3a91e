//! Home decor: a piece of furniture given to a resident takes its place in her home (a few
//! pieces at most, each kind once), and a resident may long for a piece she saw in a
//! neighbour's home. Displays are kept as an append-only log replayed on start.

use vstd::prelude::*;
use crate::assoc::{keys_unique, has_key, get, lemma_get_at, lemma_push_fresh, lemma_update_value, lemma_remove_at, find_key};
use crate::text::{take_upto, truncate_chars};

verus! {

/// Most pieces one home displays.
pub const DECOR_SLOT_MAX: usize = 3;

/// Longest bubble, in characters.
pub const SAY_MAX_CHARS: usize = 50;

/// Where the display slots lie from the home's anchor, by slot.
pub open spec fn slot_offsets() -> Seq<(i32, i32)> {
    seq![(2i32, 1i32), (-2i32, 1i32), (0i32, -2i32)]
}

/// The offset from the home's anchor of display slot `index` (taken modulo the slots).
pub fn slot_offset(index: usize) -> (r: (i32, i32))
    ensures
        r == slot_offsets()[(index % 3) as int],
{
    let offsets: [(i32, i32); 3] = [(2, 1), (-2, 1), (0, -2)];
    assert(offsets@ =~= slot_offsets());
    offsets[index % 3]
}

/// Whether an item can be displayed: one of the decorative furniture pieces.
pub fn is_decor_item(item_id: u8) -> (b: bool)
    ensures
        b == (item_id == crate::voxel_furniture::CARPET_ID || item_id == crate::voxel_furniture::FLOWERPOT_ID
            || item_id == crate::voxel_furniture::TABLE_ID || item_id == crate::voxel_furniture::BANNER_ID),
{
    crate::voxel_furniture::is_furniture_id(item_id)
}

/// One entry of the display log: a piece put on display in a resident's home.
#[derive(Debug, PartialEq)]
pub struct DecorEntry {
    pub resident: String,
    pub item_id: u8,
    pub seq: u64,
}

/// A home's pieces after one more is offered: unchanged if it is there already or the home
/// is full, else with the piece added last.
pub open spec fn add_rule(pieces: Seq<u8>, item: u8) -> Seq<u8> {
    if pieces.contains(item) || pieces.len() >= DECOR_SLOT_MAX {
        pieces
    } else {
        pieces.push(item)
    }
}

/// The pieces in `resident`'s home after replaying the log.
pub open spec fn replay_pieces(es: Seq<DecorEntry>, resident: Seq<char>) -> Seq<u8>
    decreases es.len(),
{
    if es.len() == 0 {
        Seq::empty()
    } else if es.last().resident@ == resident {
        add_rule(replay_pieces(es.drop_last(), resident), es.last().item_id)
    } else {
        replay_pieces(es.drop_last(), resident)
    }
}

/// One past `s`, wrapping to zero after the largest `u64`.
pub open spec fn after(s: u64) -> u64 {
    if s == u64::MAX { 0 } else { (s + 1) as u64 }
}

/// The next sequence number after replaying the log: it moves past every entry numbered
/// at or above it.
pub open spec fn replay_next(es: Seq<DecorEntry>) -> u64
    decreases es.len(),
{
    if es.len() == 0 {
        0
    } else if es.last().seq >= replay_next(es.drop_last()) {
        after(es.last().seq)
    } else {
        replay_next(es.drop_last())
    }
}

/// The displays of every home and the pieces residents long for.
pub struct DecorStore {
    displayed: Vec<(String, Vec<u8>)>,
    wanted: Vec<(String, u8)>,
    next_seq: u64,
}

/// The pieces stored for `r` in a list of homes (none when absent).
pub open spec fn pieces_in(s: Seq<(String, Vec<u8>)>, r: Seq<char>) -> Seq<u8> {
    match get(s, r) {
        Some(v) => v@,
        None => Seq::empty(),
    }
}

impl DecorStore {
    /// The pieces on display in `resident`'s home, in the order they came.
    pub closed spec fn pieces(self, resident: Seq<char>) -> Seq<u8> {
        pieces_in(self.displayed@, resident)
    }

    /// The piece `resident` longs for, if any.
    pub closed spec fn wish(self, resident: Seq<char>) -> Option<u8> {
        get(self.wanted@, resident)
    }

    /// The sequence number of the next log entry.
    pub closed spec fn next(self) -> u64 {
        self.next_seq
    }

    /// The invariant: one entry per resident in each table.
    pub closed spec fn wf(self) -> bool {
        keys_unique(self.displayed@) && keys_unique(self.wanted@)
    }

    /// Whether the store shows what the log `log` replays to.
    pub open spec fn follows(self, log: Seq<DecorEntry>) -> bool {
        &&& forall|r: Seq<char>| #[trigger] self.pieces(r) == replay_pieces(log, r)
        &&& self.next() == replay_next(log)
    }

    /// Nothing displayed, nothing longed for.
    pub fn new() -> (s: Self)
        ensures
            s.wf(),
            s.next() == 0,
            forall|r: Seq<char>| #[trigger] s.pieces(r) == Seq::<u8>::empty(),
            forall|r: Seq<char>| #[trigger] s.wish(r) is None,
    {
        DecorStore { displayed: Vec::new(), wanted: Vec::new(), next_seq: 0 }
    }

    /// Offers `item_id` to `resident`'s home by the display rules; the pieces list changes
    /// as [`add_rule`] says and nothing else does.
    fn offer(&mut self, resident: String, item_id: u8) -> (added: bool)
        requires
            old(self).wf(),
        ensures
            final(self).wf(),
            added == !(old(self).pieces(resident@).contains(item_id) || old(self).pieces(resident@).len() >= DECOR_SLOT_MAX),
            forall|r: Seq<char>| #[trigger] final(self).pieces(r) == if r == resident@ {
                add_rule(old(self).pieces(r), item_id)
            } else {
                old(self).pieces(r)
            },
            forall|r: Seq<char>| #[trigger] final(self).wish(r) == old(self).wish(r),
            final(self).next() == old(self).next(),
    {
        let ghost before = self.displayed@;
        match find_key(&self.displayed, resident.as_str()) {
            Some(i) => {
                proof {
                    lemma_get_at(before, i as int);
                }
                let mut present = false;
                let mut k: usize = 0;
                while k < self.displayed[i].1.len()
                    invariant
                        self.displayed@ == before,
                        i < before.len(),
                        k <= before[i as int].1@.len(),
                        present == exists|j: int| 0 <= j < k && before[i as int].1@[j] == item_id,
                    decreases before[i as int].1@.len() - k,
                {
                    if self.displayed[i].1[k] == item_id {
                        present = true;
                    }
                    k = k + 1;
                }
                proof {
                    assert(present == before[i as int].1@.contains(item_id));
                }
                if present || self.displayed[i].1.len() >= DECOR_SLOT_MAX {
                    return false;
                }
                let (key, mut list) = self.displayed.remove(i);
                list.push(item_id);
                self.displayed.insert(i, (key, list));
                proof {
                    assert(self.displayed@ =~= before.update(i as int, (before[i as int].0, self.displayed@[i as int].1)));
                    lemma_update_value(before, i as int, self.displayed@[i as int].1);
                }
                true
            },
            None => {
                let mut list: Vec<u8> = Vec::new();
                list.push(item_id);
                self.displayed.push((resident, list));
                proof {
                    lemma_push_fresh(before, self.displayed@.last().0, self.displayed@.last().1);
                    assert(self.displayed@.last().1@ =~= Seq::<u8>::empty().push(item_id));
                }
                true
            },
        }
    }

    /// The store rebuilt from its log by the same rules as [`DecorStore::add_piece`]: each
    /// entry offers its piece, and numbering moves past every entry numbered at or above it.
    /// Nothing is longed for after a restart.
    pub fn from_entries(entries: Vec<DecorEntry>) -> (s: Self)
        ensures
            s.wf(),
            s.follows(entries@),
            forall|r: Seq<char>| #[trigger] s.wish(r) is None,
    {
        let ghost orig = entries@;
        let mut s = DecorStore::new();
        let mut rest = entries;
        let total = rest.len();
        let mut taken: usize = 0;
        while rest.len() > 0
            invariant
                total == orig.len(),
                taken + rest.len() == total,
                rest@ == orig.subrange(taken as int, orig.len() as int),
                s.wf(),
                s.follows(orig.subrange(0, taken as int)),
                forall|r: Seq<char>| #[trigger] s.wish(r) is None,
            decreases rest.len(),
        {
            let e = rest.remove(0);
            let ghost pre = orig.subrange(0, taken as int);
            proof {
                assert(orig.subrange(0, taken + 1).drop_last() =~= pre);
                assert(orig.subrange(0, taken + 1).last() == e);
                assert(rest@ =~= orig.subrange(taken + 1, orig.len() as int));
            }
            let ghost ge = e;
            let ghost s0 = s;
            if e.seq >= s.next_seq {
                s.next_seq = e.seq.wrapping_add(1);
            }
            let ghost s1 = s;
            proof {
                assert(s1.next() == replay_next(orig.subrange(0, taken + 1)));
                assert forall|r: Seq<char>| #[trigger] s1.pieces(r) == s0.pieces(r) by {}
                assert forall|r: Seq<char>| #[trigger] s1.wish(r) == s0.wish(r) by {}
            }
            let DecorEntry { resident, item_id, seq: _ } = e;
            s.offer(resident, item_id);
            proof {
                assert forall|r: Seq<char>| #[trigger] s.pieces(r) == replay_pieces(orig.subrange(0, taken + 1), r) by {
                    assert(s0.pieces(r) == replay_pieces(pre, r));
                }
            }
            taken = taken + 1;
        }
        proof {
            assert(orig.subrange(0, taken as int) =~= orig);
        }
        s
    }

    /// The pieces on display in `resident`'s home, in the order they came.
    pub fn displayed_for(&self, resident: &str) -> (r: &[u8])
        requires
            self.wf(),
        ensures
            r@ == self.pieces(resident@),
    {
        match find_key(&self.displayed, resident) {
            Some(i) => {
                proof {
                    lemma_get_at(self.displayed@, i as int);
                }
                self.displayed[i].1.as_slice()
            },
            None => &[],
        }
    }

    /// Whether `resident`'s home displays `item_id`.
    pub fn has_piece(&self, resident: &str, item_id: u8) -> (b: bool)
        requires
            self.wf(),
        ensures
            b == self.pieces(resident@).contains(item_id),
    {
        let pieces = self.displayed_for(resident);
        let mut k: usize = 0;
        while k < pieces.len()
            invariant
                pieces@ == self.pieces(resident@),
                k <= pieces@.len(),
                forall|j: int| 0 <= j < k ==> pieces@[j] != item_id,
            decreases pieces@.len() - k,
        {
            if pieces[k] == item_id {
                proof {
                    assert(pieces@[k as int] == item_id);
                }
                return true;
            }
            k = k + 1;
        }
        false
    }

    /// Whether `resident`'s home has no free display slot.
    pub fn is_full(&self, resident: &str) -> (b: bool)
        requires
            self.wf(),
        ensures
            b == (self.pieces(resident@).len() >= DECOR_SLOT_MAX),
    {
        self.displayed_for(resident).len() >= DECOR_SLOT_MAX
    }

    /// Puts `item_id` on display in `resident`'s home and returns the log entry; nothing
    /// changes and none is returned when the home already has that piece or is full.
    pub fn add_piece(&mut self, resident: &str, item_id: u8) -> (r: Option<DecorEntry>)
        requires
            old(self).wf(),
        ensures
            final(self).wf(),
            r is None <==> (old(self).pieces(resident@).contains(item_id) || old(self).pieces(resident@).len() >= DECOR_SLOT_MAX),
            r is None ==> *final(self) == *old(self),
            r matches Some(e) ==> {
                &&& e.resident@ == resident@ && e.item_id == item_id && e.seq == old(self).next()
                &&& final(self).next() == after(old(self).next())
                &&& forall|q: Seq<char>| #[trigger] final(self).pieces(q) == if q == resident@ {
                    old(self).pieces(q).push(item_id)
                } else {
                    old(self).pieces(q)
                }
                &&& forall|q: Seq<char>| #[trigger] final(self).wish(q) == old(self).wish(q)
            },
    {
        if self.has_piece(resident, item_id) || self.is_full(resident) {
            return None;
        }
        let ghost s0 = *self;
        self.offer(String::from_str(resident), item_id);
        let ghost s1 = *self;
        let rec = DecorEntry { resident: String::from_str(resident), item_id, seq: self.next_seq };
        self.next_seq = self.next_seq.wrapping_add(1);
        proof {
            assert forall|q: Seq<char>| #[trigger] self.pieces(q) == s1.pieces(q) by {}
            assert forall|q: Seq<char>| #[trigger] self.wish(q) == s1.wish(q) by {}
            assert(self.next() == after(s0.next()));
        }
        Some(rec)
    }

    /// The piece `resident` longs for, if any.
    pub fn wanted_for(&self, resident: &str) -> (r: Option<u8>)
        requires
            self.wf(),
        ensures
            r == self.wish(resident@),
    {
        match find_key(&self.wanted, resident) {
            Some(i) => {
                proof {
                    lemma_get_at(self.wanted@, i as int);
                }
                Some(self.wanted[i].1)
            },
            None => None,
        }
    }

    /// Sets what `resident` longs for; refused (false, nothing changes) when her home has
    /// that piece already or she already longs for it. A new wish replaces the old one.
    pub fn set_wanted(&mut self, resident: &str, item_id: u8) -> (changed: bool)
        requires
            old(self).wf(),
        ensures
            final(self).wf(),
            changed == !(old(self).pieces(resident@).contains(item_id) || old(self).wish(resident@) == Some(item_id)),
            changed ==> forall|q: Seq<char>| #[trigger] final(self).wish(q) == if q == resident@ {
                Some(item_id)
            } else {
                old(self).wish(q)
            },
            !changed ==> *final(self) == *old(self),
            forall|q: Seq<char>| #[trigger] final(self).pieces(q) == old(self).pieces(q),
            final(self).next() == old(self).next(),
    {
        if self.has_piece(resident, item_id) {
            return false;
        }
        if self.wanted_for(resident) == Some(item_id) {
            return false;
        }
        let ghost before = self.wanted@;
        match find_key(&self.wanted, resident) {
            Some(i) => {
                let k = self.wanted.remove(i);
                self.wanted.insert(i, (k.0, item_id));
                proof {
                    assert(self.wanted@ =~= before.update(i as int, (before[i as int].0, item_id)));
                    lemma_update_value(before, i as int, item_id);
                }
            },
            None => {
                self.wanted.push((String::from_str(resident), item_id));
                proof {
                    lemma_push_fresh(before, self.wanted@.last().0, item_id);
                }
            },
        }
        true
    }

    /// Forgets what `resident` longs for.
    pub fn clear_wanted(&mut self, resident: &str)
        requires
            old(self).wf(),
        ensures
            final(self).wf(),
            forall|q: Seq<char>| #[trigger] final(self).wish(q) == if q == resident@ {
                None
            } else {
                old(self).wish(q)
            },
            forall|q: Seq<char>| #[trigger] final(self).pieces(q) == old(self).pieces(q),
            final(self).next() == old(self).next(),
    {
        let ghost before = self.wanted@;
        match find_key(&self.wanted, resident) {
            Some(i) => {
                self.wanted.remove(i);
                proof {
                    lemma_remove_at(before, i as int);
                }
            },
            None => {
                proof {
                    assert forall|q: Seq<char>| #[trigger] get(before, q) == if q == resident@ { None } else { get(before, q) } by {
                        if q == resident@ {
                            assert(!has_key(before, q));
                        }
                    }
                }
            },
        }
    }
}

/// Law: the log says what the homes display. A store that shows what its log replays to
/// still does after [`DecorStore::add_piece`] once the entry it returned is appended, so a
/// restart gives back every home as it was.
pub proof fn lemma_decor_follows_log(before: DecorStore, after_add: DecorStore, log: Seq<DecorEntry>, e: DecorEntry)
    requires
        before.follows(log),
        !(before.pieces(e.resident@).contains(e.item_id) || before.pieces(e.resident@).len() >= DECOR_SLOT_MAX),
        e.seq == before.next(),
        after_add.next() == after(before.next()),
        forall|q: Seq<char>| #[trigger] after_add.pieces(q) == if q == e.resident@ {
            before.pieces(q).push(e.item_id)
        } else {
            before.pieces(q)
        },
    ensures
        after_add.follows(log.push(e)),
{
    assert(log.push(e).drop_last() =~= log);
    assert forall|r: Seq<char>| #[trigger] after_add.pieces(r) == replay_pieces(log.push(e), r) by {
        assert(before.pieces(r) == replay_pieces(log, r));
    }
}

/// The three texts of [`display_thanks_line`] before any cut.
pub open spec fn display_thanks_line_text(item_name: Seq<char>, k: int) -> Seq<char> {
    if k == 0 {
        "這下我家終於有"@ + item_name + "了，謝謝你！我要擺在最顯眼的地方。"@
    } else if k == 1 {
        "哇，"@ + item_name + "！我這就把它擺進家裡，天天都能看到。"@
    } else {
        "你送的"@ + item_name + "，我馬上找了個好位置擺上——家裡感覺不一樣了！"@
    }
}

/// A resident's thanks as the gift takes its place in her home: line `pick % 3`, cut to [`SAY_MAX_CHARS`] characters.
pub fn display_thanks_line(item_name: &str, pick: usize) -> (r: String)
    ensures
        r@ == take_upto(display_thanks_line_text(item_name@, (pick % 3) as int), SAY_MAX_CHARS as int),
        r@.len() <= SAY_MAX_CHARS,
{
    let k = pick % 3;
    let s = if k == 0 {
        let mut s = String::from_str("這下我家終於有");
        s.append(item_name);
        s.append("了，謝謝你！我要擺在最顯眼的地方。");
        s
    } else if k == 1 {
        let mut s = String::from_str("哇，");
        s.append(item_name);
        s.append("！我這就把它擺進家裡，天天都能看到。");
        s
    } else {
        let mut s = String::from_str("你送的");
        s.append(item_name);
        s.append("，我馬上找了個好位置擺上——家裡感覺不一樣了！");
        s
    };
    truncate_chars(s.as_str(), SAY_MAX_CHARS)
}

/// The two texts of [`wish_fulfilled_thanks_line`] before any cut.
pub open spec fn wish_fulfilled_thanks_line_text(item_name: Seq<char>, k: int) -> Seq<char> {
    if k == 0 {
        "你、你怎麼知道我一直想要"@ + item_name + "！謝謝你，這下家裡終於也有一件了。"@
    } else {
        "這正是我心心念念的"@ + item_name + "！你聽見了，真的謝謝你。"@
    }
}

/// A resident's thanks when the gift is the very piece she longed for: line `pick % 2`, cut to [`SAY_MAX_CHARS`] characters.
pub fn wish_fulfilled_thanks_line(item_name: &str, pick: usize) -> (r: String)
    ensures
        r@ == take_upto(wish_fulfilled_thanks_line_text(item_name@, (pick % 2) as int), SAY_MAX_CHARS as int),
        r@.len() <= SAY_MAX_CHARS,
{
    let k = pick % 2;
    let s = if k == 0 {
        let mut s = String::from_str("你、你怎麼知道我一直想要");
        s.append(item_name);
        s.append("！謝謝你，這下家裡終於也有一件了。");
        s
    } else {
        let mut s = String::from_str("這正是我心心念念的");
        s.append(item_name);
        s.append("！你聽見了，真的謝謝你。");
        s
    };
    truncate_chars(s.as_str(), SAY_MAX_CHARS)
}

/// The feed line of a piece put on display.
pub fn display_feed_line(resident_name: &str, item_name: &str) -> (r: String)
    ensures
        r@ == resident_name@ + "把你送的"@ + item_name@ + "擺進了家裡，天天都能看見。"@,
{
    let mut s = String::from_str(resident_name);
    s.append("把你送的");
    s.append(item_name);
    s.append("擺進了家裡，天天都能看見。");
    s
}

/// The feed line of a longed-for piece put on display.
pub fn wish_fulfilled_feed_line(resident_name: &str, item_name: &str) -> (r: String)
    ensures
        r@ == resident_name@ + "一直嚮往的"@ + item_name@ + "，終於擺進了家裡。"@,
{
    let mut s = String::from_str(resident_name);
    s.append("一直嚮往的");
    s.append(item_name);
    s.append("，終於擺進了家裡。");
    s
}

/// The resident's memory of a piece put on display.
pub fn display_memory_line(item_name: &str) -> (r: String)
    ensures
        r@ == "在家裡擺上了你送的"@ + item_name@ + "，每次看到都覺得家更有生活感了"@,
{
    let mut s = String::from_str("在家裡擺上了你送的");
    s.append(item_name);
    s.append("，每次看到都覺得家更有生活感了");
    s
}

/// The three texts of [`wanted_bubble`] before any cut.
pub open spec fn wanted_bubble_text(neighbor_name: Seq<char>, item_name: Seq<char>, k: int) -> Seq<char> {
    if k == 0 {
        neighbor_name + "家的"@ + item_name + "真好看……我家也好想要一件。"@
    } else if k == 1 {
        "每次經過"@ + neighbor_name + "家都會多看兩眼那件"@ + item_name + "，好想擁有一件。"@
    } else {
        "要是我家也能擺上一件像"@ + neighbor_name + "家那樣的"@ + item_name + "就好了。"@
    }
}

/// A resident's bubble admiring a neighbour's piece: line `pick % 3`, cut to [`SAY_MAX_CHARS`] characters.
pub fn wanted_bubble(neighbor_name: &str, item_name: &str, pick: usize) -> (r: String)
    ensures
        r@ == take_upto(wanted_bubble_text(neighbor_name@, item_name@, (pick % 3) as int), SAY_MAX_CHARS as int),
        r@.len() <= SAY_MAX_CHARS,
{
    let k = pick % 3;
    let s = if k == 0 {
        let mut s = String::from_str(neighbor_name);
        s.append("家的");
        s.append(item_name);
        s.append("真好看……我家也好想要一件。");
        s
    } else if k == 1 {
        let mut s = String::from_str("每次經過");
        s.append(neighbor_name);
        s.append("家都會多看兩眼那件");
        s.append(item_name);
        s.append("，好想擁有一件。");
        s
    } else {
        let mut s = String::from_str("要是我家也能擺上一件像");
        s.append(neighbor_name);
        s.append("家那樣的");
        s.append(item_name);
        s.append("就好了。");
        s
    };
    truncate_chars(s.as_str(), SAY_MAX_CHARS)
}

/// The feed line of a resident longing for a neighbour's piece.
pub fn wanted_feed_line(resident_name: &str, neighbor_name: &str, item_name: &str) -> (r: String)
    ensures
        r@ == resident_name@ + "很喜歡"@ + neighbor_name@ + "家擺的"@ + item_name@ + "，也悄悄想擁有一件。"@,
{
    let mut s = String::from_str(resident_name);
    s.append("很喜歡");
    s.append(neighbor_name);
    s.append("家擺的");
    s.append(item_name);
    s.append("，也悄悄想擁有一件。");
    s
}

/// The resident's memory of longing for a neighbour's piece.
pub fn wanted_memory_line(neighbor_name: &str, item_name: &str) -> (r: String)
    ensures
        r@ == "看見"@ + neighbor_name@ + "家擺著"@ + item_name@ + "，忍不住也想要一件"@,
{
    let mut s = String::from_str("看見");
    s.append(neighbor_name);
    s.append("家擺著");
    s.append(item_name);
    s.append("，忍不住也想要一件");
    s
}


/// Every home shows at most [`DECOR_SLOT_MAX`] pieces, none twice.
pub open spec fn slots_ok(pieces: Seq<u8>) -> bool {
    pieces.no_duplicates() && pieces.len() <= DECOR_SLOT_MAX
}

/// Offering a piece to a home keeps its slots in bounds.
pub proof fn lemma_add_rule_keeps_slots(pieces: Seq<u8>, item: u8)
    requires
        slots_ok(pieces),
    ensures
        slots_ok(add_rule(pieces, item)),
{
    if !(pieces.contains(item) || pieces.len() >= DECOR_SLOT_MAX) {
        let p2 = pieces.push(item);
        assert forall|i: int, j: int| 0 <= i < p2.len() && 0 <= j < p2.len() && i != j implies p2[i] != p2[j] by {
            if i == pieces.len() as int {
                assert(p2[j] == pieces[j]);
            } else if j == pieces.len() as int {
                assert(p2[i] == pieces[i]);
            } else {
                assert(p2[i] == pieces[i] && p2[j] == pieces[j]);
            }
        }
    }
}

/// Law: replaying any log leaves every home within its slots, each piece at most once.
pub proof fn lemma_replay_keeps_slots(log: Seq<DecorEntry>, resident: Seq<char>)
    ensures
        slots_ok(replay_pieces(log, resident)),
    decreases log.len(),
{
    if log.len() > 0 {
        lemma_replay_keeps_slots(log.drop_last(), resident);
        if log.last().resident@ == resident {
            lemma_add_rule_keeps_slots(replay_pieces(log.drop_last(), resident), log.last().item_id);
        }
    } else {
        assert(replay_pieces(log, resident).no_duplicates());
    }
}

/// Law: [`DecorStore::add_piece`] keeps every home within its slots, each piece at most
/// once: from a store whose homes are within bounds, the store after the call is too.
pub proof fn lemma_add_piece_keeps_slots(before: DecorStore, after: DecorStore, resident: Seq<char>, item: u8, added: bool)
    requires
        forall|q: Seq<char>| #[trigger] slots_ok(before.pieces(q)),
        added <==> !(before.pieces(resident).contains(item) || before.pieces(resident).len() >= DECOR_SLOT_MAX),
        !added ==> after == before,
        added ==> forall|q: Seq<char>| #[trigger] after.pieces(q) == if q == resident {
            before.pieces(q).push(item)
        } else {
            before.pieces(q)
        },
    ensures
        forall|q: Seq<char>| #[trigger] slots_ok(after.pieces(q)),
{
    assert forall|q: Seq<char>| #[trigger] slots_ok(after.pieces(q)) by {
        assert(slots_ok(before.pieces(q)));
        if added && q == resident {
            lemma_add_rule_keeps_slots(before.pieces(q), item);
            assert(add_rule(before.pieces(q), item) == before.pieces(q).push(item));
        }
    }
}

/// Law: a store that follows its log still does after [`DecorStore::add_piece`] (as its
/// contract gives the store and the result after it) once the returned entry, if any, is
/// appended; a refused piece changes neither.
pub proof fn lemma_add_piece_follows_log(
    before: DecorStore,
    updated: DecorStore,
    log: Seq<DecorEntry>,
    resident: Seq<char>,
    item_id: u8,
    r: Option<DecorEntry>,
)
    requires
        before.follows(log),
        r is None <==> (before.pieces(resident).contains(item_id) || before.pieces(resident).len() >= DECOR_SLOT_MAX),
        r is None ==> updated == before,
        r matches Some(e) ==> {
            &&& e.resident@ == resident && e.item_id == item_id && e.seq == before.next()
            &&& updated.next() == after(before.next())
            &&& forall|q: Seq<char>| #[trigger] updated.pieces(q) == if q == resident {
                before.pieces(q).push(item_id)
            } else {
                before.pieces(q)
            }
        },
    ensures
        updated.follows(match r { Some(e) => log.push(e), None => log }),
{
    match r {
        Some(e) => {
            lemma_decor_follows_log(before, updated, log, e);
        },
        None => {},
    }
}

} // verus!
