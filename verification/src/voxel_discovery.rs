//! Exploration journal: the landmarks each player has discovered, deduplicated per
//! landmark, in discovery order, bounded per player.

use vstd::prelude::*;
use crate::assoc::{keys_unique, has_key, get, lemma_get_at, lemma_update_value, lemma_push_fresh, find_key};

verus! {

/// Entries kept per player; the oldest is dropped beyond this.
pub const MAX_PER_PLAYER: usize = 200;

/// A kind of landmark.
#[derive(Clone, Copy, Debug, PartialEq, Eq, Hash, Structural)]
pub enum LandmarkKind {
    Ruin,
    HotSpring,
    Outpost,
    Colony,
    Wonder,
}

impl LandmarkKind {
    /// The player-facing name.
    pub fn label(self) -> (r: &'static str)
        ensures
            r@ == match self {
                LandmarkKind::Ruin => "古代遺跡"@,
                LandmarkKind::HotSpring => "溫泉"@,
                LandmarkKind::Outpost => "邊陲營地"@,
                LandmarkKind::Colony => "野外村落"@,
                LandmarkKind::Wonder => "乙太世界樹"@,
            },
    {
        match self {
            LandmarkKind::Ruin => "古代遺跡",
            LandmarkKind::HotSpring => "溫泉",
            LandmarkKind::Outpost => "邊陲營地",
            LandmarkKind::Colony => "野外村落",
            LandmarkKind::Wonder => "乙太世界樹",
        }
    }

    /// The stable key used on the wire and on disk.
    pub fn wire_id(self) -> (r: &'static str)
        ensures
            r@ == match self {
                LandmarkKind::Ruin => "ruin"@,
                LandmarkKind::HotSpring => "hot_spring"@,
                LandmarkKind::Outpost => "outpost"@,
                LandmarkKind::Colony => "colony"@,
                LandmarkKind::Wonder => "wonder"@,
            },
    {
        match self {
            LandmarkKind::Ruin => "ruin",
            LandmarkKind::HotSpring => "hot_spring",
            LandmarkKind::Outpost => "outpost",
            LandmarkKind::Colony => "colony",
            LandmarkKind::Wonder => "wonder",
        }
    }

    /// The emoji icon.
    pub fn icon(self) -> (r: &'static str)
        ensures
            r@ == match self {
                LandmarkKind::Ruin => "🏛️"@,
                LandmarkKind::HotSpring => "♨️"@,
                LandmarkKind::Outpost => "⛺"@,
                LandmarkKind::Colony => "🏘️"@,
                LandmarkKind::Wonder => "🌳"@,
            },
    {
        match self {
            LandmarkKind::Ruin => "🏛️",
            LandmarkKind::HotSpring => "♨️",
            LandmarkKind::Outpost => "⛺",
            LandmarkKind::Colony => "🏘️",
            LandmarkKind::Wonder => "🌳",
        }
    }
}

/// One journal entry: who found which landmark where, the deduplication coordinates, and a
/// sequence number.
#[derive(Debug, PartialEq)]
pub struct DiscoveryEntry {
    pub player: String,
    pub kind: LandmarkKind,
    pub x: i32,
    pub y: i32,
    pub z: i32,
    pub dedup_x: i32,
    pub dedup_z: i32,
    pub seq: u64,
}

impl Clone for DiscoveryEntry {
    fn clone(&self) -> (r: Self)
        ensures
            r == *self,
    {
        DiscoveryEntry {
            player: self.player.clone(),
            kind: self.kind,
            x: self.x,
            y: self.y,
            z: self.z,
            dedup_x: self.dedup_x,
            dedup_z: self.dedup_z,
            seq: self.seq,
        }
    }
}

/// The deduplication key of an entry: (player, kind, dedup x, dedup z).
pub open spec fn dedup_key(e: DiscoveryEntry) -> (Seq<char>, LandmarkKind, i32, i32) {
    (e.player@, e.kind, e.dedup_x, e.dedup_z)
}

/// A list with its oldest entry dropped when it exceeds the per-player bound.
pub open spec fn capped(l: Seq<DiscoveryEntry>) -> Seq<DiscoveryEntry> {
    if l.len() > MAX_PER_PLAYER {
        l.drop_first()
    } else {
        l
    }
}

/// A player's journal after replaying `es` in order into an empty store.
pub open spec fn replay_list(es: Seq<DiscoveryEntry>, p: Seq<char>) -> Seq<DiscoveryEntry>
    decreases es.len(),
{
    if es.len() == 0 {
        Seq::empty()
    } else {
        let prev = replay_list(es.drop_last(), p);
        if es.last().player@ == p {
            capped(prev.push(es.last()))
        } else {
            prev
        }
    }
}

/// The deduplication keys registered after replaying `es`.
pub open spec fn replay_seen(es: Seq<DiscoveryEntry>) -> Set<(Seq<char>, LandmarkKind, i32, i32)>
    decreases es.len(),
{
    if es.len() == 0 {
        Set::empty()
    } else {
        replay_seen(es.drop_last()).insert(dedup_key(es.last()))
    }
}

/// The next sequence number after replaying `es`: one past the largest replayed.
pub open spec fn replay_next(es: Seq<DiscoveryEntry>) -> int
    decreases es.len(),
{
    if es.len() == 0 {
        0
    } else {
        let prev = replay_next(es.drop_last());
        if prev > es.last().seq + 1 {
            prev
        } else {
            es.last().seq + 1
        }
    }
}

/// How many entries of kind `k` a list holds.
pub open spec fn count_kind(l: Seq<DiscoveryEntry>, k: LandmarkKind) -> nat
    decreases l.len(),
{
    if l.len() == 0 {
        0
    } else {
        count_kind(l.drop_last(), k) + if l.last().kind == k { 1nat } else { 0nat }
    }
}

/// The journal of every player, the set of deduplication keys seen, and the next sequence number.
pub struct DiscoveryStore {
    by_player: Vec<(String, Vec<DiscoveryEntry>)>,
    seen: Vec<(String, LandmarkKind, i32, i32)>,
    next_seq: u64,
}

impl DiscoveryStore {
    /// A player's journal, oldest first.
    pub closed spec fn list(&self, p: Seq<char>) -> Seq<DiscoveryEntry> {
        match get(self.by_player@, p) {
            Some(v) => v@,
            None => Seq::empty(),
        }
    }

    /// Whether a deduplication key has been registered.
    pub closed spec fn has_seen(&self, key: (Seq<char>, LandmarkKind, i32, i32)) -> bool {
        exists|i: int|
            0 <= i < self.seen@.len() && ((#[trigger] self.seen@[i]).0@, self.seen@[i].1, self.seen@[i].2, self.seen@[i].3)
                == key
    }

    /// The set of registered deduplication keys.
    pub open spec fn seen_set(&self) -> Set<(Seq<char>, LandmarkKind, i32, i32)> {
        Set::new(|k: (Seq<char>, LandmarkKind, i32, i32)| self.has_seen(k))
    }

    /// The sequence number the next new entry gets.
    pub closed spec fn next(&self) -> u64 {
        self.next_seq
    }

    /// Internal consistency: one journal per player.
    pub closed spec fn wf(&self) -> bool {
        keys_unique(self.by_player@)
    }

    /// An empty journal.
    pub fn new() -> (s: Self)
        ensures
            s.wf(),
            forall|p: Seq<char>| s.list(p) == Seq::<DiscoveryEntry>::empty(),
            s.seen_set() == Set::<(Seq<char>, LandmarkKind, i32, i32)>::empty(),
            s.next() == 0,
    {
        let s = DiscoveryStore { by_player: Vec::new(), seen: Vec::new(), next_seq: 0 };
        assert(s.seen_set() =~= Set::<(Seq<char>, LandmarkKind, i32, i32)>::empty());
        s
    }

    fn seen_contains(&self, player: &str, kind: LandmarkKind, dx: i32, dz: i32) -> (b: bool)
        ensures
            b == self.has_seen((player@, kind, dx, dz)),
    {
        let mut i: usize = 0;
        while i < self.seen.len()
            invariant
                i <= self.seen@.len(),
                forall|j: int|
                    0 <= j < i ==> ((#[trigger] self.seen@[j]).0@, self.seen@[j].1, self.seen@[j].2, self.seen@[j].3)
                        != (player@, kind, dx, dz),
            decreases self.seen@.len() - i,
        {
            let (ref p, k, x, z) = self.seen[i];
            if k == kind && x == dx && z == dz && crate::assoc::str_eq(p.as_str(), player) {
                return true;
            }
            i = i + 1;
        }
        false
    }

    /// Records an entry: registers its key, appends it to its player's journal (dropping that
    /// player's oldest entry beyond the bound) and moves the next sequence number past it.
    fn insert_raw(&mut self, entry: DiscoveryEntry)
        requires
            old(self).wf(),
            entry.seq < u64::MAX,
        ensures
            final(self).wf(),
            forall|p: Seq<char>|
                #[trigger] final(self).list(p) == if p == entry.player@ {
                    capped(old(self).list(p).push(entry))
                } else {
                    old(self).list(p)
                },
            final(self).seen_set() == old(self).seen_set().insert(dedup_key(entry)),
            final(self).next() as int == if old(self).next() > entry.seq + 1 {
                old(self).next() as int
            } else {
                entry.seq + 1
            },
    {
        let ghost old_self = *self;
        if self.next_seq < entry.seq + 1 {
            self.next_seq = entry.seq + 1;
        }
        self.seen.push((entry.player.clone(), entry.kind, entry.dedup_x, entry.dedup_z));
        proof {
            let key = dedup_key(entry);
            let n = old_self.seen@.len() as int;
            assert(self.seen@ == old_self.seen@.push((entry.player, entry.kind, entry.dedup_x, entry.dedup_z)));
            assert forall|k: (Seq<char>, LandmarkKind, i32, i32)|
                self.has_seen(k) == (old_self.has_seen(k) || k == key) by {
                if old_self.has_seen(k) {
                    let j = choose|j: int|
                        0 <= j < old_self.seen@.len() && ((#[trigger] old_self.seen@[j]).0@, old_self.seen@[j].1, old_self.seen@[j].2, old_self.seen@[j].3) == k;
                    assert(self.seen@[j] == old_self.seen@[j]);
                    assert(self.has_seen(k));
                }
                if k == key {
                    assert(self.seen@[n] == (entry.player, entry.kind, entry.dedup_x, entry.dedup_z));
                    assert((self.seen@[n].0@, self.seen@[n].1, self.seen@[n].2, self.seen@[n].3) == k);
                    assert(self.has_seen(k));
                }
                if self.has_seen(k) {
                    let j = choose|j: int|
                        0 <= j < self.seen@.len() && ((#[trigger] self.seen@[j]).0@, self.seen@[j].1, self.seen@[j].2, self.seen@[j].3) == k;
                    if j < n {
                        assert(self.seen@[j] == old_self.seen@[j]);
                        assert(old_self.has_seen(k));
                    }
                }
            }
            assert forall|k: (Seq<char>, LandmarkKind, i32, i32)|
                #[trigger] self.seen_set().contains(k) == old_self.seen_set().insert(key).contains(k) by {
                assert(self.seen_set().contains(k) == self.has_seen(k));
                assert(old_self.seen_set().contains(k) == old_self.has_seen(k));
            }
            assert(self.seen_set() =~= old_self.seen_set().insert(key));
        }
        let ghost mid_self = *self;
        assert(forall|p: Seq<char>| mid_self.list(p) == old_self.list(p));
        match find_key(&self.by_player, entry.player.as_str()) {
            Some(i) => {
                let ghost before = self.by_player@;
                proof {
                    lemma_get_at(before, i as int);
                }
                self.by_player[i].1.push(entry);
                if self.by_player[i].1.len() > MAX_PER_PLAYER {
                    self.by_player[i].1.remove(0);
                }
                proof {
                    let newv = self.by_player@[i as int].1;
                    assert(self.by_player@ == before.update(i as int, (before[i as int].0, newv)));
                    lemma_update_value(before, i as int, newv);
                    assert(newv@ =~= capped(before[i as int].1@.push(entry)));
                    assert(self.seen@ == mid_self.seen@);
                    assert(self.seen_set() =~= mid_self.seen_set());
                }
            },
            None => {
                let ghost before = self.by_player@;
                let key = entry.player.clone();
                let mut v: Vec<DiscoveryEntry> = Vec::new();
                v.push(entry);
                let ghost vv = v;
                self.by_player.push((key, v));
                proof {
                    lemma_push_fresh(before, key, vv);
                    assert(vv@ =~= capped(Seq::<DiscoveryEntry>::empty().push(entry)));
                    assert(self.seen@ == mid_self.seen@);
                    assert(self.seen_set() =~= mid_self.seen_set());
                }
            },
        }
    }

    /// The store obtained by replaying journal entries in order.
    pub fn from_entries(entries: Vec<DiscoveryEntry>) -> (s: Self)
        requires
            forall|i: int| 0 <= i < entries@.len() ==> (#[trigger] entries@[i]).seq < u64::MAX,
        ensures
            s.wf(),
            forall|p: Seq<char>| #[trigger] s.list(p) == replay_list(entries@, p),
            s.seen_set() == replay_seen(entries@),
            s.next() == replay_next(entries@),
    {
        let mut s = Self::new();
        let ghost all = entries@;
        let mut done: usize = 0;
        while done < entries.len()
            invariant
                s.wf(),
                all == entries@,
                done <= all.len(),
                forall|i: int| 0 <= i < all.len() ==> (#[trigger] all[i]).seq < u64::MAX,
                forall|p: Seq<char>| #[trigger] s.list(p) == replay_list(all.subrange(0, done as int), p),
                s.seen_set() == replay_seen(all.subrange(0, done as int)),
                s.next() == replay_next(all.subrange(0, done as int)),
            decreases all.len() - done,
        {
            let e = entries[done].clone();
            proof {
                let pre = all.subrange(0, done as int + 1);
                assert(pre.drop_last() =~= all.subrange(0, done as int));
                assert(pre.last() == e);
            }
            s.insert_raw(e);
            done = done + 1;
        }
        assert(all.subrange(0, done as int) =~= all);
        s
    }

    /// Records a new discovery unless this player already has one with the same kind and
    /// deduplication coordinates: then `None` and nothing changes. Otherwise the new entry
    /// (with the next sequence number) is recorded and returned.
    pub fn record(&mut self, player: &str, kind: LandmarkKind, dedup_key: (i32, i32), x: i32, y: i32, z: i32) -> (r: Option<DiscoveryEntry>)
        requires
            old(self).wf(),
            old(self).next() < u64::MAX,
        ensures
            final(self).wf(),
            old(self).seen_set().contains((player@, kind, dedup_key.0, dedup_key.1)) ==> r == None::<DiscoveryEntry> && *final(self) == *old(self),
            !old(self).seen_set().contains((player@, kind, dedup_key.0, dedup_key.1)) ==> {
                &&& r matches Some(e)
                &&& e.player@ == player@ && e.kind == kind && e.x == x && e.y == y && e.z == z
                &&& e.dedup_x == dedup_key.0 && e.dedup_z == dedup_key.1 && e.seq == old(self).next()
                &&& forall|p: Seq<char>|
                    #[trigger] final(self).list(p) == if p == player@ {
                        capped(old(self).list(p).push(e))
                    } else {
                        old(self).list(p)
                    }
                &&& final(self).seen_set() == old(self).seen_set().insert((player@, kind, dedup_key.0, dedup_key.1))
                &&& final(self).next() == old(self).next() + 1
            },
    {
        if self.seen_contains(player, kind, dedup_key.0, dedup_key.1) {
            return None;
        }
        let entry = DiscoveryEntry {
            player: String::from_str(player),
            kind,
            x,
            y,
            z,
            dedup_x: dedup_key.0,
            dedup_z: dedup_key.1,
            seq: self.next_seq,
        };
        let copy = entry.clone();
        self.insert_raw(entry);
        Some(copy)
    }

    /// A player's journal, oldest first (empty for an unknown player).
    pub fn list_for(&self, player: &str) -> (r: Vec<DiscoveryEntry>)
        requires
            self.wf(),
        ensures
            r@ == self.list(player@),
    {
        match find_key(&self.by_player, player) {
            Some(i) => {
                proof {
                    lemma_get_at(self.by_player@, i as int);
                }
                let src = &self.by_player[i].1;
                let mut out: Vec<DiscoveryEntry> = Vec::new();
                let mut j: usize = 0;
                while j < src.len()
                    invariant
                        j <= src@.len(),
                        out@ == src@.subrange(0, j as int),
                    decreases src@.len() - j,
                {
                    out.push(src[j].clone());
                    j = j + 1;
                    assert(out@ =~= src@.subrange(0, j as int));
                }
                assert(out@ =~= src@);
                out
            },
            None => Vec::new(),
        }
    }

    fn count_in(list: &Vec<DiscoveryEntry>, k: LandmarkKind) -> (n: usize)
        ensures
            n == count_kind(list@, k),
    {
        let mut n: usize = 0;
        let mut j: usize = 0;
        while j < list.len()
            invariant
                j <= list@.len(),
                n == count_kind(list@.subrange(0, j as int), k),
                n <= j,
            decreases list@.len() - j,
        {
            proof {
                assert(list@.subrange(0, j as int + 1).drop_last() =~= list@.subrange(0, j as int));
            }
            if list[j].kind == k {
                n = n + 1;
            }
            j = j + 1;
        }
        assert(list@.subrange(0, j as int) =~= list@);
        n
    }

    /// How many ruins, hot springs and outposts a player has discovered.
    pub fn counts_for(&self, player: &str) -> (r: (usize, usize, usize))
        requires
            self.wf(),
        ensures
            r == (
                count_kind(self.list(player@), LandmarkKind::Ruin) as usize,
                count_kind(self.list(player@), LandmarkKind::HotSpring) as usize,
                count_kind(self.list(player@), LandmarkKind::Outpost) as usize,
            ),
    {
        match find_key(&self.by_player, player) {
            Some(i) => {
                proof {
                    lemma_get_at(self.by_player@, i as int);
                }
                let l = &self.by_player[i].1;
                (
                    Self::count_in(l, LandmarkKind::Ruin),
                    Self::count_in(l, LandmarkKind::HotSpring),
                    Self::count_in(l, LandmarkKind::Outpost),
                )
            },
            None => (0, 0, 0),
        }
    }

    /// How many colonies a player has discovered.
    pub fn colony_count_for(&self, player: &str) -> (r: usize)
        requires
            self.wf(),
        ensures
            r == count_kind(self.list(player@), LandmarkKind::Colony),
    {
        match find_key(&self.by_player, player) {
            Some(i) => {
                proof {
                    lemma_get_at(self.by_player@, i as int);
                }
                Self::count_in(&self.by_player[i].1, LandmarkKind::Colony)
            },
            None => 0,
        }
    }
}


impl DiscoveryStore {
    /// The store holds exactly what replaying `log` gives: every journal, the registered
    /// keys and the next sequence number.
    pub open spec fn follows(&self, log: Seq<DiscoveryEntry>) -> bool {
        &&& forall|p: Seq<char>| #[trigger] self.list(p) == replay_list(log, p)
        &&& self.seen_set() == replay_seen(log)
        &&& self.next() == replay_next(log)
    }
}

/// Law: the log says what the journal holds. A journal that follows its log still follows
/// it after a discovery is recorded, once the returned entry is appended to the log, so
/// replaying the log after a restart gives back the same journals, keys and numbering.
pub proof fn lemma_journal_follows_log(
    before: DiscoveryStore,
    after: DiscoveryStore,
    log: Seq<DiscoveryEntry>,
    e: DiscoveryEntry,
)
    requires
        before.follows(log),
        e.seq == before.next(),
        forall|p: Seq<char>| #[trigger] after.list(p) == if p == e.player@ {
            capped(before.list(p).push(e))
        } else {
            before.list(p)
        },
        after.seen_set() == before.seen_set().insert(dedup_key(e)),
        after.next() == before.next() + 1,
    ensures
        after.follows(log.push(e)),
{
    assert(log.push(e).drop_last() =~= log);
    assert forall|p: Seq<char>| #[trigger] after.list(p) == replay_list(log.push(e), p) by {
        assert(log.push(e).last() == e);
    }
}


/// Law: every entry of a log is numbered below the next sequence number replaying it
/// gives, so the entry a journal that follows the log records next is numbered above
/// every logged one.
pub proof fn lemma_replay_next_above(log: Seq<DiscoveryEntry>)
    ensures
        forall|i: int| 0 <= i < log.len() ==> (#[trigger] log[i]).seq < replay_next(log),
    decreases log.len(),
{
    if log.len() > 0 {
        let init = log.drop_last();
        lemma_replay_next_above(init);
        assert forall|i: int| 0 <= i < log.len() implies (#[trigger] log[i]).seq < replay_next(log) by {
            if i < log.len() - 1 {
                assert(log[i] == init[i]);
            }
        }
    }
}

/// Law: every key of a log is registered by replaying it, so a journal rebuilt by
/// [`DiscoveryStore::from_entries`] refuses, in [`DiscoveryStore::record`], every discovery
/// it was rebuilt from.
pub proof fn lemma_replayed_keys_refused(log: Seq<DiscoveryEntry>)
    ensures
        forall|i: int| 0 <= i < log.len() ==> replay_seen(log).contains(dedup_key(#[trigger] log[i])),
    decreases log.len(),
{
    if log.len() > 0 {
        let init = log.drop_last();
        lemma_replayed_keys_refused(init);
        assert forall|i: int| 0 <= i < log.len() implies replay_seen(log).contains(dedup_key(#[trigger] log[i])) by {
            if i < log.len() - 1 {
                assert(log[i] == init[i]);
            }
        }
    }
}

/// Every entry of a replayed journal is an entry of the log.
pub proof fn lemma_replay_list_from_log(log: Seq<DiscoveryEntry>, p: Seq<char>)
    ensures
        forall|k: int|
            0 <= k < replay_list(log, p).len() ==> exists|i: int| 0 <= i < log.len() && log[i] == #[trigger] replay_list(log, p)[k],
    decreases log.len(),
{
    if log.len() > 0 {
        let init = log.drop_last();
        lemma_replay_list_from_log(init, p);
        let prev = replay_list(init, p);
        assert forall|k: int| 0 <= k < replay_list(log, p).len() implies exists|i: int|
            0 <= i < log.len() && log[i] == #[trigger] replay_list(log, p)[k] by {
            let l = replay_list(log, p);
            if log.last().player@ == p {
                let pushed = prev.push(log.last());
                let j = if pushed.len() > MAX_PER_PLAYER { k + 1 } else { k };
                assert(l[k] == pushed[j]);
                if j == prev.len() {
                    assert(log[log.len() - 1] == l[k]);
                } else {
                    let i = choose|i: int| 0 <= i < init.len() && init[i] == prev[j];
                    assert(log[i] == l[k]);
                }
            } else {
                let i = choose|i: int| 0 <= i < init.len() && init[i] == prev[k];
                assert(log[i] == l[k]);
            }
        }
    }
}

/// Law: [`DiscoveryStore::record`] never forgets a key: every key registered before is still
/// registered after (whatever the cap dropped from the lists), the key just offered is
/// registered, and the call is refused exactly when it already was.
pub proof fn lemma_record_remembers_keys(
    before: DiscoveryStore,
    after: DiscoveryStore,
    player: Seq<char>,
    kind: LandmarkKind,
    dedup_x: i32,
    dedup_z: i32,
    r: Option<DiscoveryEntry>,
)
    requires
        before.seen_set().contains((player, kind, dedup_x, dedup_z)) ==> r == None::<DiscoveryEntry> && after == before,
        !before.seen_set().contains((player, kind, dedup_x, dedup_z)) ==> r is Some
            && after.seen_set() == before.seen_set().insert((player, kind, dedup_x, dedup_z)),
    ensures
        before.seen_set().subset_of(after.seen_set()),
        after.seen_set().contains((player, kind, dedup_x, dedup_z)),
        r is None <==> before.seen_set().contains((player, kind, dedup_x, dedup_z)),
{
}

/// Law: a journal that follows its log still does after [`DiscoveryStore::record`] (as its
/// contract gives the journal and the result after it) once the returned entry, if any, is
/// appended; so the key of every discovery ever recorded stays registered across restarts.
pub proof fn lemma_record_follows_log(
    before: DiscoveryStore,
    after: DiscoveryStore,
    log: Seq<DiscoveryEntry>,
    player: Seq<char>,
    kind: LandmarkKind,
    dedup_x: i32,
    dedup_z: i32,
    r: Option<DiscoveryEntry>,
)
    requires
        before.follows(log),
        before.seen_set().contains((player, kind, dedup_x, dedup_z)) ==> r == None::<DiscoveryEntry> && after == before,
        !before.seen_set().contains((player, kind, dedup_x, dedup_z)) ==> {
            &&& r matches Some(e)
            &&& e.player@ == player && e.kind == kind && e.dedup_x == dedup_x && e.dedup_z == dedup_z
            &&& e.seq == before.next()
            &&& forall|p: Seq<char>|
                #[trigger] after.list(p) == if p == player {
                    capped(before.list(p).push(e))
                } else {
                    before.list(p)
                }
            &&& after.seen_set() == before.seen_set().insert((player, kind, dedup_x, dedup_z))
            &&& after.next() == before.next() + 1
        },
    ensures
        after.follows(match r { Some(e) => log.push(e), None => log }),
{
    match r {
        Some(e) => {
            lemma_journal_follows_log(before, after, log, e);
        },
        None => {},
    }
}

} // verus!
