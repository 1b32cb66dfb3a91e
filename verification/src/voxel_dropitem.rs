//! Dropped items: a player drops some of what she holds, it lies where it fell until
//! someone walks up and picks it up, and it fades away if nobody does. Where a drop lies is
//! kept as an opaque position `P` chosen by the caller; nothing here reads it except
//! through the caller's own test.

use vstd::prelude::*;
use std::collections::HashMap;
use vstd::std_specs::iter::IteratorSpec;
use vstd::std_specs::hash::spec_keys_iter;

verus! {

broadcast use vstd::std_specs::hash::group_hash_axioms;

/// Most items dropped in one go.
pub const MAX_DROP_COUNT: u32 = 64;
/// Most drops lying in the world at once.
pub const MAX_ACTIVE_DROPS: usize = 200;
/// Seconds before a drop nobody picked up fades away.
pub const DESPAWN_SECS: u64 = 300;

/// The requested drop count clamped into `[1, MAX_DROP_COUNT]`.
pub fn clamp_drop_count(count: u32) -> (r: u32)
    ensures
        r == if count < 1 { 1 } else if count > MAX_DROP_COUNT { MAX_DROP_COUNT } else { count },
{
    if count < 1 {
        1
    } else if count > MAX_DROP_COUNT {
        MAX_DROP_COUNT
    } else {
        count
    }
}

/// A drop lying in the world.
#[derive(Debug)]
pub struct DroppedItem<P> {
    pub id: u64,
    /// Where it lies.
    pub pos: P,
    pub item_id: u8,
    pub count: u32,
    pub dropped_by: String,
    pub dropped_secs: u64,
}

/// Every drop lying in the world, filed by its id.
pub struct DropStore<P> {
    items: HashMap<u64, DroppedItem<P>>,
    next_id: u64,
}

/// Whether a drop made at `dropped` has faded by `now`.
pub open spec fn faded(dropped: u64, now: u64) -> bool {
    (if now >= dropped { now - dropped } else { 0 }) >= DESPAWN_SECS
}

/// Ids in strictly ascending order.
pub open spec fn ascending(s: Seq<u64>) -> bool {
    forall|i: int, j: int| 0 <= i < j < s.len() ==> s[i] < s[j]
}

/// Inserts a new id into an ascending list at its place.
fn insert_sorted(v: &mut Vec<u64>, k: u64)
    requires
        ascending(old(v)@),
        !old(v)@.contains(k),
    ensures
        ascending(final(v)@),
        forall|x: u64| final(v)@.contains(x) <==> (old(v)@.contains(x) || x == k),
        final(v)@.len() == old(v)@.len() + 1,
{
    let mut pos: usize = 0;
    while pos < v.len() && v[pos] < k
        invariant
            pos <= v@.len(),
            v@ == old(v)@,
            forall|j: int| 0 <= j < pos ==> v@[j] < k,
        decreases v@.len() - pos,
    {
        pos = pos + 1;
    }
    let ghost before = v@;
    proof {
        if pos < before.len() {
            assert(before[pos as int] != k);
        }
    }
    v.insert(pos, k);
    proof {
        let after = v@;
        assert(after =~= before.insert(pos as int, k));
        assert forall|i: int, j: int| 0 <= i < j < after.len() implies after[i] < after[j] by {
            if j < pos {
                assert(after[i] == before[i] && after[j] == before[j]);
            } else if j == pos {
                assert(after[i] == before[i]);
            } else if i < pos {
                assert(after[i] == before[i] && after[j] == before[j - 1]);
                if pos < before.len() {
                    assert(before[pos as int] > k);
                    if j - 1 > pos {
                        assert(before[pos as int] < before[j - 1]);
                    }
                }
            } else if i == pos {
                assert(after[j] == before[j - 1]);
                assert(before[pos as int] > k || pos >= before.len());
                if j - 1 > pos {
                    assert(before[pos as int] < before[j - 1]);
                }
            } else {
                assert(after[i] == before[i - 1] && after[j] == before[j - 1]);
            }
        }
        assert forall|x: u64| after.contains(x) <==> (before.contains(x) || x == k) by {
            if after.contains(x) {
                let i = choose|i: int| 0 <= i < after.len() && after[i] == x;
                if i < pos {
                    assert(before[i] == x);
                } else if i > pos {
                    assert(before[i - 1] == x);
                }
            }
            if before.contains(x) {
                let i = choose|i: int| 0 <= i < before.len() && before[i] == x;
                if i < pos {
                    assert(after[i] == x);
                } else {
                    assert(after[i + 1] == x);
                }
            }
            if x == k {
                assert(after[pos as int] == k);
            }
        }
    }
}

/// The keys of a map, ascending.
fn sorted_keys<V>(m: &HashMap<u64, V>) -> (r: Vec<u64>)
    ensures
        ascending(r@),
        forall|k: u64| m@.contains_key(k) <==> r@.contains(k),
        r@.len() == m@.len(),
{
    let mut out: Vec<u64> = Vec::new();
    proof {
        let ks = spec_keys_iter(m).remaining();
        assert(ks.unref().to_set() == m@.dom());
        assert forall|x: u64| m@.contains_key(x) implies exists|j: int| 0 <= j < ks.len() && *ks[j] == x by {
            assert(ks.unref().to_set().contains(x));
            let j = choose|j: int| 0 <= j < ks.unref().len() && ks.unref()[j] == x;
            assert(*ks[j] == x);
        }
        assert forall|j: int| 0 <= j < ks.len() implies m@.contains_key(*ks[j]) by {
            assert(ks.unref().contains(ks.unref()[j]));
            assert(ks.unref().to_set().contains(ks.unref()[j]));
        }
    }
    for k in it: m.keys()
        invariant
            ascending(out@),
            out@.len() == it.index(),
            it.seq().no_duplicates(),
            it.seq().len() == m@.len(),
            forall|x: u64| m@.contains_key(x) <==> exists|j: int| 0 <= j < it.seq().len() && *it.seq()[j] == x,
            forall|x: u64| out@.contains(x) <==> exists|j: int| 0 <= j < it.index() && *it.seq()[j] == x,
    {
        proof {
            if out@.contains(*k) {
                let j = choose|j: int| 0 <= j < it.index() && *it.seq()[j] == *k;
                assert(it.seq()[j] == it.seq()[it.index() as int]);
            }
        }
        insert_sorted(&mut out, *k);
    }
    out
}


impl<P> DropStore<P> {
    /// The drops, by id.
    pub closed spec fn drops(self) -> Map<u64, DroppedItem<P>> {
        self.items@
    }

    /// The id the next drop gets.
    pub closed spec fn next(self) -> u64 {
        self.next_id
    }

    /// The invariant: every drop is filed under its own id, which lies below the next id.
    pub closed spec fn wf(self) -> bool {
        forall|k: u64| #[trigger] self.items@.contains_key(k) ==> self.items@[k].id == k && k < self.next_id
    }

    /// No drop.
    pub fn new() -> (s: Self)
        ensures
            s.wf(),
            s.drops() == Map::<u64, DroppedItem<P>>::empty(),
            s.next() == 0,
    {
        DropStore { items: HashMap::new(), next_id: 0 }
    }

    /// How many drops lie in the world.
    pub fn len(&self) -> (n: usize)
        ensures
            n == self.drops().len(),
    {
        self.items.len()
    }

    /// Whether no drop lies in the world.
    pub fn is_empty(&self) -> (b: bool)
        ensures
            b == (self.drops().len() == 0),
    {
        self.items.len() == 0
    }

    /// Lays a drop down under the next id and returns that id; refused (none, nothing
    /// changes) when [`MAX_ACTIVE_DROPS`] drops already lie in the world.
    pub fn spawn(&mut self, pos: P, item_id: u8, count: u32, dropped_by: &str, now_secs: u64) -> (r: Option<u64>)
        requires
            old(self).wf(),
            old(self).next() < u64::MAX,
        ensures
            final(self).wf(),
            old(self).drops().len() >= MAX_ACTIVE_DROPS ==> r is None && final(self).drops() == old(self).drops()
                && final(self).next() == old(self).next(),
            old(self).drops().len() < MAX_ACTIVE_DROPS ==> {
                let d = final(self).drops()[old(self).next()];
                &&& r == Some(old(self).next())
                &&& final(self).next() == old(self).next() + 1
                &&& !old(self).drops().contains_key(old(self).next())
                &&& final(self).drops() == old(self).drops().insert(old(self).next(), d)
                &&& d.id == old(self).next() && d.pos == pos && d.item_id == item_id && d.count == count
                &&& d.dropped_by@ == dropped_by@ && d.dropped_secs == now_secs
            },
    {
        if self.items.len() >= MAX_ACTIVE_DROPS {
            return None;
        }
        let id = self.next_id;
        self.next_id = self.next_id + 1;
        self.items.insert(
            id,
            DroppedItem { id, pos, item_id, count, dropped_by: String::from_str(dropped_by), dropped_secs: now_secs },
        );
        Some(id)
    }

    /// Picks up (or clears) the drop with id `id` and returns it; none when there is none.
    pub fn remove(&mut self, id: u64) -> (r: Option<DroppedItem<P>>)
        requires
            old(self).wf(),
        ensures
            final(self).wf(),
            final(self).next() == old(self).next(),
            final(self).drops() == old(self).drops().remove(id),
            old(self).drops().contains_key(id) ==> r == Some(old(self).drops()[id]),
            !old(self).drops().contains_key(id) ==> r is None,
    {
        self.items.remove(&id)
    }

    /// Every drop, oldest (smallest id) first.
    pub fn all(&self) -> (r: Vec<&DroppedItem<P>>)
        requires
            self.wf(),
        ensures
            r@.len() == self.drops().len(),
            forall|i: int, j: int| 0 <= i < j < r@.len() ==> (#[trigger] r@[i]).id < (#[trigger] r@[j]).id,
            forall|i: int| 0 <= i < r@.len() ==> self.drops().contains_key((#[trigger] r@[i]).id) && *r@[i] == self.drops()[r@[i].id],
    {
        let keys = sorted_keys(&self.items);
        let mut out: Vec<&DroppedItem<P>> = Vec::new();
        let mut i: usize = 0;
        while i < keys.len()
            invariant
                self.wf(),
                i <= keys@.len(),
                ascending(keys@),
                forall|k: u64| self.items@.contains_key(k) <==> keys@.contains(k),
                out@.len() == i,
                forall|j: int| 0 <= j < i ==> (#[trigger] out@[j]).id == keys@[j] && *out@[j] == self.items@[keys@[j]],
            decreases keys@.len() - i,
        {
            let k = keys[i];
            assert(keys@.contains(k));
            let d = self.items.get(&k).unwrap();
            out.push(d);
            i = i + 1;
        }
        proof {
            assert forall|a: int| 0 <= a < out@.len() implies self.drops().contains_key((#[trigger] out@[a]).id) by {
                assert(keys@.contains(keys@[a]));
            }
        }
        out
    }

    /// The id of the oldest drop whose position passes the caller's test `in_range` (the
    /// caller's test of nearness to a player): every drop with a smaller id was tested and
    /// failed. None when no position passes.
    pub fn earliest_where<F: Fn(&P) -> bool>(&self, in_range: F) -> (r: Option<u64>)
        requires
            self.wf(),
            forall|k: u64| #[trigger] self.drops().contains_key(k) ==> in_range.requires((&self.drops()[k].pos,)),
        ensures
            match r {
                Some(id) => self.drops().contains_key(id) && in_range.ensures((&self.drops()[id].pos,), true)
                    && forall|k: u64| #[trigger] self.drops().contains_key(k) && k < id ==> in_range.ensures((&self.drops()[k].pos,), false),
                None => forall|k: u64| #[trigger] self.drops().contains_key(k) ==> in_range.ensures((&self.drops()[k].pos,), false),
            },
    {
        let keys = sorted_keys(&self.items);
        let mut i: usize = 0;
        while i < keys.len()
            invariant
                i <= keys@.len(),
                ascending(keys@),
                forall|k: u64| self.items@.contains_key(k) <==> keys@.contains(k),
                forall|k: u64| #[trigger] self.drops().contains_key(k) ==> in_range.requires((&self.drops()[k].pos,)),
                forall|j: int| 0 <= j < i ==> in_range.ensures((&self.drops()[#[trigger] keys@[j]].pos,), false),
            decreases keys@.len() - i,
        {
            let k = keys[i];
            assert(keys@.contains(k));
            let d = self.items.get(&k).unwrap();
            proof {
                assert(self.drops().contains_key(k));
            }
            if in_range(&d.pos) {
                proof {
                    assert forall|q: u64| #[trigger] self.drops().contains_key(q) && q < k implies in_range.ensures((&self.drops()[q].pos,), false) by {
                        assert(keys@.contains(q));
                        let j = choose|j: int| 0 <= j < keys@.len() && keys@[j] == q;
                        if j >= i {
                            if j > i {
                                assert(keys@[i as int] < keys@[j]);
                            }
                        }
                    }
                }
                return Some(k);
            }
            i = i + 1;
        }
        proof {
            assert forall|q: u64| #[trigger] self.drops().contains_key(q) implies in_range.ensures((&self.drops()[q].pos,), false) by {
                assert(keys@.contains(q));
                let j = choose|j: int| 0 <= j < keys@.len() && keys@[j] == q;
            }
        }
        None
    }

    /// Clears every drop that has lain [`DESPAWN_SECS`] or longer by `now_secs` and returns
    /// them, oldest first; the others stay.
    pub fn expire(&mut self, now_secs: u64) -> (gone: Vec<DroppedItem<P>>)
        requires
            old(self).wf(),
        ensures
            final(self).wf(),
            final(self).next() == old(self).next(),
            forall|k: u64| #[trigger] final(self).drops().contains_key(k) <==> old(self).drops().contains_key(k)
                && !faded(old(self).drops()[k].dropped_secs, now_secs),
            forall|k: u64| #[trigger] final(self).drops().contains_key(k) ==> final(self).drops()[k] == old(self).drops()[k],
            forall|i: int, j: int| 0 <= i < j < gone@.len() ==> (#[trigger] gone@[i]).id < (#[trigger] gone@[j]).id,
            forall|i: int| 0 <= i < gone@.len() ==> old(self).drops().contains_key((#[trigger] gone@[i]).id)
                && gone@[i] == old(self).drops()[gone@[i].id] && faded(gone@[i].dropped_secs, now_secs),
            forall|k: u64| #[trigger] old(self).drops().contains_key(k) && faded(old(self).drops()[k].dropped_secs, now_secs)
                ==> exists|i: int| 0 <= i < gone@.len() && (#[trigger] gone@[i]).id == k,
    {
        let ghost orig = self.items@;
        let keys = sorted_keys(&self.items);
        let mut fk: Vec<u64> = Vec::new();
        let mut i: usize = 0;
        while i < keys.len()
            invariant
                self.items@ == orig,
                i <= keys@.len(),
                ascending(keys@),
                forall|k: u64| orig.contains_key(k) <==> keys@.contains(k),
                ascending(fk@),
                forall|a: int| 0 <= a < fk@.len() ==> orig.contains_key(#[trigger] fk@[a]) && faded(orig[fk@[a]].dropped_secs, now_secs),
                forall|a: int| 0 <= a < fk@.len() ==> exists|j: int| 0 <= j < i && keys@[j] == #[trigger] fk@[a],
                forall|j: int| 0 <= j < i && faded(orig[#[trigger] keys@[j]].dropped_secs, now_secs) ==> fk@.contains(keys@[j]),
            decreases keys@.len() - i,
        {
            let k = keys[i];
            assert(keys@.contains(k));
            let dropped = self.items.get(&k).unwrap().dropped_secs;
            if now_secs.saturating_sub(dropped) >= DESPAWN_SECS {
                let ghost before = fk@;
                proof {
                    assert forall|a: int| 0 <= a < before.len() implies before[a] < k by {
                        let j = choose|j: int| 0 <= j < i && keys@[j] == before[a];
                        assert(keys@[j] < keys@[i as int]);
                    }
                }
                fk.push(k);
                proof {
                    assert forall|a: int| 0 <= a < fk@.len() implies exists|j: int| 0 <= j < i + 1 && keys@[j] == #[trigger] fk@[a] by {
                        if a < before.len() {
                            assert(fk@[a] == before[a]);
                            let j = choose|j: int| 0 <= j < i && keys@[j] == before[a];
                        } else {
                            assert(keys@[i as int] == fk@[a]);
                        }
                    }
                    assert forall|j: int| 0 <= j < i + 1 && faded(orig[#[trigger] keys@[j]].dropped_secs, now_secs) implies fk@.contains(keys@[j]) by {
                        if j < i {
                            assert(before.contains(keys@[j]));
                            let a = choose|a: int| 0 <= a < before.len() && before[a] == keys@[j];
                            assert(fk@[a] == keys@[j]);
                        } else {
                            assert(fk@[before.len() as int] == keys@[j]);
                        }
                    }
                }
            } else {
                proof {
                    assert forall|a: int| 0 <= a < fk@.len() implies exists|j: int| 0 <= j < i + 1 && keys@[j] == #[trigger] fk@[a] by {
                        let j = choose|j: int| 0 <= j < i && keys@[j] == fk@[a];
                    }
                }
            }
            i = i + 1;
        }
        let mut gone: Vec<DroppedItem<P>> = Vec::new();
        let mut n: usize = 0;
        while n < fk.len()
            invariant
                old(self).wf(),
                orig == old(self).items@,
                self.next_id == old(self).next_id,
                n <= fk@.len(),
                ascending(fk@),
                forall|a: int| 0 <= a < fk@.len() ==> orig.contains_key(#[trigger] fk@[a]) && faded(orig[fk@[a]].dropped_secs, now_secs),
                forall|k: u64| #[trigger] self.items@.contains_key(k) <==> orig.contains_key(k) && !fk@.subrange(0, n as int).contains(k),
                forall|k: u64| #[trigger] self.items@.contains_key(k) ==> self.items@[k] == orig[k],
                gone@.len() == n,
                forall|a: int| 0 <= a < n ==> #[trigger] gone@[a] == orig[fk@[a]],
            decreases fk@.len() - n,
        {
            let k = fk[n];
            proof {
                assert(orig.contains_key(k));
                assert(!fk@.subrange(0, n as int).contains(k)) by {
                    if fk@.subrange(0, n as int).contains(k) {
                        let a = choose|a: int| 0 <= a < n && fk@.subrange(0, n as int)[a] == k;
                        assert(fk@[a] < fk@[n as int]);
                    }
                }
                assert(fk@.subrange(0, n + 1) =~= fk@.subrange(0, n as int).push(k));
            }
            let ghost before = self.items@;
            let d = self.items.remove(&k).unwrap();
            proof {
                assert(self.items@ == before.remove(k));
                assert forall|q: u64| #[trigger] self.items@.contains_key(q) <==> orig.contains_key(q) && !fk@.subrange(0, n + 1).contains(q) by {
                    let pre = fk@.subrange(0, n as int);
                    assert(pre.push(k).contains(q) <==> (pre.contains(q) || q == k)) by {
                        if pre.push(k).contains(q) {
                            let a = choose|a: int| 0 <= a < pre.push(k).len() && pre.push(k)[a] == q;
                            if a < pre.len() {
                                assert(pre[a] == q);
                            }
                        }
                        if pre.contains(q) {
                            let a = choose|a: int| 0 <= a < pre.len() && pre[a] == q;
                            assert(pre.push(k)[a] == q);
                        }
                        if q == k {
                            assert(pre.push(k)[pre.len() as int] == q);
                        }
                    }
                }
            }
            gone.push(d);
            n = n + 1;
        }
        proof {
            assert(fk@.subrange(0, n as int) =~= fk@);
            assert forall|k: u64| #[trigger] orig.contains_key(k) && faded(orig[k].dropped_secs, now_secs)
                implies fk@.contains(k) by {
                assert(keys@.contains(k));
                let j = choose|j: int| 0 <= j < keys@.len() && keys@[j] == k;
                assert(faded(orig[keys@[j]].dropped_secs, now_secs));
            }
            assert forall|k: u64| #[trigger] old(self).drops().contains_key(k) && faded(old(self).drops()[k].dropped_secs, now_secs)
                implies exists|a: int| 0 <= a < gone@.len() && (#[trigger] gone@[a]).id == k by {
                assert(fk@.contains(k));
                let a = choose|a: int| 0 <= a < fk@.len() && fk@[a] == k;
                assert(gone@[a] == orig[fk@[a]]);
            }
            assert forall|a: int| 0 <= a < gone@.len() implies old(self).drops().contains_key((#[trigger] gone@[a]).id)
                && gone@[a] == old(self).drops()[gone@[a].id] && faded(gone@[a].dropped_secs, now_secs) by {
                assert(gone@[a] == orig[fk@[a]]);
                assert(orig.contains_key(fk@[a]));
            }
            assert forall|a: int, b: int| 0 <= a < b < gone@.len() implies (#[trigger] gone@[a]).id < (#[trigger] gone@[b]).id by {
                assert(gone@[a] == orig[fk@[a]]);
                assert(gone@[b] == orig[fk@[b]]);
                assert(orig.contains_key(fk@[a]) && orig.contains_key(fk@[b]));
            }
            assert forall|k: u64| #[trigger] self.items@.contains_key(k) <==> orig.contains_key(k) && !faded(orig[k].dropped_secs, now_secs) by {
                if orig.contains_key(k) && fk@.contains(k) {
                    let a = choose|a: int| 0 <= a < fk@.len() && fk@[a] == k;
                }
            }
        }
        gone
    }
}

} // verus!
