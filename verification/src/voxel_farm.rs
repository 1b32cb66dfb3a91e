//! Farming: plots planted with wheat, carrots or potatoes grow on a timer (twice as
//! fast beside water), mature, and are harvested; every change is an event so that a
//! replay of the events restores the fields after a restart.

use vstd::prelude::*;

verus! {

/// Seeds item id.
pub const SEEDS_ID: u8 = 14;
/// Wheat grain item id.
pub const WHEAT_ID: u8 = 18;
/// Bread item id.
pub const BREAD_ID: u8 = 19;
/// Carrot seeds item id.
pub const CARROT_SEEDS_ID: u8 = 48;
/// Carrot item id.
pub const CARROT_ID: u8 = 49;
/// Potato seeds item id.
pub const POTATO_SEEDS_ID: u8 = 52;
/// Potato item id.
pub const POTATO_ID: u8 = 53;
/// Baked potato item id.
pub const BAKED_POTATO_ID: u8 = 64;
/// Seconds wheat takes to ripen.
pub const GROW_SECS: u64 = 90;
/// Seconds wheat takes beside water.
pub const IRRIGATED_GROW_SECS: u64 = 45;
/// Seconds carrots take to ripen.
pub const CARROT_GROW_SECS: u64 = 60;
/// Seconds carrots take beside water.
pub const CARROT_IRRIGATED_GROW_SECS: u64 = 30;
/// Seconds potatoes take to ripen.
pub const POTATO_GROW_SECS: u64 = 120;
/// Seconds potatoes take beside water.
pub const POTATO_IRRIGATED_GROW_SECS: u64 = 60;
/// How far (per axis) farm soil looks for water.
pub const FARM_WATER_RANGE: i32 = 4;

/// A kind of crop.
#[derive(Clone, Copy, Debug, PartialEq, Eq, Structural)]
pub enum CropKind {
    Wheat,
    Carrot,
    Potato,
}

/// Seconds a crop of `kind` takes to ripen, halved beside water.
pub open spec fn grow_secs(kind: CropKind, irrigated: bool) -> u64 {
    match (kind, irrigated) {
        (CropKind::Wheat, false) => GROW_SECS,
        (CropKind::Wheat, true) => IRRIGATED_GROW_SECS,
        (CropKind::Carrot, false) => CARROT_GROW_SECS,
        (CropKind::Carrot, true) => CARROT_IRRIGATED_GROW_SECS,
        (CropKind::Potato, false) => POTATO_GROW_SECS,
        (CropKind::Potato, true) => POTATO_IRRIGATED_GROW_SECS,
    }
}

/// Seconds a crop of `kind` takes to ripen, halved beside water.
pub fn effective_grow_secs(kind: CropKind, irrigated: bool) -> (r: u64)
    ensures
        r == grow_secs(kind, irrigated),
{
    match (kind, irrigated) {
        (CropKind::Wheat, false) => GROW_SECS,
        (CropKind::Wheat, true) => IRRIGATED_GROW_SECS,
        (CropKind::Carrot, false) => CARROT_GROW_SECS,
        (CropKind::Carrot, true) => CARROT_IRRIGATED_GROW_SECS,
        (CropKind::Potato, false) => POTATO_GROW_SECS,
        (CropKind::Potato, true) => POTATO_IRRIGATED_GROW_SECS,
    }
}

/// When a plot ripens: its planting time plus the growing time, saturating at the top of time.
pub open spec fn ripens_at(p: FarmPlot, irrigated: bool) -> int {
    if p.planted_secs as int + grow_secs(p.kind, irrigated) > u64::MAX {
        u64::MAX as int
    } else {
        p.planted_secs as int + grow_secs(p.kind, irrigated)
    }
}

/// The seconds a plot still needs at `now` before it ripens, or none when it is ripe.
pub fn remaining_secs(p: &FarmPlot, now_secs: u64, irrigated: bool) -> (r: Option<u64>)
    ensures
        now_secs >= ripens_at(*p, irrigated) ==> r is None,
        now_secs < ripens_at(*p, irrigated) ==> r == Some((ripens_at(*p, irrigated) - now_secs) as u64),
{
    let grow = effective_grow_secs(p.kind, irrigated);
    let mature_at = p.planted_secs.saturating_add(grow);
    if now_secs >= mature_at {
        None
    } else {
        Some(mature_at - now_secs)
    }
}

/// Beside water every crop ripens in exactly half the time, and carrots are the quickest,
/// wheat next and potatoes the slowest, with or without water.
pub proof fn lemma_grow_secs_order(irrigated: bool)
    ensures
        forall|k: CropKind| #[trigger] grow_secs(k, true) * 2 == grow_secs(k, false),
        grow_secs(CropKind::Carrot, irrigated) < grow_secs(CropKind::Wheat, irrigated),
        grow_secs(CropKind::Wheat, irrigated) < grow_secs(CropKind::Potato, irrigated),
{
}

/// A planted plot: where, when it was planted, and the crop.
#[derive(Clone, Copy, Debug, PartialEq, Eq, Structural)]
pub struct FarmPlot {
    pub x: i32,
    pub y: i32,
    pub z: i32,
    pub planted_secs: u64,
    pub kind: CropKind,
}

/// One persisted farm event: with both a time and a crop it plants (or re-times) a plot;
/// with neither it removes one.
#[derive(Clone, Copy, Debug, PartialEq, Eq, Structural)]
pub struct FarmEvent {
    pub x: i32,
    pub y: i32,
    pub z: i32,
    pub planted_secs: Option<u64>,
    pub kind: Option<CropKind>,
    pub seq: u64,
}

/// Whether some plot stands at (x, y, z).
pub open spec fn has_coord(s: Seq<FarmPlot>, x: i32, y: i32, z: i32) -> bool {
    exists|i: int| 0 <= i < s.len() && (#[trigger] s[i]).x == x && s[i].y == y && s[i].z == z
}

/// The position of the plot at (x, y, z) (meaningful when there is one).
pub open spec fn index_of(s: Seq<FarmPlot>, x: i32, y: i32, z: i32) -> int {
    choose|i: int| 0 <= i < s.len() && (#[trigger] s[i]).x == x && s[i].y == y && s[i].z == z
}

/// No two plots share a coordinate.
pub open spec fn coords_unique(s: Seq<FarmPlot>) -> bool {
    forall|i: int, j: int|
        0 <= i < j < s.len() ==> !((#[trigger] s[i]).x == (#[trigger] s[j]).x && s[i].y == s[j].y && s[i].z == s[j].z)
}

/// The plots after planting `p`: it replaces the plot at its coordinate, or joins the end.
pub open spec fn put_plot(s: Seq<FarmPlot>, p: FarmPlot) -> Seq<FarmPlot> {
    if has_coord(s, p.x, p.y, p.z) {
        s.update(index_of(s, p.x, p.y, p.z), p)
    } else {
        s.push(p)
    }
}

/// The plots after removing the one at (x, y, z), if any.
pub open spec fn drop_plot(s: Seq<FarmPlot>, x: i32, y: i32, z: i32) -> Seq<FarmPlot> {
    if has_coord(s, x, y, z) {
        s.remove(index_of(s, x, y, z))
    } else {
        s
    }
}

/// The plots after one replayed event.
pub open spec fn apply_event(s: Seq<FarmPlot>, e: FarmEvent) -> Seq<FarmPlot> {
    match (e.planted_secs, e.kind) {
        (Some(t), Some(k)) => put_plot(s, FarmPlot { x: e.x, y: e.y, z: e.z, planted_secs: t, kind: k }),
        _ => drop_plot(s, e.x, e.y, e.z),
    }
}

/// Every change the store makes is carried by the event it returns: replaying a planting
/// event puts that plot, replaying a removal event drops the plot at its coordinate, and
/// replaying a nudge event (a planting event for a coordinate already planted, with the
/// moved-back time and the same crop) updates that plot in place.
pub proof fn lemma_events_replay_changes(s: Seq<FarmPlot>, x: i32, y: i32, z: i32, t: u64, k: CropKind, seq: u64)
    ensures
        apply_event(s, FarmEvent { x, y, z, planted_secs: Some(t), kind: Some(k), seq })
            == put_plot(s, FarmPlot { x, y, z, planted_secs: t, kind: k }),
        apply_event(s, FarmEvent { x, y, z, planted_secs: None, kind: None, seq }) == drop_plot(s, x, y, z),
        has_coord(s, x, y, z) && s[index_of(s, x, y, z)].kind == k ==> apply_event(
            s,
            FarmEvent { x, y, z, planted_secs: Some(t), kind: Some(k), seq },
        ) == s.update(index_of(s, x, y, z), FarmPlot { planted_secs: t, ..s[index_of(s, x, y, z)] }),
{
    if has_coord(s, x, y, z) {
        let i = index_of(s, x, y, z);
        if s[i].kind == k {
            assert(FarmPlot { planted_secs: t, ..s[i] } == FarmPlot { x, y, z, planted_secs: t, kind: k });
        }
    }
}

/// The plots after replaying `es` in order into an empty store.
pub open spec fn replay_plots(es: Seq<FarmEvent>) -> Seq<FarmPlot>
    decreases es.len(),
{
    if es.len() == 0 {
        Seq::empty()
    } else {
        apply_event(replay_plots(es.drop_last()), es.last())
    }
}

/// The next sequence number after replaying `es`: one past the largest seen.
pub open spec fn replay_next(es: Seq<FarmEvent>) -> int
    decreases es.len(),
{
    if es.len() == 0 {
        0
    } else {
        let n = replay_next(es.drop_last());
        if es.last().seq >= n {
            es.last().seq + 1
        } else {
            n
        }
    }
}

/// Whether a plot is ripe at `now` given whether it is irrigated (saturating at the top of time).
pub open spec fn ripe(p: FarmPlot, now: u64, irrigated: bool) -> bool {
    now as int >= if p.planted_secs as int + grow_secs(p.kind, irrigated) > u64::MAX {
        u64::MAX as int
    } else {
        p.planted_secs as int + grow_secs(p.kind, irrigated)
    }
}

/// The coordinates of the plots ripe at `now` by the dry wheat time, in stored order.
pub open spec fn ripe_dry(s: Seq<FarmPlot>, now: u64) -> Seq<(i32, i32, i32)>
    decreases s.len(),
{
    if s.len() == 0 {
        Seq::empty()
    } else {
        let p = s.last();
        let prev = ripe_dry(s.drop_last(), now);
        if now as int >= (if p.planted_secs as int + GROW_SECS > u64::MAX { u64::MAX as int } else { p.planted_secs + GROW_SECS }) {
            prev.push((p.x, p.y, p.z))
        } else {
            prev
        }
    }
}

/// The ripe plots (with their crops), in stored order, each judged with `irr[i]` telling
/// whether plot `i` is irrigated.
pub open spec fn ripe_with(s: Seq<FarmPlot>, irr: Seq<bool>, now: u64) -> Seq<((i32, i32, i32), CropKind)>
    decreases s.len(),
{
    if s.len() == 0 || irr.len() != s.len() {
        Seq::empty()
    } else {
        let p = s.last();
        let prev = ripe_with(s.drop_last(), irr.drop_last(), now);
        if ripe(p, now, irr.last()) {
            prev.push(((p.x, p.y, p.z), p.kind))
        } else {
            prev
        }
    }
}

/// The planted plots and the next event sequence number.
pub struct FarmStore {
    plots: Vec<FarmPlot>,
    pub next_seq: u64,
}

impl FarmStore {
    /// The plots, in the order they were first planted.
    pub closed spec fn plots(&self) -> Seq<FarmPlot> {
        self.plots@
    }

    /// The sequence number the next event gets.
    pub closed spec fn next(&self) -> u64 {
        self.next_seq
    }

    /// One plot per coordinate.
    pub closed spec fn wf(&self) -> bool {
        coords_unique(self.plots@)
    }

    /// The plots, in the order they were first planted.
    pub fn plot_list(&self) -> (r: Vec<FarmPlot>)
        ensures
            r@ == self.plots(),
    {
        self.plots.clone()
    }

    /// An empty farm.
    pub fn new() -> (s: Self)
        ensures
            s.wf(),
            s.plots() == Seq::<FarmPlot>::empty(),
            s.next() == 0,
    {
        FarmStore { plots: Vec::new(), next_seq: 0 }
    }

    fn find(&self, x: i32, y: i32, z: i32) -> (r: Option<usize>)
        requires
            self.wf(),
        ensures
            match r {
                Some(i) => i < self.plots@.len() && has_coord(self.plots@, x, y, z) && index_of(self.plots@, x, y, z) == i,
                None => !has_coord(self.plots@, x, y, z),
            },
    {
        let mut i: usize = 0;
        while i < self.plots.len()
            invariant
                i <= self.plots@.len(),
                coords_unique(self.plots@),
                forall|j: int| 0 <= j < i ==> !((#[trigger] self.plots@[j]).x == x && self.plots@[j].y == y && self.plots@[j].z == z),
            decreases self.plots@.len() - i,
        {
            let p = self.plots[i];
            if p.x == x && p.y == y && p.z == z {
                proof {
                    let s = self.plots@;
                    assert(has_coord(s, x, y, z));
                    let w = index_of(s, x, y, z);
                    if w != i {
                        if w < i {
                            assert(!((s[w]).x == (s[i as int]).x && s[w].y == s[i as int].y && s[w].z == s[i as int].z));
                        } else {
                            assert(!((s[i as int]).x == (s[w]).x && s[i as int].y == s[w].y && s[i as int].z == s[w].z));
                        }
                    }
                }
                return Some(i);
            }
            i = i + 1;
        }
        None
    }

    /// Plants (or replants, resetting the timer and possibly the crop) the plot at (x, y, z)
    /// and returns the event to persist, numbered with the next sequence number.
    pub fn plant(&mut self, x: i32, y: i32, z: i32, now_secs: u64, kind: CropKind) -> (e: FarmEvent)
        requires
            old(self).wf(),
            old(self).next() < u64::MAX,
        ensures
            final(self).wf(),
            final(self).plots() == put_plot(old(self).plots(), FarmPlot { x, y, z, planted_secs: now_secs, kind }),
            e == (FarmEvent { x, y, z, planted_secs: Some(now_secs), kind: Some(kind), seq: old(self).next() }),
            final(self).next() == old(self).next() + 1,
    {
        let plot = FarmPlot { x, y, z, planted_secs: now_secs, kind };
        let ghost before = self.plots@;
        match self.find(x, y, z) {
            Some(i) => {
                self.plots.set(i, plot);
                proof {
                    assert forall|a: int, b: int|
                        0 <= a < b < self.plots@.len() implies !((#[trigger] self.plots@[a]).x == (#[trigger] self.plots@[b]).x
                            && self.plots@[a].y == self.plots@[b].y && self.plots@[a].z == self.plots@[b].z) by {
                        if a != i && b != i {
                            assert(self.plots@[a] == before[a] && self.plots@[b] == before[b]);
                        } else if a == i {
                            assert(self.plots@[b] == before[b]);
                        } else {
                            assert(self.plots@[a] == before[a]);
                        }
                    }
                }
            },
            None => {
                self.plots.push(plot);
            },
        }
        let e = FarmEvent { x, y, z, planted_secs: Some(now_secs), kind: Some(kind), seq: self.next_seq };
        self.next_seq = self.next_seq + 1;
        e
    }

    /// Removes the plot at (x, y, z): the removal event when there was one, else `None`
    /// and nothing changes.
    pub fn remove(&mut self, x: i32, y: i32, z: i32) -> (r: Option<FarmEvent>)
        requires
            old(self).wf(),
            old(self).next() < u64::MAX,
        ensures
            final(self).wf(),
            final(self).plots() == drop_plot(old(self).plots(), x, y, z),
            has_coord(old(self).plots(), x, y, z) ==> r == Some(FarmEvent { x, y, z, planted_secs: None, kind: None, seq: old(self).next() })
                && final(self).next() == old(self).next() + 1,
            !has_coord(old(self).plots(), x, y, z) ==> r == None::<FarmEvent> && final(self).next() == old(self).next(),
    {
        match self.find(x, y, z) {
            Some(i) => {
                let ghost before = self.plots@;
                self.plots.remove(i);
                proof {
                    assert forall|a: int, b: int|
                        0 <= a < b < self.plots@.len() implies !((#[trigger] self.plots@[a]).x == (#[trigger] self.plots@[b]).x
                            && self.plots@[a].y == self.plots@[b].y && self.plots@[a].z == self.plots@[b].z) by {
                        let a2 = if a < i { a } else { a + 1 };
                        let b2 = if b < i { b } else { b + 1 };
                        assert(self.plots@[a] == before[a2] && self.plots@[b] == before[b2]);
                    }
                }
                let e = FarmEvent { x, y, z, planted_secs: None, kind: None, seq: self.next_seq };
                self.next_seq = self.next_seq + 1;
                Some(e)
            },
            None => None,
        }
    }

    /// Whether a plot stands at (x, y, z).
    pub fn has_plot(&self, x: i32, y: i32, z: i32) -> (b: bool)
        requires
            self.wf(),
        ensures
            b == has_coord(self.plots(), x, y, z),
    {
        self.find(x, y, z).is_some()
    }

    /// The coordinates of the plots ripe at `now` by the dry wheat time, in stored order.
    pub fn mature_plots(&self, now_secs: u64) -> (r: Vec<(i32, i32, i32)>)
        ensures
            r@ == ripe_dry(self.plots(), now_secs),
    {
        let mut out: Vec<(i32, i32, i32)> = Vec::new();
        let mut i: usize = 0;
        while i < self.plots.len()
            invariant
                i <= self.plots@.len(),
                out@ == ripe_dry(self.plots@.subrange(0, i as int), now_secs),
            decreases self.plots@.len() - i,
        {
            proof {
                assert(self.plots@.subrange(0, i as int + 1).drop_last() =~= self.plots@.subrange(0, i as int));
            }
            let p = self.plots[i];
            let ready = if p.planted_secs > u64::MAX - GROW_SECS { u64::MAX } else { p.planted_secs + GROW_SECS };
            if now_secs >= ready {
                out.push((p.x, p.y, p.z));
            }
            i = i + 1;
        }
        assert(self.plots@.subrange(0, i as int) =~= self.plots@);
        out
    }

    /// The ripe plots with their crops, in stored order, each judged by its crop's time and
    /// by what `is_irrigated` answers for its coordinate.
    pub fn mature_plots_irrigated<F>(&self, now_secs: u64, is_irrigated: F) -> (r: Vec<((i32, i32, i32), CropKind)>)
        where
            F: Fn(i32, i32, i32) -> bool,
        requires
            forall|x: i32, y: i32, z: i32| is_irrigated.requires((x, y, z)),
        ensures
            exists|irr: Seq<bool>|
                irr.len() == self.plots().len() && (forall|i: int|
                    0 <= i < irr.len() ==> is_irrigated.ensures(
                        (self.plots()[i].x, self.plots()[i].y, self.plots()[i].z),
                        #[trigger] irr[i],
                    )) && r@ == ripe_with(self.plots(), irr, now_secs),
    {
        let mut out: Vec<((i32, i32, i32), CropKind)> = Vec::new();
        let ghost mut irr: Seq<bool> = Seq::empty();
        let mut i: usize = 0;
        while i < self.plots.len()
            invariant
                i <= self.plots@.len(),
                irr.len() == i,
                forall|x: i32, y: i32, z: i32| is_irrigated.requires((x, y, z)),
                forall|j: int|
                    0 <= j < i ==> is_irrigated.ensures((self.plots@[j].x, self.plots@[j].y, self.plots@[j].z), #[trigger] irr[j]),
                out@ == ripe_with(self.plots@.subrange(0, i as int), irr, now_secs),
            decreases self.plots@.len() - i,
        {
            let p = self.plots[i];
            let wet = is_irrigated(p.x, p.y, p.z);
            let ghost irr2 = irr.push(wet);
            proof {
                assert(self.plots@.subrange(0, i as int + 1).drop_last() =~= self.plots@.subrange(0, i as int));
                assert(irr2.drop_last() =~= irr);
            }
            let grow = effective_grow_secs(p.kind, wet);
            let ready = if p.planted_secs > u64::MAX - grow { u64::MAX } else { p.planted_secs + grow };
            if now_secs >= ready {
                out.push(((p.x, p.y, p.z), p.kind));
            }
            proof {
                irr = irr2;
            }
            i = i + 1;
        }
        assert(self.plots@.subrange(0, i as int) =~= self.plots@);
        assert(irr.len() == self.plots().len() && (forall|k: int|
            0 <= k < irr.len() ==> is_irrigated.ensures(
                (self.plots()[k].x, self.plots()[k].y, self.plots()[k].z),
                #[trigger] irr[k],
            )) && out@ == ripe_with(self.plots(), irr, now_secs));
        out
    }

    /// Moves the plot at (x, y, z) `secs` seconds closer to ripeness (its planting time moves
    /// back, not below zero) and returns the event to persist; `None` and no change when there
    /// is no plot there.
    pub fn nudge_growth(&mut self, x: i32, y: i32, z: i32, secs: u64) -> (r: Option<FarmEvent>)
        requires
            old(self).wf(),
            old(self).next() < u64::MAX,
        ensures
            final(self).wf(),
            !has_coord(old(self).plots(), x, y, z) ==> r == None::<FarmEvent> && *final(self) == *old(self),
            has_coord(old(self).plots(), x, y, z) ==> {
                let p = old(self).plots()[index_of(old(self).plots(), x, y, z)];
                let t = if p.planted_secs >= secs { (p.planted_secs - secs) as u64 } else { 0u64 };
                &&& final(self).plots() == old(self).plots().update(index_of(old(self).plots(), x, y, z), FarmPlot { planted_secs: t, ..p })
                &&& r == Some(FarmEvent { x, y, z, planted_secs: Some(t), kind: Some(p.kind), seq: old(self).next() })
                &&& final(self).next() == old(self).next() + 1
            },
    {
        match self.find(x, y, z) {
            Some(i) => {
                let ghost before = self.plots@;
                let p = self.plots[i];
                let t = if p.planted_secs >= secs { p.planted_secs - secs } else { 0 };
                self.plots.set(i, FarmPlot { planted_secs: t, ..p });
                proof {
                    assert forall|a: int, b: int|
                        0 <= a < b < self.plots@.len() implies !((#[trigger] self.plots@[a]).x == (#[trigger] self.plots@[b]).x
                            && self.plots@[a].y == self.plots@[b].y && self.plots@[a].z == self.plots@[b].z) by {
                        if a != i && b != i {
                            assert(self.plots@[a] == before[a] && self.plots@[b] == before[b]);
                        } else if a == i {
                            assert(self.plots@[b] == before[b]);
                        } else {
                            assert(self.plots@[a] == before[a]);
                        }
                    }
                }
                let e = FarmEvent { x, y, z, planted_secs: Some(t), kind: Some(p.kind), seq: self.next_seq };
                self.next_seq = self.next_seq + 1;
                Some(e)
            },
            None => None,
        }
    }

    /// The farm rebuilt by replaying events in order: planting events put their plot, others
    /// remove the plot at their coordinate; the next sequence number follows the largest seen.
    pub fn from_events(events: Vec<FarmEvent>) -> (s: Self)
        requires
            forall|i: int| 0 <= i < events@.len() ==> (#[trigger] events@[i]).seq < u64::MAX,
        ensures
            s.wf(),
            s.plots() == replay_plots(events@),
            s.next() == replay_next(events@),
    {
        let mut store = FarmStore::new();
        let mut i: usize = 0;
        while i < events.len()
            invariant
                i <= events@.len(),
                store.wf(),
                store.plots@ == replay_plots(events@.subrange(0, i as int)),
                store.next_seq == replay_next(events@.subrange(0, i as int)),
                forall|j: int| 0 <= j < events@.len() ==> (#[trigger] events@[j]).seq < u64::MAX,
            decreases events@.len() - i,
        {
            let e = events[i];
            proof {
                let pre = events@.subrange(0, i as int + 1);
                assert(pre.drop_last() =~= events@.subrange(0, i as int));
                assert(pre.last() == e);
            }
            let keep_seq = store.next_seq;
            match (e.planted_secs, e.kind) {
                (Some(t), Some(k)) => {
                    store.next_seq = 0;
                    let _ = store.plant(e.x, e.y, e.z, t, k);
                },
                _ => {
                    store.next_seq = 0;
                    let _ = store.remove(e.x, e.y, e.z);
                },
            }
            store.next_seq = keep_seq;
            if e.seq >= store.next_seq {
                store.next_seq = e.seq + 1;
            }
            i = i + 1;
        }
        assert(events@.subrange(0, i as int) =~= events@);
        store
    }
}


/// Law: the log says what the farm holds. A farm whose plots and numbering are what
/// replaying its log gives still is so after a planting, a removal or a nudge, once the
/// event that call returns (carrying the change, see [`lemma_events_replay_changes`]) is
/// appended, so [`FarmStore::from_events`] on the log after a restart gives back the same
/// farm.
pub proof fn lemma_farm_follows_log(before: FarmStore, after: FarmStore, log: Seq<FarmEvent>, e: FarmEvent)
    requires
        before.plots() == replay_plots(log),
        before.next() == replay_next(log),
        e.seq == before.next(),
        after.plots() == apply_event(before.plots(), e),
        after.next() == before.next() + 1,
    ensures
        after.plots() == replay_plots(log.push(e)),
        after.next() == replay_next(log.push(e)),
{
    assert(log.push(e).drop_last() =~= log);
    assert(log.push(e).last() == e);
}

/// The farm holds what replaying `log` gives and numbers on from where the log leaves off.
pub open spec fn follows_log(s: FarmStore, log: Seq<FarmEvent>) -> bool {
    s.plots() == replay_plots(log) && s.next() == replay_next(log)
}

/// Law: a new, empty farm follows the empty log.
pub proof fn lemma_new_follows_log(s: FarmStore)
    requires
        s.plots() == Seq::<FarmPlot>::empty(),
        s.next() == 0,
    ensures
        follows_log(s, Seq::<FarmEvent>::empty()),
{
}

/// Law: a farm that follows its log still does after [`FarmStore::plant`] (as its contract
/// gives the farm after it) once the returned event is appended.
pub proof fn lemma_plant_follows_log(
    before: FarmStore,
    after: FarmStore,
    log: Seq<FarmEvent>,
    x: i32,
    y: i32,
    z: i32,
    now_secs: u64,
    kind: CropKind,
    e: FarmEvent,
)
    requires
        follows_log(before, log),
        after.plots() == put_plot(before.plots(), FarmPlot { x, y, z, planted_secs: now_secs, kind }),
        e == (FarmEvent { x, y, z, planted_secs: Some(now_secs), kind: Some(kind), seq: before.next() }),
        after.next() == before.next() + 1,
    ensures
        follows_log(after, log.push(e)),
{
    lemma_events_replay_changes(before.plots(), x, y, z, now_secs, kind, before.next());
    lemma_farm_follows_log(before, after, log, e);
}

/// Law: a farm that follows its log still does after [`FarmStore::remove`] (as its contract
/// gives the farm and the result after it) once the returned event, if any, is appended.
pub proof fn lemma_remove_follows_log(
    before: FarmStore,
    after: FarmStore,
    log: Seq<FarmEvent>,
    x: i32,
    y: i32,
    z: i32,
    r: Option<FarmEvent>,
)
    requires
        follows_log(before, log),
        after.plots() == drop_plot(before.plots(), x, y, z),
        has_coord(before.plots(), x, y, z) ==> r == Some(FarmEvent { x, y, z, planted_secs: None, kind: None, seq: before.next() })
            && after.next() == before.next() + 1,
        !has_coord(before.plots(), x, y, z) ==> r == None::<FarmEvent> && after.next() == before.next(),
    ensures
        follows_log(after, match r { Some(e) => log.push(e), None => log }),
{
    match r {
        Some(e) => {
            lemma_events_replay_changes(before.plots(), x, y, z, 0, CropKind::Wheat, before.next());
            lemma_farm_follows_log(before, after, log, e);
        },
        None => {},
    }
}

/// Law: a farm that follows its log still does after [`FarmStore::nudge_growth`] (as its
/// contract gives the farm and the result after it) once the returned event, if any, is
/// appended.
pub proof fn lemma_nudge_follows_log(
    before: FarmStore,
    after: FarmStore,
    log: Seq<FarmEvent>,
    x: i32,
    y: i32,
    z: i32,
    secs: u64,
    r: Option<FarmEvent>,
)
    requires
        follows_log(before, log),
        !has_coord(before.plots(), x, y, z) ==> r == None::<FarmEvent> && after == before,
        has_coord(before.plots(), x, y, z) ==> {
            let p = before.plots()[index_of(before.plots(), x, y, z)];
            let t = if p.planted_secs >= secs { (p.planted_secs - secs) as u64 } else { 0u64 };
            &&& after.plots() == before.plots().update(index_of(before.plots(), x, y, z), FarmPlot { planted_secs: t, ..p })
            &&& r == Some(FarmEvent { x, y, z, planted_secs: Some(t), kind: Some(p.kind), seq: before.next() })
            &&& after.next() == before.next() + 1
        },
    ensures
        follows_log(after, match r { Some(e) => log.push(e), None => log }),
{
    if has_coord(before.plots(), x, y, z) {
        let p = before.plots()[index_of(before.plots(), x, y, z)];
        let t = if p.planted_secs >= secs { (p.planted_secs - secs) as u64 } else { 0u64 };
        lemma_events_replay_changes(before.plots(), x, y, z, t, p.kind, before.next());
        lemma_farm_follows_log(before, after, log, r.unwrap());
    }
}

} // verus!
