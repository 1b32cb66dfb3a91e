//! The envoy's marks: each resident remembers the good deeds the dream envoy did for
//! her, by kind, with a count and the sequence number of the latest one, and now and
//! then recalls one aloud.

use vstd::prelude::*;
use crate::text::{replace_all, replace_str, cat, cat5};
use crate::strset::{set_of, sorted_strict, insert_sorted};

verus! {

/// A kind of good deed the envoy did for a resident.
#[derive(Clone, Copy, PartialEq, Eq, Hash, Debug, Structural)]
pub enum DeedKind {
    SaveShadow,
    Gift,
    Flower,
}

/// The stable wire number of a deed kind.
pub open spec fn wire(k: DeedKind) -> u8 {
    match k {
        DeedKind::SaveShadow => 1,
        DeedKind::Gift => 2,
        DeedKind::Flower => 3,
    }
}

/// The deed kind of a wire number, if any.
pub open spec fn kind_of_wire(w: u8) -> Option<DeedKind> {
    if w == 1 {
        Some(DeedKind::SaveShadow)
    } else if w == 2 {
        Some(DeedKind::Gift)
    } else if w == 3 {
        Some(DeedKind::Flower)
    } else {
        None
    }
}

/// The clause a recollection of a deed of this kind uses.
pub open spec fn clause(k: DeedKind) -> Seq<char> {
    match k {
        DeedKind::SaveShadow => "那晚你替我趕走了逼近的暗影"@,
        DeedKind::Gift => "你特地送到我手上的那份心意"@,
        DeedKind::Flower => "你摘來送我的那束野花"@,
    }
}

/// The short label of a deed kind.
pub open spec fn kind_label(k: DeedKind) -> Seq<char> {
    match k {
        DeedKind::SaveShadow => "驅散暗影"@,
        DeedKind::Gift => "餽贈禮物"@,
        DeedKind::Flower => "餽贈野花"@,
    }
}

/// Every deed kind survives the trip to its wire number and back.
pub proof fn lemma_wire_roundtrip(k: DeedKind)
    ensures
        kind_of_wire(wire(k)) == Some(k),
{
}

impl DeedKind {
    /// The stable wire number (1, 2, 3).
    pub fn to_wire(self) -> (w: u8)
        ensures
            w == wire(self),
    {
        match self {
            DeedKind::SaveShadow => 1,
            DeedKind::Gift => 2,
            DeedKind::Flower => 3,
        }
    }

    /// The kind of a wire number; `None` for unknown numbers.
    pub fn from_wire(w: u8) -> (r: Option<DeedKind>)
        ensures
            r == kind_of_wire(w),
    {
        match w {
            1 => Some(DeedKind::SaveShadow),
            2 => Some(DeedKind::Gift),
            3 => Some(DeedKind::Flower),
            _ => None,
        }
    }

    /// The short label shown in the panel.
    pub fn label(self) -> (r: &'static str)
        ensures
            r@ == kind_label(self),
    {
        match self {
            DeedKind::SaveShadow => "驅散暗影",
            DeedKind::Gift => "餽贈禮物",
            DeedKind::Flower => "餽贈野花",
        }
    }

    /// The clause a recollection uses for "that deed".
    pub fn recall_clause(self) -> (r: &'static str)
        ensures
            r@ == clause(self),
    {
        match self {
            DeedKind::SaveShadow => "那晚你替我趕走了逼近的暗影",
            DeedKind::Gift => "你特地送到我手上的那份心意",
            DeedKind::Flower => "你摘來送我的那束野花",
        }
    }
}

/// One resident's accumulated memory of one kind of deed.
#[derive(Debug)]
pub struct DeedRecord {
    pub resident_id: String,
    pub resident_name: String,
    pub kind: u8,
    pub count: u32,
    pub last_seq: u64,
}

impl Clone for DeedRecord {
    fn clone(&self) -> (r: Self)
        ensures
            r == *self,
    {
        DeedRecord {
            resident_id: self.resident_id.clone(),
            resident_name: self.resident_name.clone(),
            kind: self.kind,
            count: self.count,
            last_seq: self.last_seq,
        }
    }
}

/// Whether record `r` is the bucket of resident `rid` and kind `kind`.
pub open spec fn is_bucket(r: DeedRecord, rid: Seq<char>, kind: u8) -> bool {
    r.resident_id@ == rid && r.kind == kind
}

/// No two records share a bucket.
pub open spec fn buckets_unique(s: Seq<DeedRecord>) -> bool {
    forall|i: int, j: int|
        0 <= i < j < s.len() ==> !is_bucket(#[trigger] s[j], (#[trigger] s[i]).resident_id@, s[i].kind)
}

/// The records after storing `e` in its bucket: replacing the bucket's record, or appending.
pub open spec fn upsert(s: Seq<DeedRecord>, e: DeedRecord) -> Seq<DeedRecord> {
    if exists|i: int| 0 <= i < s.len() && is_bucket(#[trigger] s[i], e.resident_id@, e.kind) {
        s.update(choose|i: int| 0 <= i < s.len() && is_bucket(#[trigger] s[i], e.resident_id@, e.kind), e)
    } else {
        s.push(e)
    }
}

/// The records after replaying `es` in order, each overwriting its bucket.
pub open spec fn replay(es: Seq<DeedRecord>) -> Seq<DeedRecord>
    decreases es.len(),
{
    if es.len() == 0 {
        Seq::empty()
    } else {
        upsert(replay(es.drop_last()), es.last())
    }
}

/// The largest `last_seq` among `es` (0 when empty).
pub open spec fn max_seq(es: Seq<DeedRecord>) -> u64
    decreases es.len(),
{
    if es.len() == 0 {
        0
    } else {
        let m = max_seq(es.drop_last());
        if es.last().last_seq > m {
            es.last().last_seq
        } else {
            m
        }
    }
}

/// The records of one resident, in stored order.
pub open spec fn deeds_of(s: Seq<DeedRecord>, rid: Seq<char>) -> Seq<DeedRecord>
    decreases s.len(),
{
    if s.len() == 0 {
        Seq::empty()
    } else if s.last().resident_id@ == rid {
        deeds_of(s.drop_last(), rid).push(s.last())
    } else {
        deeds_of(s.drop_last(), rid)
    }
}

/// The resident's record with the largest `last_seq` (the later one on ties), if any.
pub open spec fn latest_of(s: Seq<DeedRecord>, rid: Seq<char>) -> Option<DeedRecord>
    decreases s.len(),
{
    if s.len() == 0 {
        None
    } else {
        let prev = latest_of(s.drop_last(), rid);
        if s.last().resident_id@ == rid && (prev is None || s.last().last_seq >= prev->0.last_seq) {
            Some(s.last())
        } else {
            prev
        }
    }
}

/// The total of all counts.
pub open spec fn count_total(s: Seq<DeedRecord>) -> int
    decreases s.len(),
{
    if s.len() == 0 {
        0
    } else {
        count_total(s.drop_last()) + s.last().count
    }
}

/// The residents that have at least one record.
pub open spec fn resident_ids(s: Seq<DeedRecord>) -> Set<Seq<char>> {
    Set::new(|k: Seq<char>| exists|i: int| 0 <= i < s.len() && (#[trigger] s[i]).resident_id@ == k)
}

/// The ledger of the envoy's deeds, one record per (resident, kind), and the next sequence number.
pub struct EnvoyMarkStore {
    marks: Vec<DeedRecord>,
    next_seq: u64,
}

impl EnvoyMarkStore {
    /// The records, in the order their buckets were first filled.
    pub closed spec fn records(&self) -> Seq<DeedRecord> {
        self.marks@
    }

    /// The sequence number the next deed gets.
    pub closed spec fn next(&self) -> u64 {
        self.next_seq
    }

    /// One record per bucket.
    pub closed spec fn wf(&self) -> bool {
        buckets_unique(self.marks@)
    }

    /// Every stored record was numbered before the next sequence number.
    pub open spec fn seq_ordered(&self) -> bool {
        forall|i: int| 0 <= i < self.records().len() ==> (#[trigger] self.records()[i]).last_seq < self.next()
    }

    fn find_bucket(&self, rid: &str, kind: u8) -> (r: Option<usize>)
        ensures
            match r {
                Some(i) => i < self.marks@.len() && is_bucket(self.marks@[i as int], rid@, kind),
                None => forall|i: int| 0 <= i < self.marks@.len() ==> !is_bucket(#[trigger] self.marks@[i], rid@, kind),
            },
    {
        let mut i: usize = 0;
        while i < self.marks.len()
            invariant
                i <= self.marks@.len(),
                forall|j: int| 0 <= j < i ==> !is_bucket(#[trigger] self.marks@[j], rid@, kind),
            decreases self.marks@.len() - i,
        {
            if self.marks[i].kind == kind && crate::assoc::str_eq(self.marks[i].resident_id.as_str(), rid) {
                return Some(i);
            }
            i = i + 1;
        }
        None
    }

    /// The ledger rebuilt from saved records: later records overwrite earlier ones of the same
    /// bucket, and the next sequence number follows the largest saved one.
    pub fn from_entries(entries: Vec<DeedRecord>) -> (s: Self)
        ensures
            s.wf(),
            s.records() == replay(entries@),
            s.next() == if max_seq(entries@) == u64::MAX { u64::MAX } else { (max_seq(entries@) + 1) as u64 },
            max_seq(entries@) < u64::MAX ==> s.seq_ordered(),
    {
        let mut s = EnvoyMarkStore { marks: Vec::new(), next_seq: 0 };
        let mut m: u64 = 0;
        let mut i: usize = 0;
        while i < entries.len()
            invariant
                i <= entries@.len(),
                s.wf(),
                s.marks@ == replay(entries@.subrange(0, i as int)),
                m == max_seq(entries@.subrange(0, i as int)),
                forall|a: int| 0 <= a < s.marks@.len() ==> (#[trigger] s.marks@[a]).last_seq <= m,
            decreases entries@.len() - i,
        {
            let e = entries[i].clone();
            proof {
                let pre = entries@.subrange(0, i as int + 1);
                assert(pre.drop_last() =~= entries@.subrange(0, i as int));
                assert(pre.last() == e);
            }
            if e.last_seq > m {
                m = e.last_seq;
            }
            let ghost before = s.marks@;
            match s.find_bucket(e.resident_id.as_str(), e.kind) {
                Some(j) => {
                    s.marks.set(j, e);
                    proof {
                        let w = choose|w: int| 0 <= w < before.len() && is_bucket(#[trigger] before[w], e.resident_id@, e.kind);
                        if w != j {
                            if w < j {
                                assert(!is_bucket(before[j as int], before[w].resident_id@, before[w].kind));
                            } else {
                                assert(!is_bucket(before[w], before[j as int].resident_id@, before[j as int].kind));
                            }
                        }
                        assert(s.marks@ == upsert(before, e));
                        assert forall|a: int, b: int|
                            0 <= a < b < s.marks@.len() implies !is_bucket(#[trigger] s.marks@[b], (#[trigger] s.marks@[a]).resident_id@, s.marks@[a].kind) by {
                            if a != j && b != j {
                                assert(s.marks@[a] == before[a] && s.marks@[b] == before[b]);
                            } else if a == j {
                                assert(s.marks@[b] == before[b]);
                            } else {
                                assert(s.marks@[a] == before[a]);
                            }
                        }
                    }
                },
                None => {
                    s.marks.push(e);
                    proof {
                        assert(s.marks@ == upsert(before, e));
                    }
                },
            }
            i = i + 1;
        }
        assert(entries@.subrange(0, i as int) =~= entries@);
        s.next_seq = if m == u64::MAX { u64::MAX } else { m + 1 };
        proof {
            assert(s.marks@ == s.records());
        }
        s
    }

    /// Records one more deed of `kind` for a resident: the bucket's count goes up by one
    /// (saturating), its name snapshot and latest sequence number are refreshed (a new bucket
    /// starts at count one), the next sequence number advances (wrapping), and the updated
    /// record is returned.
    pub fn record(&mut self, resident_id: &str, resident_name: &str, kind: DeedKind) -> (r: DeedRecord)
        requires
            old(self).wf(),
        ensures
            final(self).wf(),
            final(self).next() == if old(self).next() == u64::MAX { 0 } else { (old(self).next() + 1) as u64 },
            r.resident_id@ == resident_id@,
            r.resident_name@ == resident_name@,
            r.kind == wire(kind),
            r.last_seq == old(self).next(),
            final(self).records() == upsert(old(self).records(), r),
            old(self).seq_ordered() ==> forall|i: int|
                0 <= i < old(self).records().len() ==> (#[trigger] old(self).records()[i]).last_seq < r.last_seq,
            old(self).seq_ordered() && old(self).next() < u64::MAX ==> final(self).seq_ordered(),
            (exists|i: int| 0 <= i < old(self).records().len() && is_bucket(#[trigger] old(self).records()[i], resident_id@, wire(kind)))
                ==> r.count == ({
                    let c = old(self).records()[choose|i: int| 0 <= i < old(self).records().len() && is_bucket(#[trigger] old(self).records()[i], resident_id@, wire(kind))].count;
                    if c == u32::MAX { c } else { (c + 1) as u32 }
                }),
            !(exists|i: int| 0 <= i < old(self).records().len() && is_bucket(#[trigger] old(self).records()[i], resident_id@, wire(kind)))
                ==> r.count == 1,
    {
        let seq = self.next_seq;
        self.next_seq = if self.next_seq == u64::MAX { 0 } else { self.next_seq + 1 };
        let w = kind.to_wire();
        let ghost before = self.marks@;
        match self.find_bucket(resident_id, w) {
            Some(j) => {
                let c = self.marks[j].count;
                let rec = DeedRecord {
                    resident_id: self.marks[j].resident_id.clone(),
                    resident_name: String::from_str(resident_name),
                    kind: w,
                    count: if c == u32::MAX { c } else { c + 1 },
                    last_seq: seq,
                };
                let out = rec.clone();
                self.marks.set(j, rec);
                proof {
                    assert(is_bucket(before[j as int], resident_id@, w));
                    assert(is_bucket(old(self).records()[j as int], resident_id@, w));
                    let x = choose|x: int| 0 <= x < before.len() && is_bucket(#[trigger] before[x], resident_id@, w);
                    if x != j {
                        if x < j {
                            assert(!is_bucket(before[j as int], before[x].resident_id@, before[x].kind));
                        } else {
                            assert(!is_bucket(before[x], before[j as int].resident_id@, before[j as int].kind));
                        }
                    }
                    assert forall|a: int, b: int|
                        0 <= a < b < self.marks@.len() implies !is_bucket(#[trigger] self.marks@[b], (#[trigger] self.marks@[a]).resident_id@, self.marks@[a].kind) by {
                        if a != j && b != j {
                            assert(self.marks@[a] == before[a] && self.marks@[b] == before[b]);
                        } else if a == j {
                            assert(self.marks@[b] == before[b]);
                        } else {
                            assert(self.marks@[a] == before[a]);
                        }
                    }
                }
                out
            },
            None => {
                let rec = DeedRecord {
                    resident_id: String::from_str(resident_id),
                    resident_name: String::from_str(resident_name),
                    kind: w,
                    count: 1,
                    last_seq: seq,
                };
                let out = rec.clone();
                self.marks.push(rec);
                out
            },
        }
    }

    /// The records of one resident, in stored order.
    pub fn deeds_for(&self, resident_id: &str) -> (r: Vec<DeedRecord>)
        ensures
            r@ == deeds_of(self.records(), resident_id@),
    {
        let mut out: Vec<DeedRecord> = Vec::new();
        let mut i: usize = 0;
        while i < self.marks.len()
            invariant
                i <= self.marks@.len(),
                out@ == deeds_of(self.marks@.subrange(0, i as int), resident_id@),
            decreases self.marks@.len() - i,
        {
            proof {
                assert(self.marks@.subrange(0, i as int + 1).drop_last() =~= self.marks@.subrange(0, i as int));
            }
            if crate::assoc::str_eq(self.marks[i].resident_id.as_str(), resident_id) {
                out.push(self.marks[i].clone());
            }
            i = i + 1;
        }
        assert(self.marks@.subrange(0, i as int) =~= self.marks@);
        out
    }

    /// The kind of the resident's latest deed (largest sequence number), if any.
    pub fn latest_kind_for(&self, resident_id: &str) -> (r: Option<DeedKind>)
        ensures
            r == match latest_of(self.records(), resident_id@) {
                Some(rec) => kind_of_wire(rec.kind),
                None => None,
            },
    {
        let mut best: Option<usize> = None;
        let mut i: usize = 0;
        while i < self.marks.len()
            invariant
                i <= self.marks@.len(),
                match best {
                    Some(b) => b < i && latest_of(self.marks@.subrange(0, i as int), resident_id@) == Some(self.marks@[b as int]),
                    None => latest_of(self.marks@.subrange(0, i as int), resident_id@) == None::<DeedRecord>,
                },
            decreases self.marks@.len() - i,
        {
            proof {
                assert(self.marks@.subrange(0, i as int + 1).drop_last() =~= self.marks@.subrange(0, i as int));
            }
            if crate::assoc::str_eq(self.marks[i].resident_id.as_str(), resident_id) {
                match best {
                    Some(b) => {
                        if self.marks[i].last_seq >= self.marks[b].last_seq {
                            best = Some(i);
                        }
                    },
                    None => {
                        best = Some(i);
                    },
                }
            }
            i = i + 1;
        }
        assert(self.marks@.subrange(0, i as int) =~= self.marks@);
        match best {
            Some(b) => DeedKind::from_wire(self.marks[b].kind),
            None => None,
        }
    }

    /// The residents with at least one record, sorted and without repeats.
    pub fn residents_with_marks(&self) -> (r: Vec<String>)
        ensures
            sorted_strict(r@),
            set_of(r@) == resident_ids(self.records()),
    {
        let mut out: Vec<String> = Vec::new();
        let mut i: usize = 0;
        proof {
            assert(set_of(out@) =~= resident_ids(self.marks@.subrange(0, 0)));
        }
        while i < self.marks.len()
            invariant
                i <= self.marks@.len(),
                sorted_strict(out@),
                set_of(out@) == resident_ids(self.marks@.subrange(0, i as int)),
            decreases self.marks@.len() - i,
        {
            let id = self.marks[i].resident_id.clone();
            insert_sorted(&mut out, id);
            proof {
                let a = self.marks@.subrange(0, i as int);
                let b = self.marks@.subrange(0, i as int + 1);
                assert forall|k: Seq<char>| resident_ids(b).contains(k) == resident_ids(a).insert(id@).contains(k) by {
                    if resident_ids(a).contains(k) {
                        let j = choose|j: int| 0 <= j < a.len() && (#[trigger] a[j]).resident_id@ == k;
                        assert(b[j] == a[j]);
                    }
                    if k == id@ {
                        assert(b[i as int] == self.marks@[i as int]);
                    }
                    if resident_ids(b).contains(k) {
                        let j = choose|j: int| 0 <= j < b.len() && (#[trigger] b[j]).resident_id@ == k;
                        if j < i {
                            assert(a[j] == b[j]);
                        }
                    }
                }
                assert(resident_ids(b) =~= resident_ids(a).insert(id@));
            }
            i = i + 1;
        }
        assert(self.marks@.subrange(0, i as int) =~= self.marks@);
        out
    }

    /// The total count of all deeds.
    pub fn total_count(&self) -> (r: u64)
        requires
            count_total(self.records()) <= u64::MAX,
        ensures
            r == count_total(self.records()),
    {
        let mut total: u64 = 0;
        let mut i: usize = 0;
        while i < self.marks.len()
            invariant
                i <= self.marks@.len(),
                total == count_total(self.marks@.subrange(0, i as int)),
                count_total(self.marks@) <= u64::MAX,
            decreases self.marks@.len() - i,
        {
            proof {
                assert(self.marks@.subrange(0, i as int + 1).drop_last() =~= self.marks@.subrange(0, i as int));
                lemma_count_total_prefix(self.marks@, i as int + 1);
            }
            total = total + self.marks[i].count as u64;
            i = i + 1;
        }
        assert(self.marks@.subrange(0, i as int) =~= self.marks@);
        total
    }

    /// A copy of every record, in stored order.
    pub fn to_entries(&self) -> (r: Vec<DeedRecord>)
        ensures
            r@ == self.records(),
    {
        let mut out: Vec<DeedRecord> = Vec::new();
        let mut i: usize = 0;
        while i < self.marks.len()
            invariant
                i <= self.marks@.len(),
                out@ == self.marks@.subrange(0, i as int),
            decreases self.marks@.len() - i,
        {
            out.push(self.marks[i].clone());
            i = i + 1;
            assert(out@ =~= self.marks@.subrange(0, i as int));
        }
        assert(out@ =~= self.marks@);
        out
    }
}

/// The total of a prefix never exceeds the total of the whole.
proof fn lemma_count_total_prefix(s: Seq<DeedRecord>, n: int)
    requires
        0 <= n <= s.len(),
    ensures
        count_total(s.subrange(0, n)) <= count_total(s),
    decreases s.len() - n,
{
    if n < s.len() {
        lemma_count_total_prefix(s, n + 1);
        assert(s.subrange(0, n + 1).drop_last() =~= s.subrange(0, n));
    } else {
        assert(s.subrange(0, n) =~= s);
    }
}

/// The four recollection frames, with {p} for the player and {d} for the deed.
pub open spec fn recall_frames() -> Seq<Seq<char>> {
    seq!["{p}，還記得嗎——{d}，我到現在都記著。"@, "我常想起{d}，{p}，謝謝你。"@, "有件事我一直沒忘：{d}。"@, "{d}……那份情，我始終放在心上。"@]
}

/// A resident recalling one of the envoy's deeds: frame `pick % 4` with {p} replaced by the
/// player's name and then {d} by the deed's clause.
pub fn recall_line(player_name: &str, kind: DeedKind, pick: usize) -> (r: String)
    ensures
        r@ == replace_all(replace_all(recall_frames()[(pick % 4) as int], "{p}"@, player_name@), "{d}"@, clause(kind)),
{
    let frames: [&str; 4] = ["{p}，還記得嗎——{d}，我到現在都記著。", "我常想起{d}，{p}，謝謝你。", "有件事我一直沒忘：{d}。", "{d}……那份情，我始終放在心上。"];
    proof {
        assert(crate::text::views(frames@) =~= recall_frames());
        assert(crate::text::views(frames@)[(pick % 4) as int] == frames@[(pick % 4) as int]@);
        reveal_strlit("{p}");
        reveal_strlit("{d}");
    }
    let with_p = replace_str(frames[pick % 4], "{p}", player_name);
    replace_str(with_p.as_str(), "{d}", kind.recall_clause())
}

/// The feed line of a resident recalling the envoy's deed.
pub fn feed_line(resident_name: &str, player_name: &str, kind: DeedKind) -> (r: String)
    ensures
        r@ == resident_name@ + "想起了"@ + player_name@ + "為她"@ + kind_label(kind) + "的那份情。"@,
{
    let mut s = cat5(resident_name, "想起了", player_name, "為她", kind.label());
    s.append("的那份情。");
    s
}

/// Feed category of a recollection.
pub const FEED_KIND: &'static str = "envoy_mark";
/// Seconds between two recollections of one resident.
pub const RECALL_COOLDOWN_SECS: u64 = 300;


proof fn lemma_replay_unique(s: Seq<DeedRecord>)
    requires
        buckets_unique(s),
    ensures
        replay(s) == s,
    decreases s.len(),
{
    if s.len() > 0 {
        let init = s.drop_last();
        assert(buckets_unique(init)) by {
            assert forall|i: int, j: int| 0 <= i < j < init.len() implies !is_bucket(#[trigger] init[j], (#[trigger] init[i]).resident_id@, init[i].kind) by {
                assert(init[i] == s[i] && init[j] == s[j]);
            }
        }
        lemma_replay_unique(init);
        assert(!(exists|i: int| 0 <= i < init.len() && is_bucket(#[trigger] init[i], s.last().resident_id@, s.last().kind))) by {
            if exists|i: int| 0 <= i < init.len() && is_bucket(#[trigger] init[i], s.last().resident_id@, s.last().kind) {
                let i = choose|i: int| 0 <= i < init.len() && is_bucket(#[trigger] init[i], s.last().resident_id@, s.last().kind);
                assert(init[i] == s[i]);
                assert(!is_bucket(s[s.len() - 1], s[i].resident_id@, s[i].kind));
            }
        }
        assert(init.push(s.last()) =~= s);
    }
}

/// Law: saving the ledger and reading it back gives the same records. The records that
/// [`EnvoyMarkStore::to_entries`] hands out replay, in [`EnvoyMarkStore::from_entries`], to
/// exactly those records, in the same order.
pub proof fn lemma_snapshot_reloads(store: EnvoyMarkStore)
    requires
        store.wf(),
    ensures
        replay(store.records()) == store.records(),
{
    lemma_replay_unique(store.records());
}

} // verus!
