//! Gift gardens: when a resident plants the seeds a player gave her, the plot is noted;
//! when it ripens she harvests it and hands the first of the crop back to that player.
//! The notes are kept as an append-only log of entries; the latest entry for a position
//! (by sequence number) is what holds there after a restart.

use vstd::prelude::*;
use crate::assoc::{keys_unique, has_key, get, lemma_get_at, lemma_push_fresh, find_key};
use crate::strset::{lex_lt, str_lt, lemma_lex_total, lemma_lex_trans};
use crate::text::{int_text, parse_i32, parse_i32_spec, push_int, split_on, split_str, string_views};
use crate::voxel_farm::{CropKind, CARROT_ID, POTATO_ID, WHEAT_ID};

verus! {

/// The stored code of wheat.
pub const CROP_WHEAT: u8 = 0;
/// The stored code of carrots.
pub const CROP_CARROT: u8 = 1;
/// The stored code of potatoes.
pub const CROP_POTATO: u8 = 2;

/// The stored code of a crop kind.
pub open spec fn code_of(kind: CropKind) -> u8 {
    match kind {
        CropKind::Wheat => CROP_WHEAT,
        CropKind::Carrot => CROP_CARROT,
        CropKind::Potato => CROP_POTATO,
    }
}

/// The stored code of a crop kind.
pub fn crop_code(kind: CropKind) -> (c: u8)
    ensures
        c == code_of(kind),
{
    match kind {
        CropKind::Wheat => CROP_WHEAT,
        CropKind::Carrot => CROP_CARROT,
        CropKind::Potato => CROP_POTATO,
    }
}

/// The name of a crop by its code ("作物" for an unknown code).
pub open spec fn crop_text(code: u8) -> Seq<char> {
    if code == CROP_WHEAT {
        "小麥"@
    } else if code == CROP_CARROT {
        "胡蘿蔔"@
    } else if code == CROP_POTATO {
        "馬鈴薯"@
    } else {
        "作物"@
    }
}

/// The name of a crop by its code.
pub fn crop_name(code: u8) -> (r: &'static str)
    ensures
        r@ == crop_text(code),
{
    if code == CROP_WHEAT {
        "小麥"
    } else if code == CROP_CARROT {
        "胡蘿蔔"
    } else if code == CROP_POTATO {
        "馬鈴薯"
    } else {
        "作物"
    }
}

/// What a ripe gift garden gives back: (item id, amount); two potatoes, one of anything
/// else, and wheat for an unknown code.
pub open spec fn produce_of(code: u8) -> (u8, u32) {
    if code == CROP_CARROT {
        (CARROT_ID, 1)
    } else if code == CROP_POTATO {
        (POTATO_ID, 2)
    } else {
        (WHEAT_ID, 1)
    }
}

/// What a ripe gift garden gives back.
pub fn produce_gift(code: u8) -> (r: (u8, u32))
    ensures
        r == produce_of(code),
{
    if code == CROP_CARROT {
        (CARROT_ID, 1)
    } else if code == CROP_POTATO {
        (POTATO_ID, 2)
    } else {
        (WHEAT_ID, 1)
    }
}

/// The text key of a world position: "x,y,z" in decimal.
pub open spec fn key_text(wx: i32, wy: i32, wz: i32) -> Seq<char> {
    int_text(wx as int) + ","@ + int_text(wy as int) + ","@ + int_text(wz as int)
}

/// The text key of a world position.
pub fn pos_key(wx: i32, wy: i32, wz: i32) -> (r: String)
    ensures
        r@ == key_text(wx, wy, wz),
{
    let mut s = String::new();
    push_int(&mut s, wx);
    s.append(",");
    push_int(&mut s, wy);
    s.append(",");
    push_int(&mut s, wz);
    s
}

/// The position a key names: exactly three comma-separated decimal `i32`s.
pub open spec fn key_pos(k: Seq<char>) -> Option<(i32, i32, i32)> {
    let parts = split_on(k, ',');
    if parts.len() != 3 {
        None
    } else {
        match (parse_i32_spec(parts[0]), parse_i32_spec(parts[1]), parse_i32_spec(parts[2])) {
            (Some(x), Some(y), Some(z)) => Some((x, y, z)),
            _ => None,
        }
    }
}

/// The position a key names, if it is a well-formed key.
pub fn parse_key(k: &str) -> (r: Option<(i32, i32, i32)>)
    ensures
        r == key_pos(k@),
{
    let parts = split_str(k, ',');
    if parts.len() != 3 {
        return None;
    }
    proof {
        assert(string_views(parts@)[0] == parts@[0]@);
        assert(string_views(parts@)[1] == parts@[1]@);
        assert(string_views(parts@)[2] == parts@[2]@);
    }
    let x = parse_i32(parts[0].as_str());
    let y = parse_i32(parts[1].as_str());
    let z = parse_i32(parts[2].as_str());
    match (x, y, z) {
        (Some(x), Some(y), Some(z)) => Some((x, y, z)),
        _ => None,
    }
}

/// Law: the key of a position reads back as that position, so `parse_key(pos_key(x, y, z))`
/// gives `Some((x, y, z))`.
pub proof fn lemma_key_roundtrip(wx: i32, wy: i32, wz: i32)
    ensures
        key_pos(key_text(wx, wy, wz)) == Some((wx, wy, wz)),
{
    reveal_strlit(",");
    let a = int_text(wx as int);
    let b = int_text(wy as int);
    let c = int_text(wz as int);
    crate::text::lemma_int_text_chars(wx as int);
    crate::text::lemma_int_text_chars(wy as int);
    crate::text::lemma_int_text_chars(wz as int);
    crate::text::lemma_parse_int_text(wx as int);
    crate::text::lemma_parse_int_text(wy as int);
    crate::text::lemma_parse_int_text(wz as int);
    assert forall|k: int| 0 <= k < a.len() implies #[trigger] a[k] != ',' by {}
    assert forall|k: int| 0 <= k < b.len() implies #[trigger] b[k] != ',' by {}
    assert forall|k: int| 0 <= k < c.len() implies #[trigger] c[k] != ',' by {}
    crate::text::lemma_split_no_sep(a, ',');
    crate::text::lemma_split_append(a, b, ',');
    crate::text::lemma_split_append(a + seq![','] + b, c, ',');
    assert(key_text(wx, wy, wz) =~= (a + seq![','] + b) + seq![','] + c);
    assert(split_on(key_text(wx, wy, wz), ',') =~= seq![a, b, c]);
}

/// The player as named in a line: the name, or `fallback` when it is empty.
pub open spec fn who(player: Seq<char>, fallback: Seq<char>) -> Seq<char> {
    if player.len() == 0 { fallback } else { player }
}

fn who_exec(player: &str, fallback: &str) -> (r: String)
    ensures
        r@ == who(player@, fallback@),
{
    if player.unicode_len() == 0 {
        String::from_str(fallback)
    } else {
        String::from_str(player)
    }
}

/// The four lines of a resident handing back the harvest, for player `w` and crop `c`.
pub open spec fn harvest_say_text(w: Seq<char>, c: Seq<char>, k: int) -> Seq<char> {
    if k == 0 {
        w + "送的"@ + c + "種子，我這畦田熟啦！第一把收成該還給你～"@
    } else if k == 1 {
        "你看這"@ + c + "長得多好！這是你的種子結的果，收下嘛！"@
    } else if k == 2 {
        "多虧"@ + w + "的"@ + c + "種子，我也有收成了——這頭一把留給你！"@
    } else {
        c + "種子是"@ + w + "給的，果實也該有你一份，來、拿去～"@
    }
}

/// The resident's words on handing back the harvest: line `pick % 4`, naming the player
/// ("你" when the name is empty) and the crop.
pub fn harvest_say_line(player: &str, crop: &str, pick: usize) -> (r: String)
    ensures
        r@ == harvest_say_text(who(player@, "你"@), crop@, (pick % 4) as int),
{
    let w = who_exec(player, "你");
    let k = pick % 4;
    if k == 0 {
        let mut s = w;
        s.append("送的");
        s.append(crop);
        s.append("種子，我這畦田熟啦！第一把收成該還給你～");
        s
    } else if k == 1 {
        crate::text::cat3("你看這", crop, "長得多好！這是你的種子結的果，收下嘛！")
    } else if k == 2 {
        let mut s = crate::text::cat3("多虧", w.as_str(), "的");
        s.append(crop);
        s.append("種子，我也有收成了——這頭一把留給你！");
        s
    } else {
        let mut s = crate::text::cat3(crop, "種子是", w.as_str());
        s.append("給的，果實也該有你一份，來、拿去～");
        s
    }
}

/// The resident's memory of the harvest, marked with 🌾.
pub fn harvest_memory_line(player: &str, crop: &str) -> (r: String)
    ensures
        r@ == "🌾收成了"@ + who(player@, "你"@) + "送我種子長成的那畦"@ + crop@ + "，把第一把收穫回贈給"@ + who(
            player@,
            "你"@,
        ),
{
    let w = who_exec(player, "你");
    let mut s = crate::text::cat3("🌾收成了", w.as_str(), "送我種子長成的那畦");
    s.append(crop);
    s.append("，把第一把收穫回贈給");
    s.append(w.as_str());
    s
}

/// The feed line of the harvest handed back.
pub fn harvest_feed_line(rname: &str, player: &str, crop: &str) -> (r: String)
    ensures
        r@ == rname@ + "收成了"@ + who(player@, "有人"@) + "送的種子長成的"@ + crop@ + "，把第一把收穫回贈給"@ + who(
            player@,
            "有人"@,
        ) + "～"@,
{
    let w = who_exec(player, "有人");
    let mut s = crate::text::cat3(rname, "收成了", w.as_str());
    s.append("送的種子長成的");
    s.append(crop);
    s.append("，把第一把收穫回贈給");
    s.append(w.as_str());
    s.append("～");
    s
}

/// A gift garden: who planted it, who gave the seeds, and the crop.
#[derive(Debug, PartialEq)]
pub struct GiftGarden {
    /// The resident who planted it.
    pub resident_id: String,
    /// The player who gave the seeds.
    pub player: String,
    /// The crop code.
    pub crop: u8,
}

/// One entry of the gift garden log.
#[derive(Debug, PartialEq)]
pub struct GiftGardenEntry {
    /// The key of the crop's position.
    pub pos: String,
    /// The resident who planted it.
    pub resident_id: String,
    /// The player who gave the seeds.
    pub player: String,
    /// The crop code.
    pub crop: u8,
    /// Whether the garden is gone (harvested and handed back, or lost).
    pub removed: bool,
    /// The entry's sequence number; the highest one for a position holds.
    pub seq: u64,
}

/// A garden as plain values: (resident, player, crop).
pub type GardenView = (Seq<char>, Seq<char>, u8);

/// The plain values of a garden.
pub open spec fn garden_view(g: GiftGarden) -> GardenView {
    (g.resident_id@, g.player@, g.crop)
}

/// The garden an entry describes, or none for a removal.
pub open spec fn entry_garden(e: GiftGardenEntry) -> Option<GardenView> {
    if e.removed {
        None
    } else {
        Some((e.resident_id@, e.player@, e.crop))
    }
}

/// The entry that holds for `pos` after the log `es`: the first among those with the
/// highest sequence number.
pub open spec fn latest_entry(es: Seq<GiftGardenEntry>, pos: Seq<char>) -> Option<GiftGardenEntry>
    decreases es.len(),
{
    if es.len() == 0 {
        None
    } else {
        let prev = latest_entry(es.drop_last(), pos);
        let e = es.last();
        if e.pos@ == pos && (prev matches Some(p) ==> e.seq > p.seq) {
            Some(e)
        } else {
            prev
        }
    }
}

/// The garden at `pos` after replaying the log `es`.
pub open spec fn replay_garden(es: Seq<GiftGardenEntry>, pos: Seq<char>) -> Option<GardenView> {
    match latest_entry(es, pos) {
        Some(e) => entry_garden(e),
        None => None,
    }
}

/// The highest sequence number in the log (zero for an empty log).
pub open spec fn max_seq(es: Seq<GiftGardenEntry>) -> u64
    decreases es.len(),
{
    if es.len() == 0 {
        0
    } else if es.last().seq > max_seq(es.drop_last()) {
        es.last().seq
    } else {
        max_seq(es.drop_last())
    }
}

/// The gift gardens not yet harvested, by position key.
pub struct GiftGardenStore {
    plots: Vec<(String, GiftGarden)>,
    next_seq: u64,
}

/// The garden stored under `pos` in a list of gardens.
pub open spec fn garden_at(s: Seq<(String, GiftGarden)>, pos: Seq<char>) -> Option<GardenView> {
    match get(s, pos) {
        Some(g) => Some(garden_view(g)),
        None => None,
    }
}

impl GiftGardenStore {
    /// The garden at `pos`, if there is one.
    pub closed spec fn garden(self, pos: Seq<char>) -> Option<GardenView> {
        garden_at(self.plots@, pos)
    }

    /// The sequence number the next entry will get.
    pub closed spec fn next(self) -> u64 {
        self.next_seq
    }

    /// The store's invariant: one garden per position.
    pub closed spec fn wf(self) -> bool {
        keys_unique(self.plots@)
    }

    /// Whether the store describes what the log `log` replays to, with every entry of the
    /// log numbered below the next sequence number.
    pub open spec fn follows(self, log: Seq<GiftGardenEntry>) -> bool {
        &&& forall|p: Seq<char>| #[trigger] self.garden(p) == replay_garden(log, p)
        &&& forall|i: int| 0 <= i < log.len() ==> (#[trigger] log[i]).seq < self.next()
    }

    /// An empty store.
    pub fn new() -> (s: Self)
        ensures
            s.wf(),
            s.next() == 0,
            forall|p: Seq<char>| #[trigger] s.garden(p) is None,
    {
        GiftGardenStore { plots: Vec::new(), next_seq: 0 }
    }

    /// The store rebuilt from its log: for each position the entry with the highest
    /// sequence number (the first of them on a tie) holds, removals leave no garden, and
    /// numbering goes on after the highest number seen.
    pub fn from_entries(entries: Vec<GiftGardenEntry>) -> (s: Self)
        ensures
            s.wf(),
            forall|p: Seq<char>| #[trigger] s.garden(p) == replay_garden(entries@, p),
            s.next() == if max_seq(entries@) == u64::MAX { u64::MAX } else { (max_seq(entries@) + 1) as u64 },
    {
        let ghost orig = entries@;
        let mut latest: Vec<(String, GiftGardenEntry)> = Vec::new();
        let mut top: u64 = 0;
        let mut rest = entries;
        let total = rest.len();
        let mut taken: usize = 0;
        while rest.len() > 0
            invariant
                total == orig.len(),
                taken + rest.len() == total,
                rest@ == orig.subrange(taken as int, orig.len() as int),
                keys_unique(latest@),
                forall|p: Seq<char>| #[trigger] get(latest@, p) == latest_entry(orig.subrange(0, taken as int), p),
                top == max_seq(orig.subrange(0, taken as int)),
            decreases rest.len(),
        {
            let e = rest.remove(0);
            let ghost before = latest@;
            let ghost pre = orig.subrange(0, taken as int);
            proof {
                assert(orig.subrange(0, taken + 1).drop_last() =~= pre);
                assert(orig.subrange(0, taken + 1).last() == e);
                assert(rest@ =~= orig.subrange(taken + 1, orig.len() as int));
            }
            if e.seq > top {
                top = e.seq;
            }
            match find_key(&latest, e.pos.as_str()) {
                Some(i) => {
                    if e.seq > latest[i].1.seq {
                        let k = latest.remove(i);
                        let key = k.0;
                        latest.insert(i, (key, e));
                        proof {
                            assert(latest@ =~= before.update(i as int, (before[i as int].0, latest@[i as int].1)));
                            crate::assoc::lemma_update_value(before, i as int, latest@[i as int].1);
                            lemma_get_at(before, i as int);
                        }
                    } else {
                        proof {
                            lemma_get_at(before, i as int);
                        }
                    }
                },
                None => {
                    let key = e.pos.clone();
                    let ghost ev = e;
                    latest.push((key, e));
                    proof {
                        lemma_push_fresh(before, latest@.last().0, ev);
                    }
                },
            }
            taken = taken + 1;
        }
        proof {
            assert(orig.subrange(0, taken as int) =~= orig);
        }
        let mut plots: Vec<(String, GiftGarden)> = Vec::new();
        let ghost lat = latest@;
        let mut j: usize = 0;
        let mut src = latest;
        let n = src.len();
        while src.len() > 0
            invariant
                n == lat.len(),
                j + src.len() == n,
                src@ == lat.subrange(j as int, lat.len() as int),
                keys_unique(lat),
                keys_unique(plots@),
                forall|p: Seq<char>| #[trigger] garden_at(plots@, p) == match get(lat.subrange(0, j as int), p) {
                    Some(e) => entry_garden(e),
                    None => None,
                },
            decreases src.len(),
        {
            let item = src.remove(0);
            let ghost sub = lat.subrange(0, j as int);
            proof {
                assert(item == lat[j as int]);
                assert(lat.subrange(0, j + 1) =~= sub.push(lat[j as int]));
                assert(sub.push((item.0, item.1)) == lat.subrange(0, j + 1));
                assert(src@ =~= lat.subrange(j + 1, lat.len() as int));
                assert(keys_unique(sub));
                assert(!has_key(sub, item.0@)) by {
                    if has_key(sub, item.0@) {
                        let q = choose|q: int| 0 <= q < sub.len() && (#[trigger] sub[q]).0@ == item.0@;
                        assert(lat[q].0@ != lat[j as int].0@);
                    }
                }
                lemma_push_fresh(sub, item.0, item.1);
            }
            let ghost plots0 = plots@;
            let ghost it = item;
            let (key, e) = item;
            if !e.removed {
                let ghost before = plots@;
                let ghost kv = key@;
                proof {
                    assert(!has_key(before, kv)) by {
                        if has_key(before, kv) {
                            let q = choose|q: int| 0 <= q < before.len() && (#[trigger] before[q]).0@ == kv;
                            lemma_get_at(before, q);
                            assert(garden_at(before, kv) is Some);
                        }
                    }
                }
                let g = GiftGarden { resident_id: e.resident_id, player: e.player, crop: e.crop };
                plots.push((key, g));
                proof {
                    lemma_push_fresh(before, plots@.last().0, plots@.last().1);
                    assert(garden_view(plots@.last().1) == (it.1.resident_id@, it.1.player@, it.1.crop));
                }
            }
            proof {
                assert forall|p: Seq<char>| #[trigger] garden_at(plots@, p) == match get(lat.subrange(0, j + 1), p) {
                    Some(x) => entry_garden(x),
                    None => None,
                } by {
                    assert(get(lat.subrange(0, j + 1), p) == if p == it.0@ { Some(it.1) } else { get(sub, p) });
                    if p != it.0@ {
                        assert(garden_at(plots0, p) == match get(sub, p) {
                            Some(x) => entry_garden(x),
                            None => None,
                        });
                    } else {
                        assert(garden_at(plots0, p) == match get(sub, p) {
                            Some(x) => entry_garden(x),
                            None => None,
                        });
                        assert(get(sub, p) is None);
                    }
                }
            }
            j = j + 1;
        }
        proof {
            assert(lat.subrange(0, j as int) =~= lat);
        }
        let next_seq = if top == u64::MAX { u64::MAX } else { top + 1 };
        GiftGardenStore { plots, next_seq }
    }

    /// The sequence number the next entry will get.
    pub fn next_seq(&self) -> (n: u64)
        ensures
            n == self.next(),
    {
        self.next_seq
    }

    /// Whether there is no gift garden at all.
    pub fn is_empty(&self) -> (b: bool)
        requires
            self.wf(),
        ensures
            b == (forall|p: Seq<char>| #[trigger] self.garden(p) is None),
    {
        proof {
            if self.plots@.len() > 0 {
                lemma_get_at(self.plots@, 0);
                assert(self.garden(self.plots@[0].0@) is Some);
            }
        }
        self.plots.len() == 0
    }

    /// Notes a new gift garden at `pos` (replacing any there) and returns the log entry.
    pub fn record(&mut self, pos: &str, resident_id: &str, player: &str, crop: u8) -> (e: GiftGardenEntry)
        requires
            old(self).wf(),
            old(self).next() < u64::MAX,
        ensures
            final(self).wf(),
            final(self).next() == old(self).next() + 1,
            forall|p: Seq<char>| #[trigger] final(self).garden(p) == if p == pos@ {
                Some((resident_id@, player@, crop))
            } else {
                old(self).garden(p)
            },
            e.pos@ == pos@ && e.resident_id@ == resident_id@ && e.player@ == player@ && e.crop == crop,
            !e.removed,
            e.seq == old(self).next(),
    {
        let g = GiftGarden { resident_id: String::from_str(resident_id), player: String::from_str(player), crop };
        let ghost before = self.plots@;
        match find_key(&self.plots, pos) {
            Some(i) => {
                let k = self.plots.remove(i);
                self.plots.insert(i, (k.0, g));
                proof {
                    assert(self.plots@ =~= before.update(i as int, (before[i as int].0, self.plots@[i as int].1)));
                    crate::assoc::lemma_update_value(before, i as int, self.plots@[i as int].1);
                }
            },
            None => {
                self.plots.push((String::from_str(pos), g));
                proof {
                    lemma_push_fresh(before, self.plots@.last().0, self.plots@.last().1);
                }
            },
        }
        let seq = self.next_seq;
        self.next_seq = self.next_seq + 1;
        GiftGardenEntry {
            pos: String::from_str(pos),
            resident_id: String::from_str(resident_id),
            player: String::from_str(player),
            crop,
            removed: false,
            seq,
        }
    }

    /// Removes the gift garden at `pos` (harvested and handed back, or lost) and returns
    /// the log entry; nothing changes and none is returned when there is none.
    pub fn remove(&mut self, pos: &str) -> (r: Option<GiftGardenEntry>)
        requires
            old(self).wf(),
            old(self).next() < u64::MAX,
        ensures
            final(self).wf(),
            old(self).garden(pos@) is None ==> r is None && *final(self) == *old(self),
            old(self).garden(pos@) matches Some(g) ==> {
                &&& r matches Some(e) && e.pos@ == pos@ && e.removed && e.seq == old(self).next()
                    && (e.resident_id@, e.player@, e.crop) == g
                &&& final(self).next() == old(self).next() + 1
                &&& forall|p: Seq<char>| #[trigger] final(self).garden(p) == if p == pos@ {
                    None
                } else {
                    old(self).garden(p)
                }
            },
    {
        let ghost before = self.plots@;
        match find_key(&self.plots, pos) {
            None => None,
            Some(i) => {
                proof {
                    lemma_get_at(before, i as int);
                }
                let (_k, g) = self.plots.remove(i);
                proof {
                    crate::assoc::lemma_remove_at(before, i as int);
                }
                let seq = self.next_seq;
                self.next_seq = self.next_seq + 1;
                Some(GiftGardenEntry {
                    pos: String::from_str(pos),
                    resident_id: g.resident_id,
                    player: g.player,
                    crop: g.crop,
                    removed: true,
                    seq,
                })
            },
        }
    }

    /// The gift gardens of `resident_id` grown from `player`'s seeds: (position key, crop
    /// code), ordered by key.
    pub fn plots_for(&self, resident_id: &str, player: &str) -> (r: Vec<(String, u8)>)
        requires
            self.wf(),
        ensures
            forall|i: int, j: int| 0 <= i < j < r@.len() ==> lex_lt((#[trigger] r@[i]).0@, (#[trigger] r@[j]).0@),
            forall|i: int| 0 <= i < r@.len() ==> self.garden((#[trigger] r@[i]).0@) == Some((resident_id@, player@, r@[i].1)),
            forall|p: Seq<char>|
                #![trigger self.garden(p)]
                self.garden(p) is Some && self.garden(p).unwrap().0 == resident_id@ && self.garden(p).unwrap().1 == player@
                    ==> exists|i: int| 0 <= i < r@.len() && (#[trigger] r@[i]).0@ == p && r@[i].1 == self.garden(p).unwrap().2,
    {
        let mut out: Vec<(String, u8)> = Vec::new();
        let mut i: usize = 0;
        let ghost s = self.plots@;
        while i < self.plots.len()
            invariant
                s == self.plots@,
                keys_unique(s),
                i <= s.len(),
                key_sorted(out@),
                forall|a: int| 0 <= a < out@.len() ==> exists|q: int|
                    0 <= q < i && (#[trigger] s[q]).0@ == (#[trigger] out@[a]).0@ && garden_view(s[q].1) == (resident_id@, player@, out@[a].1),
                forall|q: int| 0 <= q < i && (#[trigger] s[q]).1.resident_id@ == resident_id@ && s[q].1.player@ == player@
                    ==> exists|a: int| 0 <= a < out@.len() && (#[trigger] out@[a]).0@ == s[q].0@ && out@[a].1 == s[q].1.crop,
            decreases s.len() - i,
        {
            let matches = crate::assoc::str_eq(self.plots[i].1.resident_id.as_str(), resident_id)
                && crate::assoc::str_eq(self.plots[i].1.player.as_str(), player);
            if matches {
                let key = self.plots[i].0.clone();
                let crop = self.plots[i].1.crop;
                let ghost before = out@;
                proof {
                    assert forall|a: int| 0 <= a < before.len() implies (#[trigger] before[a]).0@ != key@ by {
                        let q = choose|q: int|
                            0 <= q < i && (#[trigger] s[q]).0@ == before[a].0@ && garden_view(s[q].1) == (resident_id@, player@, before[a].1);
                        assert(s[q].0@ != s[i as int].0@);
                    }
                }
                insert_by_key(&mut out, key, crop);
                proof {
                    let now = out@;
                    assert forall|a: int| 0 <= a < now.len() implies exists|q: int|
                        0 <= q < i + 1 && (#[trigger] s[q]).0@ == (#[trigger] now[a]).0@ && garden_view(s[q].1) == (resident_id@, player@, now[a].1) by {
                        if now[a].0@ != s[i as int].0@ || now[a].1 != crop {
                            let b = choose|b: int| 0 <= b < before.len() && before[b] == now[a];
                            assert(before[b].0@ == now[a].0@);
                        }
                    }
                    assert forall|q: int| 0 <= q < i + 1 && (#[trigger] s[q]).1.resident_id@ == resident_id@ && s[q].1.player@ == player@
                        implies exists|a: int| 0 <= a < now.len() && (#[trigger] now[a]).0@ == s[q].0@ && now[a].1 == s[q].1.crop by {
                        if q < i {
                            let b = choose|b: int| 0 <= b < before.len() && (#[trigger] before[b]).0@ == s[q].0@ && before[b].1 == s[q].1.crop;
                            let a = choose|a: int| 0 <= a < now.len() && now[a] == before[b];
                            assert(now[a].0@ == s[q].0@);
                        }
                    }
                }
            }
            i = i + 1;
        }
        proof {
            assert forall|a: int| 0 <= a < out@.len() implies self.garden((#[trigger] out@[a]).0@) == Some((resident_id@, player@, out@[a].1)) by {
                let q = choose|q: int|
                    0 <= q < s.len() && (#[trigger] s[q]).0@ == out@[a].0@ && garden_view(s[q].1) == (resident_id@, player@, out@[a].1);
                lemma_get_at(s, q);
            }
            assert forall|p: Seq<char>|
                #![trigger self.garden(p)]
                self.garden(p) is Some && self.garden(p).unwrap().0 == resident_id@ && self.garden(p).unwrap().1 == player@
                implies exists|a: int| 0 <= a < out@.len() && (#[trigger] out@[a]).0@ == p && out@[a].1 == self.garden(p).unwrap().2 by {
                assert(has_key(s, p));
                let q = choose|q: int| 0 <= q < s.len() && (#[trigger] s[q]).0@ == p;
                lemma_get_at(s, q);
                assert(s[q].1.resident_id@ == resident_id@);
            }
        }
        out
    }
}

/// Pairs ordered strictly by key.
pub open spec fn key_sorted(v: Seq<(String, u8)>) -> bool {
    forall|a: int, b: int| 0 <= a < b < v.len() ==> lex_lt((#[trigger] v[a]).0@, (#[trigger] v[b]).0@)
}

fn insert_by_key(out: &mut Vec<(String, u8)>, key: String, crop: u8)
    requires
        key_sorted(old(out)@),
        forall|a: int| 0 <= a < old(out)@.len() ==> (#[trigger] old(out)@[a]).0@ != key@,
    ensures
        key_sorted(final(out)@),
        exists|a: int| 0 <= a < final(out)@.len() && (#[trigger] final(out)@[a]).0@ == key@ && final(out)@[a].1 == crop,
        forall|a: int| 0 <= a < final(out)@.len() ==> ((#[trigger] final(out)@[a]).0@ == key@ && final(out)@[a].1 == crop)
            || exists|b: int| 0 <= b < old(out)@.len() && old(out)@[b] == final(out)@[a],
        forall|b: int| 0 <= b < old(out)@.len() ==> exists|a: int| 0 <= a < final(out)@.len() && final(out)@[a] == (#[trigger] old(out)@[b]),
{
    let ghost before = out@;
    let ghost kv = key@;
    let mut at: usize = 0;
    while at < out.len() && str_lt(out[at].0.as_str(), key.as_str())
        invariant
            at <= out@.len(),
            out@ == before,
            forall|a: int| 0 <= a < at ==> lex_lt((#[trigger] out@[a]).0@, key@),
        decreases out@.len() - at,
    {
        at = at + 1;
    }
    proof {
        if at < before.len() {
            lemma_lex_total(before[at as int].0@, kv);
            assert(lex_lt(kv, before[at as int].0@));
        }
    }
    out.insert(at, (key, crop));
    proof {
        let now = out@;
        assert(now[at as int].0@ == kv);
        assert forall|a: int, b: int| 0 <= a < b < now.len() implies lex_lt((#[trigger] now[a]).0@, (#[trigger] now[b]).0@) by {
            if b < at {
                assert(now[a] == before[a] && now[b] == before[b]);
            } else if b == at {
                assert(now[a] == before[a]);
            } else if a < at {
                assert(now[a] == before[a] && now[b] == before[b - 1]);
                if b - 1 > at {
                    lemma_lex_trans(kv, before[at as int].0@, before[b - 1].0@);
                }
                lemma_lex_trans(before[a].0@, kv, before[b - 1].0@);
            } else if a == at {
                assert(now[b] == before[b - 1]);
                if b - 1 > at {
                    lemma_lex_trans(kv, before[at as int].0@, before[b - 1].0@);
                }
            } else {
                assert(now[a] == before[a - 1] && now[b] == before[b - 1]);
            }
        }
        assert forall|a: int| 0 <= a < now.len() implies ((#[trigger] now[a]).0@ == kv && now[a].1 == crop)
            || exists|b: int| 0 <= b < before.len() && before[b] == now[a] by {
            if a < at {
                assert(before[a] == now[a]);
            } else if a > at {
                assert(before[a - 1] == now[a]);
            }
        }
        assert forall|b: int| 0 <= b < before.len() implies exists|a: int| 0 <= a < now.len() && now[a] == (#[trigger] before[b]) by {
            if b < at {
                assert(now[b] == before[b]);
            } else {
                assert(now[b + 1] == before[b]);
            }
        }
    }
}

/// Appending an entry numbered above every entry of the log changes what the log replays
/// to at that entry's position only, to what the entry says.
pub proof fn lemma_replay_push(log: Seq<GiftGardenEntry>, e: GiftGardenEntry)
    requires
        forall|i: int| 0 <= i < log.len() ==> (#[trigger] log[i]).seq < e.seq,
    ensures
        forall|p: Seq<char>| #[trigger] replay_garden(log.push(e), p) == if p == e.pos@ {
            entry_garden(e)
        } else {
            replay_garden(log, p)
        },
{
    assert forall|p: Seq<char>| #[trigger] replay_garden(log.push(e), p) == if p == e.pos@ {
        entry_garden(e)
    } else {
        replay_garden(log, p)
    } by {
        assert(log.push(e).drop_last() =~= log);
        if p == e.pos@ {
            lemma_latest_entry_in_log(log, p);
        }
    }
}

proof fn lemma_latest_entry_in_log(log: Seq<GiftGardenEntry>, p: Seq<char>)
    ensures
        latest_entry(log, p) matches Some(x) ==> exists|i: int| 0 <= i < log.len() && log[i] == x,
    decreases log.len(),
{
    if log.len() > 0 {
        lemma_latest_entry_in_log(log.drop_last(), p);
        if let Some(x) = latest_entry(log, p) {
            if latest_entry(log.drop_last(), p) == Some(x) {
                let i = choose|i: int| 0 <= i < log.len() - 1 && log.drop_last()[i] == x;
                assert(log[i] == x);
            } else {
                assert(log[log.len() - 1] == x);
            }
        }
    }
}

/// Law: the log says what the store holds. A store that follows its log still follows it
/// after a record or a removal, once the entry that call returns is appended, so
/// replaying the log after a restart gives back the gardens that were there.
pub proof fn lemma_store_follows_log(
    before: GiftGardenStore,
    after: GiftGardenStore,
    log: Seq<GiftGardenEntry>,
    e: GiftGardenEntry,
)
    requires
        before.follows(log),
        e.seq == before.next(),
        after.next() == before.next() + 1,
        forall|p: Seq<char>| #[trigger] after.garden(p) == if p == e.pos@ {
            entry_garden(e)
        } else {
            before.garden(p)
        },
    ensures
        after.follows(log.push(e)),
{
    lemma_replay_push(log, e);
}


/// Law: after a restart, a resident's gardens for a player are what the log says. For a
/// store rebuilt from `log` (or any store that holds what replaying it gives), the list
/// [`GiftGardenStore::plots_for`] returns is sorted by position key and holds exactly the
/// positions whose latest entry is a garden of that resident for that player, each with
/// that entry's crop.
pub proof fn lemma_replayed_plots(
    s: GiftGardenStore,
    log: Seq<GiftGardenEntry>,
    resident_id: Seq<char>,
    player: Seq<char>,
    out: Seq<(String, u8)>,
)
    requires
        forall|p: Seq<char>| #[trigger] s.garden(p) == replay_garden(log, p),
        forall|i: int, j: int| 0 <= i < j < out.len() ==> lex_lt((#[trigger] out[i]).0@, (#[trigger] out[j]).0@),
        forall|i: int| 0 <= i < out.len() ==> s.garden((#[trigger] out[i]).0@) == Some((resident_id, player, out[i].1)),
        forall|p: Seq<char>|
            #![trigger s.garden(p)]
            s.garden(p) is Some && s.garden(p).unwrap().0 == resident_id && s.garden(p).unwrap().1 == player
                ==> exists|i: int| 0 <= i < out.len() && (#[trigger] out[i]).0@ == p && out[i].1 == s.garden(p).unwrap().2,
    ensures
        forall|i: int| 0 <= i < out.len() ==> replay_garden(log, (#[trigger] out[i]).0@) == Some((resident_id, player, out[i].1)),
        forall|p: Seq<char>|
            #![trigger replay_garden(log, p)]
            replay_garden(log, p) is Some && replay_garden(log, p).unwrap().0 == resident_id
                && replay_garden(log, p).unwrap().1 == player ==> exists|i: int|
                0 <= i < out.len() && (#[trigger] out[i]).0@ == p && out[i].1 == replay_garden(log, p).unwrap().2,
{
    assert forall|i: int| 0 <= i < out.len() implies replay_garden(log, (#[trigger] out[i]).0@) == Some((resident_id, player, out[i].1)) by {
        assert(s.garden(out[i].0@) == replay_garden(log, out[i].0@));
    }
    assert forall|p: Seq<char>|
        #![trigger replay_garden(log, p)]
        replay_garden(log, p) is Some && replay_garden(log, p).unwrap().0 == resident_id
            && replay_garden(log, p).unwrap().1 == player implies exists|i: int|
            0 <= i < out.len() && (#[trigger] out[i]).0@ == p && out[i].1 == replay_garden(log, p).unwrap().2 by {
        assert(s.garden(p) == replay_garden(log, p));
    }
}

} // verus!
