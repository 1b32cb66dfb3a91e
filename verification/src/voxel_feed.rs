//! The village feed: a log of what the residents did, so a returning player can read what
//! happened while away. Reading and writing the log file is done by the caller; this module
//! cleans the fields of a new event, orders events newest first, phrases how long ago an
//! event happened and decides what a rotation of the log keeps.

use vstd::prelude::*;
use crate::text::{dec, push_dec, string_views, trim_seq, trim_str};

verus! {

/// Most events handed to a reader, newest first.
pub const FEED_LIMIT: usize = 30;

/// Number of non-blank lines at which the log is rotated.
pub const FEED_ROTATION_LIMIT: usize = 500;

/// Number of newest lines a rotation keeps.
pub const FEED_KEEP_LINES: usize = 60;

/// One event of the feed.
#[derive(Debug, PartialEq)]
pub struct FeedEvent {
    /// Wall-clock Unix seconds of the event.
    pub ts_secs: u64,
    /// The kind of event, shown to players.
    pub kind: String,
    /// The resident the event is about.
    pub resident: String,
    /// What happened, shown to players.
    pub detail: String,
}

impl Clone for FeedEvent {
    fn clone(&self) -> (r: Self)
        ensures
            r == *self,
    {
        FeedEvent {
            ts_secs: self.ts_secs,
            kind: self.kind.clone(),
            resident: self.resident.clone(),
            detail: self.detail.clone(),
        }
    }
}

// ── cleaning a new event ────────────────────────────────────────────────────

/// A control character (general category Cc): U+0000 to U+001F and U+007F to U+009F.
pub open spec fn is_ctrl(c: char) -> bool {
    c <= '\u{1f}' || ('\u{7f}' <= c && c <= '\u{9f}')
}

/// Whether `c` is a control character.
pub fn is_control_char(c: char) -> (b: bool)
    ensures
        b == is_ctrl(c),
{
    c <= '\u{1f}' || ('\u{7f}' <= c && c <= '\u{9f}')
}

/// `s` with every control character left out.
pub open spec fn without_controls(s: Seq<char>) -> Seq<char>
    decreases s.len(),
{
    if s.len() == 0 {
        s
    } else if is_ctrl(s.last()) {
        without_controls(s.drop_last())
    } else {
        without_controls(s.drop_last()).push(s.last())
    }
}

/// `s` with control characters left out and surrounding whitespace trimmed.
pub fn sanitize(s: &str) -> (r: String)
    ensures
        r@ == trim_seq(without_controls(s@)),
{
    let v = crate::text::chars_of(s);
    let mut kept = String::new();
    let mut i: usize = 0;
    while i < v.len()
        invariant
            v@ == s@,
            i <= v.len(),
            kept@ == without_controls(s@.subrange(0, i as int)),
        decreases v.len() - i,
    {
        let c = v[i];
        proof {
            assert(s@.subrange(0, i + 1).drop_last() =~= s@.subrange(0, i as int));
        }
        if !is_control_char(c) {
            kept.append(s.substring_char(i, i + 1));
            proof {
                assert(s@.subrange(i as int, i + 1) =~= seq![c]);
            }
        }
        i = i + 1;
    }
    proof {
        assert(s@.subrange(0, v.len() as int) =~= s@);
    }
    String::from_str(trim_str(kept.as_str()))
}

/// The event to log for `kind`, `resident` and `detail` at `ts_secs`: each field cleaned by
/// [`sanitize`], or none when the cleaned kind or resident is empty.
pub fn feed_event_for(ts_secs: u64, kind: &str, resident: &str, detail: &str) -> (r: Option<FeedEvent>)
    ensures
        r is None <==> (trim_seq(without_controls(kind@)).len() == 0 || trim_seq(
            without_controls(resident@),
        ).len() == 0),
        r matches Some(ev) ==> ev.ts_secs == ts_secs && ev.kind@ == trim_seq(without_controls(kind@))
            && ev.resident@ == trim_seq(without_controls(resident@)) && ev.detail@ == trim_seq(
            without_controls(detail@),
        ),
{
    let k = sanitize(kind);
    let who = sanitize(resident);
    let d = sanitize(detail);
    if k.as_str().unicode_len() == 0 || who.as_str().unicode_len() == 0 {
        None
    } else {
        Some(FeedEvent { ts_secs, kind: k, resident: who, detail: d })
    }
}

// ── how long ago ────────────────────────────────────────────────────────────

/// Seconds from `event_ts` to `now_ts`, zero for an event in the future.
pub open spec fn elapsed(event_ts: u64, now_ts: u64) -> int {
    if now_ts >= event_ts { now_ts - event_ts } else { 0 }
}

/// "Just now" under a minute, then whole minutes, hours or days ago.
pub open spec fn relative_time_text(event_ts: u64, now_ts: u64) -> Seq<char> {
    let diff = elapsed(event_ts, now_ts);
    if diff < 60 {
        "剛才"@
    } else if diff < 3600 {
        dec((diff / 60) as nat) + " 分鐘前"@
    } else if diff < 86400 {
        dec((diff / 3600) as nat) + " 小時前"@
    } else {
        dec((diff / 86400) as nat) + " 天前"@
    }
}

/// How long ago an event at `event_ts` happened, seen at `now_ts`.
pub fn format_relative_time(event_ts: u64, now_ts: u64) -> (r: String)
    ensures
        r@ == relative_time_text(event_ts, now_ts),
{
    let diff = now_ts.saturating_sub(event_ts);
    if diff < 60 {
        String::from_str("剛才")
    } else {
        let mut s = String::new();
        if diff < 3600 {
            push_dec(&mut s, diff / 60);
            s.append(" 分鐘前");
        } else if diff < 86400 {
            push_dec(&mut s, diff / 3600);
            s.append(" 小時前");
        } else {
            push_dec(&mut s, diff / 86400);
            s.append(" 天前");
        }
        s
    }
}

// ── newest first ────────────────────────────────────────────────────────────

/// `sorted` with `e` placed after every event at least as new as `e`.
pub open spec fn insert_newest(sorted: Seq<FeedEvent>, e: FeedEvent) -> Seq<FeedEvent>
    decreases sorted.len(),
{
    if sorted.len() == 0 || sorted.last().ts_secs >= e.ts_secs {
        sorted.push(e)
    } else {
        insert_newest(sorted.drop_last(), e).push(sorted.last())
    }
}

/// The events ordered newest first; events of the same second keep their order.
pub open spec fn newest_first(s: Seq<FeedEvent>) -> Seq<FeedEvent>
    decreases s.len(),
{
    if s.len() == 0 {
        s
    } else {
        insert_newest(newest_first(s.drop_last()), s.last())
    }
}

/// The first `n` events of `s` (all of them when there are fewer).
pub open spec fn first_n(s: Seq<FeedEvent>, n: int) -> Seq<FeedEvent> {
    if n < s.len() { s.subrange(0, n) } else { s }
}

/// Events ordered from newest to oldest.
pub open spec fn is_newest_first(s: Seq<FeedEvent>) -> bool {
    forall|i: int, j: int| 0 <= i < j < s.len() ==> s[i].ts_secs >= s[j].ts_secs
}

/// Where [`insert_newest`] places `e`.
pub open spec fn newest_slot(s: Seq<FeedEvent>, e: FeedEvent) -> int
    decreases s.len(),
{
    if s.len() == 0 || s.last().ts_secs >= e.ts_secs {
        s.len() as int
    } else {
        newest_slot(s.drop_last(), e)
    }
}

proof fn lemma_newest_slot(s: Seq<FeedEvent>, e: FeedEvent)
    ensures
        0 <= newest_slot(s, e) <= s.len(),
        newest_slot(s, e) > 0 ==> s[newest_slot(s, e) - 1].ts_secs >= e.ts_secs,
        forall|i: int| newest_slot(s, e) <= i < s.len() ==> s[i].ts_secs < e.ts_secs,
        insert_newest(s, e) == s.subrange(0, newest_slot(s, e)).push(e) + s.subrange(
            newest_slot(s, e),
            s.len() as int,
        ),
    decreases s.len(),
{
    let k = newest_slot(s, e);
    if s.len() == 0 || s.last().ts_secs >= e.ts_secs {
        assert(s.subrange(0, k) =~= s);
        assert(s.subrange(k, s.len() as int) =~= Seq::<FeedEvent>::empty());
        assert(insert_newest(s, e) =~= s.subrange(0, k).push(e) + s.subrange(k, s.len() as int));
    } else {
        let t = s.drop_last();
        lemma_newest_slot(t, e);
        assert(newest_slot(s, e) == newest_slot(t, e));
        assert(s.subrange(0, k) =~= t.subrange(0, k));
        assert(s.subrange(k, s.len() as int) =~= t.subrange(k, t.len() as int).push(s.last()));
        assert forall|i: int| k <= i < s.len() implies s[i].ts_secs < e.ts_secs by {
            if i < t.len() {
                assert(s[i] == t[i]);
            }
        }
        assert(insert_newest(s, e) =~= s.subrange(0, k).push(e) + s.subrange(k, s.len() as int));
    }
}

proof fn lemma_insert_newest_keeps_order(s: Seq<FeedEvent>, e: FeedEvent)
    requires
        is_newest_first(s),
    ensures
        is_newest_first(insert_newest(s, e)),
        insert_newest(s, e).to_multiset() == s.to_multiset().insert(e),
        insert_newest(s, e).len() == s.len() + 1,
{
    lemma_newest_slot(s, e);
    let k = newest_slot(s, e);
    let a = s.subrange(0, k);
    let b = s.subrange(k, s.len() as int);
    let r = insert_newest(s, e);
    assert(r =~= a.push(e) + b);
    assert forall|i: int, j: int| 0 <= i < j < r.len() implies r[i].ts_secs >= r[j].ts_secs by {
        if i < k && j < k {
            assert(r[i] == s[i] && r[j] == s[j]);
        } else if i < k && j == k {
            assert(r[i] == s[i]);
            assert(s[i].ts_secs >= s[k - 1].ts_secs);
        } else if i < k {
            assert(r[i] == s[i] && r[j] == s[j - 1]);
        } else if i == k {
            assert(r[j] == s[j - 1]);
        } else {
            assert(r[i] == s[i - 1] && r[j] == s[j - 1]);
        }
    }
    vstd::seq_lib::lemma_multiset_commutative(a.push(e), b);
    vstd::seq_lib::lemma_multiset_commutative(a, b);
    assert(a + b =~= s);
    assert(a.push(e).to_multiset() =~= a.to_multiset().insert(e)) by {
        a.to_multiset_ensures();
    }
    assert(r.to_multiset() =~= s.to_multiset().insert(e));
}

/// Law: the feed's order is newest first, and it holds exactly the events it was given.
pub proof fn lemma_newest_first_orders_and_keeps(s: Seq<FeedEvent>)
    ensures
        is_newest_first(newest_first(s)),
        newest_first(s).to_multiset() == s.to_multiset(),
        newest_first(s).len() == s.len(),
    decreases s.len(),
{
    if s.len() == 0 {
        assert(s.to_multiset() =~= vstd::multiset::Multiset::empty()) by {
            s.to_multiset_ensures();
        }
    } else {
        let t = s.drop_last();
        lemma_newest_first_orders_and_keeps(t);
        lemma_insert_newest_keeps_order(newest_first(t), s.last());
        assert(t.push(s.last()) =~= s);
        assert(s.to_multiset() =~= t.to_multiset().insert(s.last())) by {
            t.to_multiset_ensures();
        }
    }
}

/// The newest `n` events, newest first; events of the same second keep the order in which
/// they were given.
pub fn latest_first(events: Vec<FeedEvent>, n: usize) -> (r: Vec<FeedEvent>)
    ensures
        r@ == first_n(newest_first(events@), n as int),
        is_newest_first(r@),
        r.len() == if n < events.len() { n as int } else { events.len() as int },
{
    let ghost orig = events@;
    let mut rest = events;
    let mut out: Vec<FeedEvent> = Vec::new();
    let total = rest.len();
    let mut taken: usize = 0;
    while rest.len() > 0
        invariant
            total == orig.len(),
            taken + rest.len() == total,
            rest@ == orig.subrange(taken as int, orig.len() as int),
            out@ == newest_first(orig.subrange(0, taken as int)),
        decreases rest.len(),
    {
        let e = rest.remove(0);
        let ghost before = out@;
        let mut j = out.len();
        while j > 0 && out[j - 1].ts_secs < e.ts_secs
            invariant
                j <= out.len(),
                out@ == before,
                forall|i: int| j <= i < out.len() ==> out@[i].ts_secs < e.ts_secs,
            decreases j,
        {
            j = j - 1;
        }
        proof {
            lemma_newest_slot(before, e);
            let k = newest_slot(before, e);
            if (j as int) < k {
                assert(before[k - 1].ts_secs < e.ts_secs);
            }
            if (j as int) > k {
                assert(before[j - 1].ts_secs < e.ts_secs);
            }
            assert(j as int == k);
            assert(orig.subrange(0, taken + 1).drop_last() =~= orig.subrange(0, taken as int));
            assert(orig.subrange(0, taken + 1).last() == e);
        }
        out.insert(j, e);
        proof {
            assert(out@ =~= before.subrange(0, j as int).push(e) + before.subrange(j as int, before.len() as int));
            assert(rest@ =~= orig.subrange(taken + 1, orig.len() as int));
        }
        taken = taken + 1;
    }
    proof {
        assert(orig.subrange(0, taken as int) =~= orig);
        lemma_newest_first_orders_and_keeps(orig);
    }
    out.truncate(n);
    out
}

// ── rotation ────────────────────────────────────────────────────────────────

/// A line with something other than whitespace on it.
pub open spec fn non_blank(l: Seq<char>) -> bool {
    trim_seq(l).len() > 0
}

/// The non-blank lines of `lines`, in order.
pub open spec fn non_blank_lines(lines: Seq<Seq<char>>) -> Seq<Seq<char>>
    decreases lines.len(),
{
    if lines.len() == 0 {
        lines
    } else if non_blank(lines.last()) {
        non_blank_lines(lines.drop_last()).push(lines.last())
    } else {
        non_blank_lines(lines.drop_last())
    }
}

/// What a rotation of the log keeps: none when the log has fewer than
/// [`FEED_ROTATION_LIMIT`] non-blank lines (no rotation), else its newest
/// [`FEED_KEEP_LINES`] non-blank lines, in order.
pub fn rotation_keep(lines: Vec<String>) -> (r: Option<Vec<String>>)
    ensures
        r is None <==> non_blank_lines(string_views(lines@)).len() < FEED_ROTATION_LIMIT,
        r matches Some(kept) ==> string_views(kept@) == {
            let nb = non_blank_lines(string_views(lines@));
            nb.subrange(nb.len() - FEED_KEEP_LINES, nb.len() as int)
        },
{
    let ghost views = string_views(lines@);
    let mut nb: Vec<String> = Vec::new();
    let mut rest = lines;
    let total = rest.len();
    let mut taken: usize = 0;
    while rest.len() > 0
        invariant
            total == views.len(),
            taken + rest.len() == total,
            string_views(rest@) == views.subrange(taken as int, views.len() as int),
            string_views(nb@) == non_blank_lines(views.subrange(0, taken as int)),
        decreases rest.len(),
    {
        let ghost rv = rest@;
        let l = rest.remove(0);
        proof {
            assert(rest@ =~= rv.subrange(1, rv.len() as int));
            assert(string_views(rv)[0] == l@);
            assert(views[taken as int] == string_views(rv)[0]);
            assert(views.subrange(0, taken + 1).drop_last() =~= views.subrange(0, taken as int));
            assert(views.subrange(0, taken + 1).last() == l@);
            assert(string_views(rest@) =~= string_views(rv).subrange(1, rv.len() as int));
            assert(string_views(rest@) =~= views.subrange(taken + 1, views.len() as int));
        }
        if trim_str(l.as_str()).unicode_len() > 0 {
            let ghost before = nb@;
            nb.push(l);
            proof {
                assert(string_views(nb@) =~= string_views(before).push(nb@.last()@));
            }
        }
        taken = taken + 1;
    }
    proof {
        assert(views.subrange(0, taken as int) =~= views);
    }
    if nb.len() < FEED_ROTATION_LIMIT {
        None
    } else {
        let start = nb.len() - FEED_KEEP_LINES;
        let ghost full = nb@;
        let mut kept: Vec<String> = Vec::new();
        let mut rest2 = nb;
        let total2 = rest2.len();
        let mut i: usize = 0;
        while rest2.len() > 0
            invariant
                total2 == full.len(),
                i + rest2.len() == total2,
                rest2@ == full.subrange(i as int, full.len() as int),
                start <= full.len(),
                string_views(kept@) == if i <= start {
                    Seq::<Seq<char>>::empty()
                } else {
                    string_views(full).subrange(start as int, i as int)
                },
            decreases rest2.len(),
        {
            let ghost r2 = rest2@;
            let l = rest2.remove(0);
            proof {
                assert(l == full[i as int]);
            }
            if i >= start {
                let ghost before = kept@;
                kept.push(l);
                proof {
                    assert(string_views(kept@) =~= string_views(before).push(l@));
                    assert(string_views(full)[i as int] == l@);
                    assert(string_views(kept@) =~= string_views(full).subrange(start as int, i + 1));
                }
            }
            i = i + 1;
            proof {
                assert(rest2@ =~= full.subrange(i as int, full.len() as int));
            }
        }
        Some(kept)
    }
}

} // verus!
