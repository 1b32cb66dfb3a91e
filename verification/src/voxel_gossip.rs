//! Gossip: when an old friend visits, the host passes on her latest first-hand news, and
//! the visitor remembers it, so what one resident did reaches another through friends.

use vstd::prelude::*;
use crate::text::{take_upto, truncate_chars};
use crate::voxel_memory::MemoryEntry;

verus! {

/// Most characters of the news kept in a retold line.
pub const GOSSIP_SNIPPET_MAX_CHARS: usize = 50;

/// The prefix that marks a neighbourly-life memory, kept for the diary only.
pub const NEIGHBORLY_TAG: &'static str = "🏘️鄰里";

/// The prefix that marks a memory of reading a sign, kept for the diary only.
pub const SIGN_MEMORY_TAG: &'static str = "🪧讀到告示牌";

/// Whether `s` begins with `prefix`.
pub open spec fn starts_with(s: Seq<char>, prefix: Seq<char>) -> bool {
    prefix.len() <= s.len() && s.subrange(0, prefix.len() as int) == prefix
}

fn starts_with_exec(s: &str, prefix: &str) -> (b: bool)
    ensures
        b == starts_with(s@, prefix@),
{
    let n = s.unicode_len();
    let m = prefix.unicode_len();
    if m > n {
        return false;
    }
    crate::assoc::str_eq(s.substring_char(0, m), prefix)
}

/// A memory carrying a diary-only tag.
pub open spec fn internal_tagged(s: Seq<char>) -> bool {
    starts_with(s, NEIGHBORLY_TAG@) || starts_with(s, SIGN_MEMORY_TAG@)
}

/// Whether a memory summary carries a diary-only tag.
pub fn is_internal_tagged(s: &str) -> (b: bool)
    ensures
        b == internal_tagged(s@),
{
    starts_with_exec(s, NEIGHBORLY_TAG) || starts_with_exec(s, SIGN_MEMORY_TAG)
}

/// Whether a memory may be passed on to `visitor`: it is not about the visitor, it says
/// something, it is not itself retold news (beginning with 聽), and it carries no diary tag.
pub open spec fn passable(e: MemoryEntry, visitor: Seq<char>) -> bool {
    &&& e.player@ != visitor
    &&& e.summary@.len() > 0
    &&& e.summary@[0] != '聽'
    &&& !internal_tagged(e.summary@)
}

/// The index of the newest passable memory (the last one on a tie of sequence numbers).
pub open spec fn newest_passable(mems: Seq<MemoryEntry>, visitor: Seq<char>) -> Option<int>
    decreases mems.len(),
{
    if mems.len() == 0 {
        None
    } else {
        let best = newest_passable(mems.drop_last(), visitor);
        if passable(mems.last(), visitor) && (best matches Some(b) ==> mems.last().seq >= mems[b].seq) {
            Some(mems.len() - 1)
        } else {
            best
        }
    }
}

/// The host's newest memory that may be passed on to the visitor.
pub fn pick_gossip<'a>(host_memories: &'a [MemoryEntry], visitor_name: &str) -> (r: Option<&'a MemoryEntry>)
    ensures
        r is Some <==> newest_passable(host_memories@, visitor_name@) is Some,
        r matches Some(e) ==> *e == host_memories@[newest_passable(host_memories@, visitor_name@).unwrap()],
{
    let ghost all = host_memories@;
    let mut best: Option<usize> = None;
    let mut i: usize = 0;
    while i < host_memories.len()
        invariant
            all == host_memories@,
            i <= all.len(),
            best matches Some(b) ==> b < i,
            (match best {
                Some(b) => Some(b as int),
                None => None,
            }) == newest_passable(all.subrange(0, i as int), visitor_name@),
        decreases all.len() - i,
    {
        let e = &host_memories[i];
        proof {
            assert(all.subrange(0, i + 1).drop_last() =~= all.subrange(0, i as int));
            assert(all.subrange(0, i + 1).last() == all[i as int]);
            if let Some(b) = best {
                assert(all.subrange(0, i + 1)[b as int] == all[b as int]);
            }
        }
        let ok = !crate::assoc::str_eq(e.player.as_str(), visitor_name) && e.summary.as_str().unicode_len() > 0
            && e.summary.as_str().get_char(0) != '聽' && !is_internal_tagged(e.summary.as_str());
        if ok {
            let newer = match best {
                Some(b) => e.seq >= host_memories[b].seq,
                None => true,
            };
            if newer {
                best = Some(i);
            }
        }
        i = i + 1;
    }
    proof {
        assert(all.subrange(0, i as int) =~= all);
    }
    match best {
        Some(b) => Some(&host_memories[b]),
        None => None,
    }
}

/// The retold news: "聽{host}說：" and the first [`GOSSIP_SNIPPET_MAX_CHARS`] characters of it.
pub fn format_gossip(host_name: &str, original_summary: &str) -> (r: String)
    ensures
        r@ == "聽"@ + host_name@ + "說："@ + take_upto(original_summary@, GOSSIP_SNIPPET_MAX_CHARS as int),
{
    let clipped = truncate_chars(original_summary, GOSSIP_SNIPPET_MAX_CHARS);
    let mut s = crate::text::cat3("聽", host_name, "說：");
    s.append(clipped.as_str());
    s
}

/// Whether the visitor already remembers this retold news from the host.
pub fn already_knows(existing_from_host: &[MemoryEntry], gossip_text: &str) -> (b: bool)
    ensures
        b == exists|i: int| 0 <= i < existing_from_host@.len() && (#[trigger] existing_from_host@[i]).summary@ == gossip_text@,
{
    let mut i: usize = 0;
    while i < existing_from_host.len()
        invariant
            i <= existing_from_host@.len(),
            forall|j: int| 0 <= j < i ==> (#[trigger] existing_from_host@[j]).summary@ != gossip_text@,
        decreases existing_from_host@.len() - i,
    {
        if crate::assoc::str_eq(existing_from_host[i].summary.as_str(), gossip_text) {
            return true;
        }
        i = i + 1;
    }
    false
}

} // verus!
