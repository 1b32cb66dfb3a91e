//! Dreams: while asleep a resident sometimes relives a treasured memory, shown as a
//! dream bubble and a line in the town feed.

use vstd::prelude::*;
use crate::text::{take_upto, trim_seq, trim_take, cat, cat3};

verus! {

/// Longest dream bubble or feed line, in characters.
pub const DREAM_MAX_CHARS: usize = 40;
/// Longest dream core taken from a memory summary, in characters.
pub const DREAM_CORE_CHARS: usize = 16;
/// How many recent memories are dream candidates.
pub const DREAM_WINDOW: usize = 24;

/// Which of `count` treasured memories to dream of: none when there are none, else
/// `pick` taken modulo the count, so successive dreams rotate.
pub fn pick_dream(count: usize, pick: usize) -> (r: Option<usize>)
    ensures
        count == 0 ==> r == None::<usize>,
        count > 0 ==> r == Some(pick % count),
{
    if count == 0 {
        None
    } else {
        Some(pick % count)
    }
}

/// The dream core of a memory summary: trimmed, then cut to [`DREAM_CORE_CHARS`].
pub open spec fn dream_core(summary: Seq<char>) -> Seq<char> {
    take_upto(trim_seq(summary), DREAM_CORE_CHARS as int)
}

/// The core of a memory summary, trimmed and cut to [`DREAM_CORE_CHARS`] characters.
pub fn trim_core(memory_summary: &str) -> (r: String)
    ensures
        r@ == dream_core(memory_summary@),
{
    trim_take(memory_summary, DREAM_CORE_CHARS)
}

/// The three dream bubble templates around a core.
pub open spec fn dream_template(core: Seq<char>, k: int) -> Seq<char> {
    if k == 0 {
        "💤 夢裡又回到那時候……"@ + core
    } else if k == 1 {
        "睡夢中，"@ + core + "……的畫面又浮了上來 💤"@
    } else {
        "💤 夢見了……"@ + core
    }
}

/// The dream bubble of a sleeping resident: template `pick % 3` around the memory's core,
/// cut to [`DREAM_MAX_CHARS`] characters.
pub fn dream_bubble(memory_summary: &str, pick: usize) -> (r: String)
    ensures
        r@ == take_upto(dream_template(dream_core(memory_summary@), (pick % 3) as int), DREAM_MAX_CHARS as int),
        r@.len() <= DREAM_MAX_CHARS,
{
    let core = trim_core(memory_summary);
    let k = pick % 3;
    let line = if k == 0 {
        cat("💤 夢裡又回到那時候……", core.as_str())
    } else if k == 1 {
        cat3("睡夢中，", core.as_str(), "……的畫面又浮了上來 💤")
    } else {
        cat("💤 夢見了……", core.as_str())
    };
    crate::text::truncate_chars(line.as_str(), DREAM_MAX_CHARS)
}

/// The feed line of a dream: a fixed stem followed by the memory's core.
pub fn dream_feed_line(memory_summary: &str) -> (r: String)
    ensures
        r@ == "在睡夢裡又回到了那天——"@ + dream_core(memory_summary@),
{
    let core = trim_core(memory_summary);
    cat("在睡夢裡又回到了那天——", core.as_str())
}

} // verus!
