//! Old age: a resident born in the village becomes an elder after three years,
//! says so once in her life, and from then on can laugh off squabbles.

use vstd::prelude::*;
use crate::text::{take_upto, truncate_chars, cat, cat3, cat5};
use crate::strset::{set_of, vec_has, lemma_set_of_push, copy_strings};

verus! {

/// Seconds in a year of the world: four seasons of two 600-second days.
pub const YEAR_SECS: u64 = 4800;
/// Years a born resident lives before becoming an elder.
pub const ELDER_YEARS: u64 = 3;
/// The elder threshold in seconds.
pub const ELDER_SECS: u64 = ELDER_YEARS * YEAR_SECS;
/// Longest name shown, in characters.
pub const NAME_MAX: usize = 12;
/// Feed category of becoming an elder.
pub const FEED_KIND: &'static str = "步入晚年";
/// Feed category of an elder defusing a squabble.
pub const FEED_KIND_DEFUSE: &'static str = "長者化解";

/// A name cut to [`NAME_MAX`] characters.
pub fn clip(name: &str) -> (r: String)
    ensures
        r@ == take_upto(name@, NAME_MAX as int),
{
    truncate_chars(name, NAME_MAX)
}

/// A name cut to [`NAME_MAX`] characters, or `fallback` when that leaves nothing.
pub open spec fn clipped_or(name: Seq<char>, fallback: Seq<char>) -> Seq<char> {
    if take_upto(name, NAME_MAX as int).len() == 0 {
        fallback
    } else {
        take_upto(name, NAME_MAX as int)
    }
}

/// A name cut to [`NAME_MAX`] characters, or `fallback` when that leaves nothing.
pub fn clip_or(name: &str, fallback: &str) -> (r: String)
    ensures
        r@ == clipped_or(name@, fallback@),
{
    let s = clip(name);
    if s.as_str().unicode_len() == 0 {
        String::from_str(fallback)
    } else {
        s
    }
}

/// Whether this is the moment a resident becomes an elder: she was born in the village
/// (`birth_unix` non-zero), is not an elder yet, and has lived at least [`ELDER_SECS`]
/// (a clock running backwards counts as no time lived).
pub fn is_elder_moment(birth_unix: u64, now: u64, already: bool) -> (b: bool)
    ensures
        b == (birth_unix != 0 && !already && now >= birth_unix && now - birth_unix >= ELDER_SECS),
{
    let lived = if now >= birth_unix { now - birth_unix } else { 0 };
    birth_unix != 0 && !already && lived >= ELDER_SECS
}

/// The three things a resident says on becoming an elder, around her (clipped) name.
pub open spec fn elder_say_template(n: Seq<char>, k: int) -> Seq<char> {
    if k == 0 {
        "不知不覺，"@ + n + "也走到了這把年紀啊——往後就換年輕人多擔待點了。"@
    } else if k == 1 {
        n + "這些年看著這片天地一點一滴長大，如今也算是村裡的長者了。"@
    } else {
        "歲月是真的走得快，"@ + n + "如今回頭看，滿滿都是這片天地的日子。"@
    }
}

/// What a resident says on becoming an elder (an empty name reads as 我), chosen by `pick`.
pub fn elder_say_line(name: &str, pick: usize) -> (r: String)
    ensures
        r@ == elder_say_template(clipped_or(name@, "我"@), (pick % 3) as int),
{
    let n = clip_or(name, "我");
    let k = pick % 3;
    if k == 0 {
        cat3("不知不覺，", n.as_str(), "也走到了這把年紀啊——往後就換年輕人多擔待點了。")
    } else if k == 1 {
        cat(n.as_str(), "這些年看著這片天地一點一滴長大，如今也算是村裡的長者了。")
    } else {
        cat3("歲月是真的走得快，", n.as_str(), "如今回頭看，滿滿都是這片天地的日子。")
    }
}

/// The lasting memory of becoming an elder (one line).
pub fn elder_memory_line() -> (r: String)
    ensures
        r@ == "我在這片天地度過了大半輩子，如今也步入晚年了。往後我一定會把這些年攢下的從容，留給還年輕的大家。"@,
{
    String::from_str("我在這片天地度過了大半輩子，如今也步入晚年了。往後我一定會把這些年攢下的從容，留給還年輕的大家。")
}

/// The feed line of a resident becoming an elder (an empty name reads as 一位居民).
pub fn elder_feed_line(name: &str) -> (r: String)
    ensures
        r@ == clipped_or(name@, "一位居民"@) + "不知不覺也走到了晚年，成了村裡受人敬重的長者"@,
{
    let n = clip_or(name, "一位居民");
    cat(n.as_str(), "不知不覺也走到了晚年，成了村裡受人敬重的長者")
}

/// The small matters an elder laughs off, matching the squabble topics.
pub open spec fn defuse_topics() -> Seq<Seq<char>> {
    seq!["該誰澆花"@, "木頭該怎麼分才公平"@, "誰又忘記關門"@, "工具該放在哪裡"@, "誰把院子踩出一條新路"@, "誰吃掉了最後一顆胡蘿蔔"@]
}

/// The topic at `pick`, taken modulo the number of topics.
pub fn pick_defuse_topic(pick: usize) -> (r: &'static str)
    ensures
        r@ == defuse_topics()[(pick % 6) as int],
{
    let topics: [&'static str; 6] = ["該誰澆花", "木頭該怎麼分才公平", "誰又忘記關門", "工具該放在哪裡", "誰把院子踩出一條新路", "誰吃掉了最後一顆胡蘿蔔"];
    proof {
        assert(crate::text::views(topics@) =~= defuse_topics());
        assert(crate::text::views(topics@)[(pick % 6) as int] == topics@[(pick % 6) as int]@);
    }
    topics[pick % 6]
}

/// What the elder `host` says when laughing off a squabble.
pub fn elder_defuse_say_line(host: &str, pick: usize) -> (r: String)
    ensures
        r@ == "「"@ + defuse_topics()[(pick % 6) as int] + "呀……」"@ + host@ + "笑了笑擺擺手，這點小事，值得吵嗎？"@,
{
    let topic = pick_defuse_topic(pick);
    let mut s = cat5("「", topic, "呀……」", host, "笑了笑擺擺手，這點小事，值得吵嗎？");
    s
}

/// The feed line of `visitor`'s squabble with the elder `host` being laughed off.
pub fn elder_defuse_feed_line(visitor: &str, host: &str, pick: usize) -> (r: String)
    ensures
        r@ == visitor@ + "本想跟"@ + host@ + "為了"@ + defuse_topics()[(pick % 6) as int] + "拌幾句嘴，卻被長者的從容一笑帶過了"@,
{
    let topic = pick_defuse_topic(pick);
    let mut s = cat5(visitor, "本想跟", host, "為了", topic);
    s.append("拌幾句嘴，卻被長者的從容一笑帶過了");
    s
}

/// A persisted record: this resident has become an elder.
#[derive(Debug)]
pub struct ElderEntry {
    pub resident: String,
}

impl Clone for ElderEntry {
    fn clone(&self) -> (r: Self)
        ensures
            r == *self,
    {
        ElderEntry { resident: self.resident.clone() }
    }
}

/// The residents who have become elders.
#[derive(Debug)]
pub struct ElderStore {
    done: Vec<String>,
}

/// The residents named by a list of records.
pub open spec fn residents_of(entries: Seq<ElderEntry>) -> Set<Seq<char>> {
    Set::new(|k: Seq<char>| exists|i: int| 0 <= i < entries.len() && (#[trigger] entries[i]).resident@ == k)
}

impl ElderStore {
    /// The set of elders.
    pub closed spec fn elders(&self) -> Set<Seq<char>> {
        set_of(self.done@)
    }

    /// An empty ledger.
    pub fn new() -> (s: Self)
        ensures
            s.elders() == Set::<Seq<char>>::empty(),
    {
        let s = ElderStore { done: Vec::new() };
        assert(s.elders() =~= Set::<Seq<char>>::empty());
        s
    }

    /// The ledger holding exactly the residents of the given records.
    pub fn from_entries(entries: Vec<ElderEntry>) -> (s: Self)
        ensures
            s.elders() == residents_of(entries@),
    {
        let mut done: Vec<String> = Vec::new();
        let mut i: usize = 0;
        while i < entries.len()
            invariant
                i <= entries@.len(),
                set_of(done@) == residents_of(entries@.subrange(0, i as int)),
            decreases entries@.len() - i,
        {
            let r = entries[i].resident.clone();
            proof {
                lemma_set_of_push(done@, r);
                assert(residents_of(entries@.subrange(0, i as int + 1)) =~= residents_of(entries@.subrange(0, i as int)).insert(r@)) by {
                    let a = entries@.subrange(0, i as int);
                    let b = entries@.subrange(0, i as int + 1);
                    assert forall|k: Seq<char>| residents_of(b).contains(k) == residents_of(a).insert(r@).contains(k) by {
                        if residents_of(a).contains(k) {
                            let j = choose|j: int| 0 <= j < a.len() && (#[trigger] a[j]).resident@ == k;
                            assert(b[j] == a[j]);
                        }
                        if k == r@ {
                            assert(b[i as int] == entries@[i as int]);
                        }
                        if residents_of(b).contains(k) {
                            let j = choose|j: int| 0 <= j < b.len() && (#[trigger] b[j]).resident@ == k;
                            if j < i {
                                assert(a[j] == b[j]);
                            }
                        }
                    }
                }
            }
            done.push(r);
            i = i + 1;
        }
        assert(entries@.subrange(0, i as int) =~= entries@);
        ElderStore { done }
    }

    /// Marks a resident as an elder; `true` only the first time.
    pub fn mark(&mut self, resident: &str) -> (first: bool)
        ensures
            first == !old(self).elders().contains(resident@),
            final(self).elders() == old(self).elders().insert(resident@),
    {
        if vec_has(&self.done, resident) {
            assert(old(self).elders().insert(resident@) =~= old(self).elders());
            return false;
        }
        let r = String::from_str(resident);
        proof {
            lemma_set_of_push(self.done@, r);
        }
        self.done.push(r);
        true
    }

    /// Whether a resident is an elder.
    pub fn has(&self, resident: &str) -> (b: bool)
        ensures
            b == self.elders().contains(resident@),
    {
        vec_has(&self.done, resident)
    }

    /// A copy of the elders, independent of later changes.
    pub fn snapshot(&self) -> (r: Vec<String>)
        ensures
            set_of(r@) == self.elders(),
    {
        copy_strings(&self.done)
    }
}

} // verus!
