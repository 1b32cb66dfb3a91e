//! Word of mouth: a host tells a visiting friend about a player's epithet, so the
//! visitor knows the player by reputation before ever meeting them.

use vstd::prelude::*;
use crate::assoc::{keys_unique, has_key, get, lemma_get_at, find_key};
use crate::strset::{lex_lt, lemma_lex_total, lemma_lex_trans, str_lt};
use crate::text::{cat, cat3, cat5};
use crate::voxel_playerepithet::{PlayerRole, epithet_of};
use crate::voxel_epithet_esteem::{name_or, name_or_exec};

verus! {

/// An epithet heard second-hand, and from whom.
#[derive(Debug, PartialEq, Eq)]
pub struct Hearsay {
    pub role: PlayerRole,
    pub from: String,
}

impl Clone for Hearsay {
    fn clone(&self) -> (r: Self)
        ensures
            r == *self,
    {
        Hearsay { role: self.role, from: self.from.clone() }
    }
}

/// Whether the host's player `p` is one the visitor does not know at all yet.
pub open spec fn shareable(
    host: Seq<(String, PlayerRole)>,
    visitor_coined: Seq<(String, PlayerRole)>,
    visitor_heard: Seq<(String, Hearsay)>,
    p: Seq<char>,
) -> bool {
    has_key(host, p) && !has_key(visitor_coined, p) && !has_key(visitor_heard, p)
}

/// The player (and epithet) a host passes on to a visitor: among the host's players the
/// visitor neither named nor heard of, the first in name order; `None` when there is none.
pub fn pick_to_share(
    host_coined: &Vec<(String, PlayerRole)>,
    visitor_coined: &Vec<(String, PlayerRole)>,
    visitor_heard: &Vec<(String, Hearsay)>,
) -> (r: Option<(String, PlayerRole)>)
    requires
        keys_unique(host_coined@),
    ensures
        match r {
            Some((p, role)) => {
                &&& shareable(host_coined@, visitor_coined@, visitor_heard@, p@)
                &&& get(host_coined@, p@) == Some(role)
                &&& forall|q: Seq<char>|
                    shareable(host_coined@, visitor_coined@, visitor_heard@, q) && q != p@ ==> lex_lt(p@, q)
            },
            None => forall|q: Seq<char>| !shareable(host_coined@, visitor_coined@, visitor_heard@, q),
        },
{
    let mut best: Option<usize> = None;
    let mut i: usize = 0;
    while i < host_coined.len()
        invariant
            i <= host_coined@.len(),
            keys_unique(host_coined@),
            match best {
                Some(b) => {
                    &&& b < i
                    &&& shareable(host_coined@, visitor_coined@, visitor_heard@, host_coined@[b as int].0@)
                    &&& forall|j: int|
                        0 <= j < i && j != b && shareable(host_coined@, visitor_coined@, visitor_heard@, (#[trigger] host_coined@[j]).0@)
                            ==> lex_lt(host_coined@[b as int].0@, host_coined@[j].0@)
                },
                None => forall|j: int|
                    0 <= j < i ==> !shareable(host_coined@, visitor_coined@, visitor_heard@, (#[trigger] host_coined@[j]).0@),
            },
        decreases host_coined@.len() - i,
    {
        let name = host_coined[i].0.as_str();
        proof {
            assert(has_key(host_coined@, host_coined@[i as int].0@));
        }
        let ok = find_key(visitor_coined, name).is_none() && find_key(visitor_heard, name).is_none();
        if ok {
            match best {
                Some(b) => {
                    if str_lt(name, host_coined[b].0.as_str()) {
                        proof {
                            assert forall|j: int|
                                0 <= j < i + 1 && j != i && shareable(host_coined@, visitor_coined@, visitor_heard@, (#[trigger] host_coined@[j]).0@)
                                    implies lex_lt(host_coined@[i as int].0@, host_coined@[j].0@) by {
                                if j != b as int {
                                    lemma_lex_trans(host_coined@[i as int].0@, host_coined@[b as int].0@, host_coined@[j].0@);
                                }
                            }
                        }
                        best = Some(i);
                    } else {
                        proof {
                            lemma_lex_total(host_coined@[i as int].0@, host_coined@[b as int].0@);
                            assert(host_coined@[b as int].0@ != host_coined@[i as int].0@);
                        }
                    }
                },
                None => {
                    best = Some(i);
                },
            }
        }
        i = i + 1;
    }
    match best {
        Some(b) => {
            proof {
                lemma_get_at(host_coined@, b as int);
                assert forall|q: Seq<char>|
                    shareable(host_coined@, visitor_coined@, visitor_heard@, q) && q != host_coined@[b as int].0@ implies lex_lt(host_coined@[b as int].0@, q) by {
                    let j = choose|j: int| 0 <= j < host_coined@.len() && (#[trigger] host_coined@[j]).0@ == q;
                    assert(j != b);
                }
            }
            Some((host_coined[b].0.clone(), host_coined[b].1))
        },
        None => {
            proof {
                assert forall|q: Seq<char>| !shareable(host_coined@, visitor_coined@, visitor_heard@, q) by {
                    if has_key(host_coined@, q) {
                        let j = choose|j: int| 0 <= j < host_coined@.len() && (#[trigger] host_coined@[j]).0@ == q;
                    }
                }
            }
            None
        },
    }
}

/// The three greetings of a resident who knows a player only by hearsay.
pub open spec fn hearsay_template(from: Seq<char>, ep: Seq<char>, k: int) -> Seq<char> {
    if k == 0 {
        "你就是傳聞中的「"@ + ep + "」吧？久仰了～"@
    } else if k == 1 {
        "聽"@ + from + "提起過你，你就是那位「"@ + ep + "」！"@
    } else {
        "原來你就是大家口中的「"@ + ep + "」呀，總算見著了。"@
    }
}

/// A greeting by reputation, naming the epithet and who told it (朋友 when blank), chosen by `pick`.
pub fn hearsay_greeting_line(hs: &Hearsay, pick: usize) -> (r: String)
    ensures
        r@ == hearsay_template(name_or(hs.from@, "朋友"@), epithet_of(hs.role), (pick % 3) as int),
{
    let ep = hs.role.epithet();
    let from = name_or_exec(hs.from.as_str(), "朋友");
    let k = pick % 3;
    if k == 0 {
        cat3("你就是傳聞中的「", ep, "」吧？久仰了～")
    } else if k == 1 {
        cat5("聽", from.as_str(), "提起過你，你就是那位「", ep, "」！")
    } else {
        cat3("原來你就是大家口中的「", ep, "」呀，總算見著了。")
    }
}

/// The feed line of a visitor learning a player's epithet from a host.
pub fn spread_feed_line(host_name: &str, player_name: &str, role: PlayerRole) -> (r: String)
    ensures
        r@ == "聽"@ + name_or(host_name@, "一位老友"@) + "提起，記住了大家口中的「"@ + epithet_of(role) + "」——"@
            + name_or(player_name@, "那位旅人"@) + "。"@,
{
    let host = name_or_exec(host_name, "一位老友");
    let p = name_or_exec(player_name, "那位旅人");
    let mut s = cat5("聽", host.as_str(), "提起，記住了大家口中的「", role.epithet(), "」——");
    s.append(p.as_str());
    s.append("。");
    s
}

/// The visitor's own memory of hearing about the player (its subject is the host).
pub fn heard_memory_summary(host_name: &str, player_name: &str, role: PlayerRole) -> (r: String)
    ensures
        r@ == "聽"@ + name_or(host_name@, "一位老友"@) + "說起一位旅人"@ + name_or(player_name@, "一位旅人"@)
            + "，大家都喚作「"@ + epithet_of(role) + "」。"@,
{
    let host = name_or_exec(host_name, "一位老友");
    let p = name_or_exec(player_name, "一位旅人");
    let mut s = cat5("聽", host.as_str(), "說起一位旅人", p.as_str(), "，大家都喚作「");
    s.append(role.epithet());
    s.append("」。");
    s
}

} // verus!
