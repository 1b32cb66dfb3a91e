//! Home life: a resident at home does the chore her home's accent suggests (cooking at a
//! hearth, lighting lamps after dusk, …) and may say one of her own home lines.

use vstd::prelude::*;
use crate::assoc::{keys_unique, has_key, get, lemma_get_at, lemma_push_fresh, lemma_update_value, find_key, str_eq};
use crate::text::string_views;

verus! {

/// The chore a resident at home feels like doing, from her home's accent.
#[derive(Clone, Copy, PartialEq, Eq, Debug, Structural)]
pub enum HomeAct {
    /// Cooking at the hearth.
    Cook,
    /// Drawing water at the well.
    DrawWater,
    /// Lighting the lamps (only after dusk).
    LightLamps,
    /// Tending the flower bed.
    TendGarden,
    /// Reading.
    Read,
    /// Standing before the monument.
    GazeMonument,
    /// Welcoming guests.
    Host,
    /// Resting.
    Rest,
}

/// The chore for an accent; any other accent (the empty one and "none" among them) rests.
pub open spec fn act_of(accent: Seq<char>) -> HomeAct {
    if accent == "hearth"@ {
        HomeAct::Cook
    } else if accent == "water"@ {
        HomeAct::DrawWater
    } else if accent == "lights"@ {
        HomeAct::LightLamps
    } else if accent == "garden"@ {
        HomeAct::TendGarden
    } else if accent == "library"@ {
        HomeAct::Read
    } else if accent == "monument"@ {
        HomeAct::GazeMonument
    } else if accent == "open"@ {
        HomeAct::Host
    } else {
        HomeAct::Rest
    }
}

/// The chore for a home's accent.
pub fn act_for_accent(accent: &str) -> (a: HomeAct)
    ensures
        a == act_of(accent@),
{
    if str_eq(accent, "hearth") {
        HomeAct::Cook
    } else if str_eq(accent, "water") {
        HomeAct::DrawWater
    } else if str_eq(accent, "lights") {
        HomeAct::LightLamps
    } else if str_eq(accent, "garden") {
        HomeAct::TendGarden
    } else if str_eq(accent, "library") {
        HomeAct::Read
    } else if str_eq(accent, "monument") {
        HomeAct::GazeMonument
    } else if str_eq(accent, "open") {
        HomeAct::Host
    } else {
        HomeAct::Rest
    }
}

/// Whether a chore fits the time: lamps are lit only at dusk or night, every other chore
/// fits any time.
pub fn act_apt_now(act: HomeAct, is_dusk_or_night: bool) -> (b: bool)
    ensures
        b == (act != HomeAct::LightLamps || is_dusk_or_night),
{
    match act {
        HomeAct::LightLamps => is_dusk_or_night,
        _ => true,
    }
}

/// The verb of a chore.
pub open spec fn act_verb(act: HomeAct) -> Seq<char> {
    match act {
        HomeAct::Cook => "生火煮飯"@,
        HomeAct::DrawWater => "打水"@,
        HomeAct::LightLamps => "點燈"@,
        HomeAct::TendGarden => "侍弄花圃"@,
        HomeAct::Read => "翻書"@,
        HomeAct::GazeMonument => "佇立碑前"@,
        HomeAct::Host => "迎客"@,
        HomeAct::Rest => "歇息"@,
    }
}

/// The verb of a chore.
pub fn act_verb_zh(act: HomeAct) -> (r: &'static str)
    ensures
        r@ == act_verb(act),
{
    match act {
        HomeAct::Cook => "生火煮飯",
        HomeAct::DrawWater => "打水",
        HomeAct::LightLamps => "點燈",
        HomeAct::TendGarden => "侍弄花圃",
        HomeAct::Read => "翻書",
        HomeAct::GazeMonument => "佇立碑前",
        HomeAct::Host => "迎客",
        HomeAct::Rest => "歇息",
    }
}

/// One resident's home-life card: her id, name, home accent and her own lines.
#[derive(Debug)]
pub struct HomeLifeCard {
    pub id: String,
    pub name: String,
    pub accent: String,
    pub lines: Vec<String>,
}

/// The lines a list of cards gives `rid`: those of the last card with that id (a card with
/// an empty id is skipped).
pub open spec fn card_lines(cards: Seq<HomeLifeCard>, rid: Seq<char>) -> Option<Seq<Seq<char>>>
    decreases cards.len(),
{
    if cards.len() == 0 {
        None
    } else if cards.last().id@.len() > 0 && cards.last().id@ == rid {
        Some(string_views(cards.last().lines@))
    } else {
        card_lines(cards.drop_last(), rid)
    }
}

/// Every resident's own home lines, by resident id.
pub struct HomeLifeStore {
    map: Vec<(String, Vec<String>)>,
}

impl HomeLifeStore {
    /// The lines of resident `rid`, if she has a card.
    pub closed spec fn lines_of(self, rid: Seq<char>) -> Option<Seq<Seq<char>>> {
        match get(self.map@, rid) {
            Some(v) => Some(string_views(v@)),
            None => None,
        }
    }

    /// The residents with a card.
    pub closed spec fn residents(self) -> Set<Seq<char>> {
        Set::new(|rid: Seq<char>| self.lines_of(rid) is Some)
    }

    /// The invariant: one card per resident.
    pub closed spec fn wf(self) -> bool {
        keys_unique(self.map@)
    }

    /// No cards.
    pub fn new() -> (s: Self)
        ensures
            s.wf(),
            forall|rid: Seq<char>| #[trigger] s.lines_of(rid) is None,
    {
        HomeLifeStore { map: Vec::new() }
    }

    /// The store of a list of cards: cards with an empty id are skipped, and of two cards
    /// with one id the later holds.
    pub fn from_cards(cards: Vec<HomeLifeCard>) -> (s: Self)
        ensures
            s.wf(),
            forall|rid: Seq<char>| #[trigger] s.lines_of(rid) == card_lines(cards@, rid),
    {
        let ghost orig = cards@;
        let mut s = HomeLifeStore::new();
        let mut rest = cards;
        let total = rest.len();
        let mut taken: usize = 0;
        while rest.len() > 0
            invariant
                total == orig.len(),
                taken + rest.len() == total,
                rest@ == orig.subrange(taken as int, orig.len() as int),
                s.wf(),
                forall|rid: Seq<char>| #[trigger] s.lines_of(rid) == card_lines(orig.subrange(0, taken as int), rid),
            decreases rest.len(),
        {
            let c = rest.remove(0);
            let ghost s0 = s;
            let ghost pre = orig.subrange(0, taken as int);
            let ghost cv = c;
            proof {
                assert(orig.subrange(0, taken + 1).drop_last() =~= pre);
                assert(orig.subrange(0, taken + 1).last() == c);
                assert(rest@ =~= orig.subrange(taken + 1, orig.len() as int));
            }
            if c.id.as_str().unicode_len() > 0 {
                let ghost before = s.map@;
                let HomeLifeCard { id, name: _, accent: _, lines } = c;
                match find_key(&s.map, id.as_str()) {
                    Some(i) => {
                        let k = s.map.remove(i);
                        s.map.insert(i, (k.0, lines));
                        proof {
                            assert(s.map@ =~= before.update(i as int, (before[i as int].0, s.map@[i as int].1)));
                            lemma_update_value(before, i as int, s.map@[i as int].1);
                            assert(s.map@[i as int].1 == cv.lines);
                            assert(before[i as int].0@ == cv.id@);
                        }
                    },
                    None => {
                        s.map.push((id, lines));
                        proof {
                            lemma_push_fresh(before, s.map@.last().0, s.map@.last().1);
                            assert(s.map@.last().1 == cv.lines);
                            assert(s.map@.last().0@ == cv.id@);
                        }
                    },
                }
                proof {
                    assert forall|rid: Seq<char>| #[trigger] s.lines_of(rid) == card_lines(orig.subrange(0, taken + 1), rid) by {
                        if rid == cv.id@ {
                            assert(get(s.map@, rid) == Some(cv.lines));
                        } else {
                            assert(get(s.map@, rid) == get(before, rid));
                            assert(s0.lines_of(rid) == card_lines(pre, rid));
                        }
                    }
                }
            }
            proof {
                assert forall|rid: Seq<char>| #[trigger] s.lines_of(rid) == card_lines(orig.subrange(0, taken + 1), rid) by {
                    assert(s0.lines_of(rid) == card_lines(pre, rid));
                }
            }
            taken = taken + 1;
        }
        proof {
            assert(orig.subrange(0, taken as int) =~= orig);
        }
        s
    }

    /// How many residents have a card.
    pub fn len(&self) -> (n: usize)
        requires
            self.wf(),
        ensures
            n == self.residents().len(),
    {
        proof {
            let keys = self.map@.map_values(|p: (String, Vec<String>)| p.0@);
            assert(keys.no_duplicates()) by {
                assert forall|i: int, j: int| 0 <= i < keys.len() && 0 <= j < keys.len() && i != j implies keys[i] != keys[j] by {
                    if i < j {
                        assert(self.map@[i].0@ != self.map@[j].0@);
                    } else {
                        assert(self.map@[j].0@ != self.map@[i].0@);
                    }
                }
            }
            keys.unique_seq_to_set();
            assert forall|rid: Seq<char>| keys.to_set().contains(rid) == self.residents().contains(rid) by {
                if keys.to_set().contains(rid) {
                    let i = choose|i: int| 0 <= i < keys.len() && keys[i] == rid;
                    lemma_get_at(self.map@, i);
                }
                if self.residents().contains(rid) {
                    assert(has_key(self.map@, rid));
                    let i = choose|i: int| 0 <= i < self.map@.len() && (#[trigger] self.map@[i]).0@ == rid;
                    assert(keys[i] == rid);
                }
            }
            assert(keys.to_set() =~= self.residents());
        }
        self.map.len()
    }

    /// Whether no resident has a card.
    pub fn is_empty(&self) -> (b: bool)
        requires
            self.wf(),
        ensures
            b == (self.residents() == Set::<Seq<char>>::empty()),
    {
        proof {
            if self.map@.len() > 0 {
                lemma_get_at(self.map@, 0);
                assert(self.residents().contains(self.map@[0].0@));
            } else {
                assert(self.residents() =~= Set::<Seq<char>>::empty());
            }
        }
        self.map.len() == 0
    }

    /// One of `rid`'s lines, chosen by `salt` modulo their number; none when she has no
    /// card or no line.
    pub fn pick(&self, rid: &str, salt: u64) -> (r: Option<String>)
        requires
            self.wf(),
        ensures
            match self.lines_of(rid@) {
                Some(ls) => if ls.len() == 0 {
                    r is None
                } else {
                    r matches Some(l) && l@ == ls[(salt % (ls.len() as u64)) as int]
                },
                None => r is None,
            },
    {
        match find_key(&self.map, rid) {
            None => None,
            Some(i) => {
                proof {
                    lemma_get_at(self.map@, i as int);
                }
                let lines = &self.map[i].1;
                if lines.len() == 0 {
                    return None;
                }
                let idx = (salt % (lines.len() as u64)) as usize;
                Some(lines[idx].clone())
            },
        }
    }
}

impl Default for HomeLifeStore {
    fn default() -> (s: Self)
        ensures
            s.wf(),
            forall|rid: Seq<char>| #[trigger] s.lines_of(rid) is None,
    {
        HomeLifeStore::new()
    }
}

} // verus!
