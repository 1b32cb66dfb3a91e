//! Gratitude: a resident remembers who shared a meal with her when she was hungry, and
//! repays that meal when her benefactor is hungry, even before they have become friends.

use vstd::prelude::*;
use crate::assoc::str_eq;
use crate::text::views;

verus! {

/// The feed's name for this kind of event.
pub const FEED_KIND: &'static str = "知恩圖報";

/// The meals owed: which resident owes which benefactor a meal.
pub struct MealDebts {
    debts: Vec<(String, String)>,
}

/// The (debtor, benefactor) pairs of a list, as text.
pub open spec fn pair_views(v: Seq<(String, String)>) -> Seq<(Seq<char>, Seq<char>)> {
    v.map_values(|p: (String, String)| (p.0@, p.1@))
}

impl MealDebts {
    /// Every (debtor, benefactor) pair now owed.
    pub closed spec fn owed(self) -> Set<(Seq<char>, Seq<char>)> {
        pair_views(self.debts@).to_set()
    }

    /// The invariant: no pair is noted twice.
    pub closed spec fn wf(self) -> bool {
        pair_views(self.debts@).no_duplicates()
    }

    /// No meal owed.
    pub fn new() -> (d: Self)
        ensures
            d.wf(),
            d.owed() == Set::<(Seq<char>, Seq<char>)>::empty(),
    {
        let d = MealDebts { debts: Vec::new() };
        assert(d.owed() =~= Set::<(Seq<char>, Seq<char>)>::empty());
        d
    }

    fn find(&self, debtor: &str, benefactor: &str) -> (r: Option<usize>)
        ensures
            match r {
                Some(i) => i < self.debts@.len() && pair_views(self.debts@)[i as int] == (debtor@, benefactor@),
                None => !self.owed().contains((debtor@, benefactor@)),
            },
    {
        let mut i: usize = 0;
        while i < self.debts.len()
            invariant
                i <= self.debts@.len(),
                forall|j: int| 0 <= j < i ==> pair_views(self.debts@)[j] != (debtor@, benefactor@),
            decreases self.debts@.len() - i,
        {
            if str_eq(self.debts[i].0.as_str(), debtor) && str_eq(self.debts[i].1.as_str(), benefactor) {
                return Some(i);
            }
            i = i + 1;
        }
        None
    }

    /// Notes that `debtor` owes `benefactor` a meal; an empty id, or owing oneself, is ignored.
    pub fn owe(&mut self, debtor: &str, benefactor: &str)
        requires
            old(self).wf(),
        ensures
            final(self).wf(),
            final(self).owed() == if debtor@.len() == 0 || benefactor@.len() == 0 || debtor@ == benefactor@ {
                old(self).owed()
            } else {
                old(self).owed().insert((debtor@, benefactor@))
            },
    {
        if debtor.unicode_len() == 0 || benefactor.unicode_len() == 0 || str_eq(debtor, benefactor) {
            return;
        }
        match self.find(debtor, benefactor) {
            Some(i) => {
                proof {
                    assert(self.owed().contains((debtor@, benefactor@)));
                    assert(self.owed().insert((debtor@, benefactor@)) =~= self.owed());
                }
            },
            None => {
                let ghost before = pair_views(self.debts@);
                self.debts.push((String::from_str(debtor), String::from_str(benefactor)));
                proof {
                    let after = pair_views(self.debts@);
                    let x0 = (debtor@, benefactor@);
                    assert(after =~= before.push(x0));
                    assert(!before.contains(x0));
                    assert forall|x: (Seq<char>, Seq<char>)| after.contains(x) == before.to_set().insert(x0).contains(x) by {
                        if after.contains(x) {
                            let a = choose|a: int| 0 <= a < after.len() && after[a] == x;
                            if a < before.len() {
                                assert(before[a] == x);
                            }
                        }
                        if before.contains(x) {
                            let b = choose|b: int| 0 <= b < before.len() && before[b] == x;
                            assert(after[b] == x);
                        }
                        if x == x0 {
                            assert(after[before.len() as int] == x0);
                        }
                    }
                    assert forall|a: int, b: int| 0 <= a < after.len() && 0 <= b < after.len() && a != b implies after[a] != after[b] by {
                        if a == before.len() {
                            if after[a] == after[b] {
                                assert(before[b] == x0);
                                assert(before.contains(x0));
                            }
                        } else if b == before.len() {
                            if after[a] == after[b] {
                                assert(before[a] == x0);
                                assert(before.contains(x0));
                            }
                        } else {
                            assert(after[a] == before[a] && after[b] == before[b]);
                        }
                    }
                    assert(after.to_set() =~= before.to_set().insert(x0));
                }
            },
        }
    }

    /// Whether `debtor` owes `benefactor` a meal.
    pub fn owes(&self, debtor: &str, benefactor: &str) -> (b: bool)
        ensures
            b == self.owed().contains((debtor@, benefactor@)),
    {
        match self.find(debtor, benefactor) {
            Some(i) => {
                proof {
                    assert(pair_views(self.debts@).contains((debtor@, benefactor@)));
                }
                true
            },
            None => false,
        }
    }

    /// Settles the meal `debtor` owes `benefactor`; tells whether there was one.
    pub fn repay(&mut self, debtor: &str, benefactor: &str) -> (cleared: bool)
        requires
            old(self).wf(),
        ensures
            final(self).wf(),
            cleared == old(self).owed().contains((debtor@, benefactor@)),
            final(self).owed() == old(self).owed().remove((debtor@, benefactor@)),
    {
        match self.find(debtor, benefactor) {
            None => {
                proof {
                    assert(self.owed().remove((debtor@, benefactor@)) =~= self.owed());
                }
                false
            },
            Some(i) => {
                let ghost before = pair_views(self.debts@);
                proof {
                    assert(before.contains((debtor@, benefactor@)));
                }
                self.debts.remove(i);
                proof {
                    let after = pair_views(self.debts@);
                    assert(after =~= before.remove(i as int));
                    assert forall|a: int, b: int| 0 <= a < after.len() && 0 <= b < after.len() && a != b implies after[a] != after[b] by {
                        let a2 = if a < i { a } else { a + 1 };
                        let b2 = if b < i { b } else { b + 1 };
                        assert(after[a] == before[a2] && after[b] == before[b2]);
                    }
                    assert forall|x: (Seq<char>, Seq<char>)| after.to_set().contains(x) == before.to_set().remove((debtor@, benefactor@)).contains(x) by {
                        if after.contains(x) {
                            let a = choose|a: int| 0 <= a < after.len() && after[a] == x;
                            let a2 = if a < i { a } else { a + 1 };
                            assert(before[a2] == x);
                            assert(a2 != i);
                        }
                        if before.contains(x) && x != (debtor@, benefactor@) {
                            let b = choose|b: int| 0 <= b < before.len() && before[b] == x;
                            assert(b != i);
                            let b2 = if b < i { b } else { b - 1 };
                            assert(after[b2] == x);
                        }
                    }
                    assert(after.to_set() =~= before.to_set().remove((debtor@, benefactor@)));
                }
                true
            },
        }
    }

    /// How many meals are owed in all.
    pub fn total_debts(&self) -> (n: usize)
        requires
            self.wf(),
        ensures
            n == self.owed().len(),
    {
        proof {
            pair_views(self.debts@).unique_seq_to_set();
        }
        self.debts.len()
    }
}

impl Default for MealDebts {
    fn default() -> (d: Self)
        ensures
            d.wf(),
            d.owed() == Set::<(Seq<char>, Seq<char>)>::empty(),
    {
        MealDebts::new()
    }
}

/// Law: a meal noted and then repaid is settled, and every other debt is as it was.
pub proof fn lemma_owe_then_repay(before: MealDebts, noted: MealDebts, settled: MealDebts, debtor: Seq<char>, benefactor: Seq<char>)
    requires
        debtor.len() > 0,
        benefactor.len() > 0,
        debtor != benefactor,
        noted.owed() == before.owed().insert((debtor, benefactor)),
        settled.owed() == noted.owed().remove((debtor, benefactor)),
    ensures
        noted.owed().contains((debtor, benefactor)),
        settled.owed() == before.owed().remove((debtor, benefactor)),
        !settled.owed().contains((debtor, benefactor)),
{
    assert(settled.owed() =~= before.owed().remove((debtor, benefactor)));
}

/// Law: repaying a meal that is owed lowers the number of debts by exactly one, and
/// repaying one that is not owed leaves it as it was.
pub proof fn lemma_repay_lowers_total(before: MealDebts, after: MealDebts, debtor: Seq<char>, benefactor: Seq<char>)
    requires
        after.owed() == before.owed().remove((debtor, benefactor)),
    ensures
        before.owed().finite(),
        before.owed().contains((debtor, benefactor)) ==> after.owed().len() + 1 == before.owed().len(),
        !before.owed().contains((debtor, benefactor)) ==> after.owed().len() == before.owed().len(),
{
    vstd::seq_lib::seq_to_set_is_finite(pair_views(before.debts@));
    if !before.owed().contains((debtor, benefactor)) {
        assert(after.owed() =~= before.owed());
    }
}

/// The four things a resident says on repaying a meal.
pub open spec fn repay_sharer_pool() -> Seq<Seq<char>> {
    seq!["上回你分我一口，這次換我"@, "還記得你那頓飯，這口還你"@, "當初你幫過我，這次我來"@, "輪到我了，這口你先吃"@]
}

/// What a resident says on repaying a meal: line `pick % 4`.
pub fn repay_sharer_line(pick: usize) -> (r: &'static str)
    ensures
        r@ == repay_sharer_pool()[(pick % 4) as int],
{
    let lines: [&'static str; 4] = ["上回你分我一口，這次換我", "還記得你那頓飯，這口還你", "當初你幫過我，這次我來", "輪到我了，這口你先吃"];
    proof {
        assert(views(lines@) =~= repay_sharer_pool());
        assert(views(lines@)[(pick % 4) as int] == lines@[(pick % 4) as int]@);
    }
    lines[pick % 4]
}

/// The four thanks of a benefactor whose meal was repaid.
pub open spec fn repay_thanks_pool() -> Seq<Seq<char>> {
    seq!["你還記得那頓飯呀，真暖心"@, "沒想到你會記著，謝謝你"@, "這下換你照應我了，感激"@, "有來有往，這份情更深了"@]
}

/// The benefactor's thanks: line `pick % 4`, addressed to the repayer by name when there is one.
pub fn repay_thanks_line(repayer: &str, pick: usize) -> (r: String)
    ensures
        r@ == if repayer@.len() == 0 {
            repay_thanks_pool()[(pick % 4) as int]
        } else {
            repayer@ + "，"@ + repay_thanks_pool()[(pick % 4) as int]
        },
{
    let lines: [&str; 4] = ["你還記得那頓飯呀，真暖心", "沒想到你會記著，謝謝你", "這下換你照應我了，感激", "有來有往，這份情更深了"];
    proof {
        assert(views(lines@) =~= repay_thanks_pool());
        assert(views(lines@)[(pick % 4) as int] == lines@[(pick % 4) as int]@);
    }
    let base = lines[pick % 4];
    if repayer.unicode_len() == 0 {
        String::from_str(base)
    } else {
        crate::text::cat3(repayer, "，", base)
    }
}

/// The repayer's memory, kept under the benefactor.
pub fn repay_memory_for_repayer(benefactor: &str) -> (r: String)
    ensures
        r@ == if benefactor@.len() == 0 {
            "當年有位鄰居在我餓時分我一口飯，今天換牠餓著，我把那口飯還了回去。"@
        } else {
            "當年"@ + benefactor@ + "在我餓時分我一口飯，今天換牠餓著，我把那口飯還了回去。"@
        },
{
    if benefactor.unicode_len() == 0 {
        String::from_str("當年有位鄰居在我餓時分我一口飯，今天換牠餓著，我把那口飯還了回去。")
    } else {
        crate::text::cat3("當年", benefactor, "在我餓時分我一口飯，今天換牠餓著，我把那口飯還了回去。")
    }
}

/// The benefactor's memory, kept under the repayer.
pub fn repay_memory_for_benefactor(repayer: &str) -> (r: String)
    ensures
        r@ == if repayer@.len() == 0 {
            "我曾在一位鄰居餓時分過牠一口飯，今天換我餓，牠竟記著、把那口飯還給了我。"@
        } else {
            "我曾在"@ + repayer@ + "餓時分過牠一口飯，今天換我餓，牠竟記著、把那口飯還給了我。"@
        },
{
    if repayer.unicode_len() == 0 {
        String::from_str("我曾在一位鄰居餓時分過牠一口飯，今天換我餓，牠竟記著、把那口飯還給了我。")
    } else {
        crate::text::cat3("我曾在", repayer, "餓時分過牠一口飯，今天換我餓，牠竟記著、把那口飯還給了我。")
    }
}

/// The feed line of a repaid meal, with general names for empty ones.
pub fn repay_feed_line(repayer: &str, benefactor: &str) -> (r: String)
    ensures
        r@ == (if benefactor@.len() == 0 { "曾分過牠飯的鄰居"@ } else { benefactor@ }) + "餓了，"@ + (if repayer@.len()
            == 0 {
            "有位鄰居"@
        } else {
            repayer@
        }) + "記著當年那口飯的情，回報了一口——知恩圖報，暖了整座村子。"@,
{
    let b = if benefactor.unicode_len() == 0 { "曾分過牠飯的鄰居" } else { benefactor };
    let r = if repayer.unicode_len() == 0 { "有位鄰居" } else { repayer };
    let mut s = crate::text::cat3(b, "餓了，", r);
    s.append("記著當年那口飯的情，回報了一口——知恩圖報，暖了整座村子。");
    s
}

} // verus!
