//! Sets of text keys held as a `Vec<String>`, standing for a finite set of character sequences.

use vstd::prelude::*;
use crate::assoc::str_eq;

verus! {

/// The set of character sequences a list of strings holds.
pub open spec fn set_of(v: Seq<String>) -> Set<Seq<char>> {
    Set::new(|k: Seq<char>| exists|i: int| 0 <= i < v.len() && (#[trigger] v[i])@ == k)
}

/// Whether the list holds `k`.
pub fn vec_has(v: &Vec<String>, k: &str) -> (b: bool)
    ensures
        b == set_of(v@).contains(k@),
{
    let mut i: usize = 0;
    while i < v.len()
        invariant
            i <= v@.len(),
            forall|j: int| 0 <= j < i ==> (#[trigger] v@[j])@ != k@,
        decreases v@.len() - i,
    {
        if str_eq(v[i].as_str(), k) {
            assert(set_of(v@).contains(k@));
            return true;
        }
        i = i + 1;
    }
    false
}

/// Appending a string adds its characters to the set.
pub proof fn lemma_set_of_push(v: Seq<String>, s: String)
    ensures
        set_of(v.push(s)) == set_of(v).insert(s@),
{
    let w = v.push(s);
    assert forall|k: Seq<char>| set_of(w).contains(k) == set_of(v).insert(s@).contains(k) by {
        if set_of(v).contains(k) {
            let i = choose|i: int| 0 <= i < v.len() && (#[trigger] v[i])@ == k;
            assert(w[i] == v[i]);
        }
        if k == s@ {
            assert(w[v.len() as int] == s);
        }
        if set_of(w).contains(k) {
            let i = choose|i: int| 0 <= i < w.len() && (#[trigger] w[i])@ == k;
            if i < v.len() {
                assert(w[i] == v[i]);
            }
        }
    }
    assert(set_of(w) =~= set_of(v).insert(s@));
}

/// A copy of a list of strings.
pub fn copy_strings(v: &Vec<String>) -> (r: Vec<String>)
    ensures
        r@ == v@,
{
    let mut out: Vec<String> = Vec::new();
    let mut i: usize = 0;
    while i < v.len()
        invariant
            i <= v@.len(),
            out@ == v@.subrange(0, i as int),
        decreases v@.len() - i,
    {
        out.push(v[i].clone());
        i = i + 1;
        assert(out@ =~= v@.subrange(0, i as int));
    }
    assert(out@ =~= v@);
    out
}

/// Lexicographic order on character sequences (by code point, as `String` orders).
pub open spec fn lex_lt(a: Seq<char>, b: Seq<char>) -> bool
    decreases a.len(),
{
    if a.len() == 0 {
        b.len() > 0
    } else if b.len() == 0 {
        false
    } else if a[0] != b[0] {
        a[0] < b[0]
    } else {
        lex_lt(a.drop_first(), b.drop_first())
    }
}

/// Lexicographic order is irreflexive, total on distinct sequences, and transitive.
pub proof fn lemma_lex_total(a: Seq<char>, b: Seq<char>)
    ensures
        !lex_lt(a, a),
        a != b ==> lex_lt(a, b) || lex_lt(b, a),
        !(lex_lt(a, b) && lex_lt(b, a)),
    decreases a.len(),
{
    if a.len() > 0 {
        lemma_lex_total(a.drop_first(), a.drop_first());
        if b.len() > 0 && a[0] == b[0] {
            lemma_lex_total(a.drop_first(), b.drop_first());
            if a != b {
                assert(a =~= seq![a[0]] + a.drop_first());
                assert(b =~= seq![b[0]] + b.drop_first());
            }
        }
    } else {
        if a != b && b.len() == 0 {
            assert(a =~= b);
        }
    }
}

/// Lexicographic order is transitive.
pub proof fn lemma_lex_trans(a: Seq<char>, b: Seq<char>, c: Seq<char>)
    requires
        lex_lt(a, b),
        lex_lt(b, c),
    ensures
        lex_lt(a, c),
    decreases a.len(),
{
    if a.len() > 0 && b.len() > 0 && c.len() > 0 && a[0] == b[0] && b[0] == c[0] {
        lemma_lex_trans(a.drop_first(), b.drop_first(), c.drop_first());
    }
}

/// Whether `a` comes strictly before `b` lexicographically.
pub fn str_lt(a: &str, b: &str) -> (r: bool)
    ensures
        r == lex_lt(a@, b@),
{
    let x = crate::text::chars_of(a);
    let y = crate::text::chars_of(b);
    let mut i: usize = 0;
    proof {
        assert(a@.subrange(0, a@.len() as int) =~= a@);
        assert(b@.subrange(0, b@.len() as int) =~= b@);
    }
    while i < x.len() && i < y.len() && x[i] == y[i]
        invariant
            x@ == a@,
            y@ == b@,
            i <= x@.len(),
            i <= y@.len(),
            lex_lt(a@, b@) == lex_lt(a@.subrange(i as int, a@.len() as int), b@.subrange(i as int, b@.len() as int)),
        decreases x@.len() - i,
    {
        proof {
            let sa = a@.subrange(i as int, a@.len() as int);
            let sb = b@.subrange(i as int, b@.len() as int);
            assert(sa.drop_first() =~= a@.subrange(i + 1, a@.len() as int));
            assert(sb.drop_first() =~= b@.subrange(i + 1, b@.len() as int));
        }
        i = i + 1;
    }
    if i == x.len() {
        i < y.len()
    } else if i == y.len() {
        false
    } else {
        x[i] < y[i]
    }
}

/// Strictly increasing in lexicographic order (so also free of duplicates).
pub open spec fn sorted_strict(v: Seq<String>) -> bool {
    forall|i: int, j: int| 0 <= i < j < v.len() ==> lex_lt((#[trigger] v[i])@, (#[trigger] v[j])@)
}

/// Inserts `s` into a strictly sorted list unless it is already there.
pub fn insert_sorted(v: &mut Vec<String>, s: String)
    requires
        sorted_strict(old(v)@),
    ensures
        sorted_strict(final(v)@),
        set_of(final(v)@) == set_of(old(v)@).insert(s@),
{
    let mut i: usize = 0;
    while i < v.len() && str_lt(v[i].as_str(), s.as_str())
        invariant
            v@ == old(v)@,
            sorted_strict(v@),
            i <= v@.len(),
            forall|k: int| 0 <= k < i ==> lex_lt((#[trigger] v@[k])@, s@),
        decreases v@.len() - i,
    {
        i = i + 1;
    }
    if i < v.len() && crate::assoc::str_eq(v[i].as_str(), s.as_str()) {
        proof {
            assert(set_of(v@).contains(s@));
            assert(set_of(v@).insert(s@) =~= set_of(v@));
        }
        return;
    }
    proof {
        if i < v@.len() {
            lemma_lex_total(v@[i as int]@, s@);
            assert(lex_lt(s@, v@[i as int]@));
        }
    }
    let ghost before = v@;
    v.insert(i, s);
    proof {
        assert forall|a: int, b: int| 0 <= a < b < v@.len() implies lex_lt((#[trigger] v@[a])@, (#[trigger] v@[b])@) by {
            if b < i {
                assert(v@[a] == before[a] && v@[b] == before[b]);
            } else if b == i {
                assert(v@[a] == before[a]);
            } else if a == i {
                assert(v@[b] == before[b - 1]);
                if b - 1 > i {
                    lemma_lex_trans(s@, before[i as int]@, before[b - 1]@);
                }
            } else if a < i {
                assert(v@[a] == before[a] && v@[b] == before[b - 1]);
            } else {
                assert(v@[a] == before[a - 1] && v@[b] == before[b - 1]);
            }
        }
        assert forall|k: Seq<char>| set_of(v@).contains(k) == set_of(before).insert(s@).contains(k) by {
            if set_of(before).contains(k) {
                let j = choose|j: int| 0 <= j < before.len() && (#[trigger] before[j])@ == k;
                if j < i {
                    assert(v@[j] == before[j]);
                } else {
                    assert(v@[j + 1] == before[j]);
                }
            }
            if k == s@ {
                assert(v@[i as int] == s);
            }
            if set_of(v@).contains(k) {
                let j = choose|j: int| 0 <= j < v@.len() && (#[trigger] v@[j])@ == k;
                if j < i {
                    assert(v@[j] == before[j]);
                } else if j > i {
                    assert(v@[j] == before[j - 1]);
                }
            }
        }
        assert(set_of(v@) =~= set_of(before).insert(s@));
    }
}

} // verus!
