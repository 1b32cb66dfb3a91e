//! Association lists keyed by text: a `Vec` of (key, value) pairs with unique keys,
//! standing for a finite map from character sequences to values.

use vstd::prelude::*;

verus! {

/// No key occurs twice.
pub open spec fn keys_unique<V>(s: Seq<(String, V)>) -> bool {
    forall|i: int, j: int| 0 <= i < j < s.len() ==> (#[trigger] s[i]).0@ != (#[trigger] s[j]).0@
}

/// Whether `k` is a key of the list.
pub open spec fn has_key<V>(s: Seq<(String, V)>, k: Seq<char>) -> bool {
    exists|i: int| 0 <= i < s.len() && (#[trigger] s[i]).0@ == k
}

/// The value stored under `k`, if any.
pub open spec fn get<V>(s: Seq<(String, V)>, k: Seq<char>) -> Option<V> {
    if has_key(s, k) {
        Some(s[choose|i: int| 0 <= i < s.len() && (#[trigger] s[i]).0@ == k].1)
    } else {
        None
    }
}

/// With unique keys, the value under the key at position `i` is the one stored there.
pub proof fn lemma_get_at<V>(s: Seq<(String, V)>, i: int)
    requires
        keys_unique(s),
        0 <= i < s.len(),
    ensures
        get(s, s[i].0@) == Some(s[i].1),
{
    let k = s[i].0@;
    assert(has_key(s, k));
    let j = choose|j: int| 0 <= j < s.len() && (#[trigger] s[j]).0@ == k;
    if j != i {
        if j < i {
            assert(s[j].0@ != s[i].0@);
        } else {
            assert(s[i].0@ != s[j].0@);
        }
    }
}

/// Replacing the value at position `i` changes the value under that key only.
pub proof fn lemma_update_value<V>(s: Seq<(String, V)>, i: int, v: V)
    requires
        keys_unique(s),
        0 <= i < s.len(),
    ensures
        keys_unique(s.update(i, (s[i].0, v))),
        forall|k: Seq<char>|
            #[trigger] get(s.update(i, (s[i].0, v)), k) == if k == s[i].0@ {
                Some(v)
            } else {
                get(s, k)
            },
{
    let t = s.update(i, (s[i].0, v));
    assert forall|a: int, b: int| 0 <= a < b < t.len() implies (#[trigger] t[a]).0@ != (#[trigger] t[b]).0@ by {
        assert(s[a].0@ != s[b].0@);
    }
    assert forall|k: Seq<char>| #[trigger] get(t, k) == if k == s[i].0@ { Some(v) } else { get(s, k) } by {
        if k == s[i].0@ {
            lemma_get_at(t, i);
        } else {
            assert(has_key(t, k) == has_key(s, k)) by {
                if has_key(s, k) {
                    let j = choose|j: int| 0 <= j < s.len() && (#[trigger] s[j]).0@ == k;
                    assert(t[j].0@ == k);
                }
                if has_key(t, k) {
                    let j = choose|j: int| 0 <= j < t.len() && (#[trigger] t[j]).0@ == k;
                    assert(s[j].0@ == k);
                }
            }
            if has_key(s, k) {
                let j = choose|j: int| 0 <= j < s.len() && (#[trigger] s[j]).0@ == k;
                lemma_get_at(s, j);
                lemma_get_at(t, j);
            }
        }
    }
}

/// Appending a pair under a fresh key adds that key only.
pub proof fn lemma_push_fresh<V>(s: Seq<(String, V)>, key: String, v: V)
    requires
        keys_unique(s),
        !has_key(s, key@),
    ensures
        keys_unique(s.push((key, v))),
        forall|k: Seq<char>|
            #[trigger] get(s.push((key, v)), k) == if k == key@ {
                Some(v)
            } else {
                get(s, k)
            },
{
    let t = s.push((key, v));
    assert forall|a: int, b: int| 0 <= a < b < t.len() implies (#[trigger] t[a]).0@ != (#[trigger] t[b]).0@ by {
        if b == s.len() {
            assert(s[a].0@ != key@);
        } else {
            assert(s[a].0@ != s[b].0@);
        }
    }
    assert forall|k: Seq<char>| #[trigger] get(t, k) == if k == key@ { Some(v) } else { get(s, k) } by {
        if k == key@ {
            lemma_get_at(t, s.len() as int);
        } else {
            assert(has_key(t, k) == has_key(s, k)) by {
                if has_key(s, k) {
                    let j = choose|j: int| 0 <= j < s.len() && (#[trigger] s[j]).0@ == k;
                    assert(t[j].0@ == k);
                }
                if has_key(t, k) {
                    let j = choose|j: int| 0 <= j < t.len() && (#[trigger] t[j]).0@ == k;
                    assert(j < s.len());
                    assert(s[j].0@ == k);
                }
            }
            if has_key(s, k) {
                let j = choose|j: int| 0 <= j < s.len() && (#[trigger] s[j]).0@ == k;
                lemma_get_at(s, j);
                lemma_get_at(t, j);
            }
        }
    }
}

/// Removing the pair at position `i` removes that key only.
pub proof fn lemma_remove_at<V>(s: Seq<(String, V)>, i: int)
    requires
        keys_unique(s),
        0 <= i < s.len(),
    ensures
        keys_unique(s.remove(i)),
        forall|k: Seq<char>|
            #[trigger] get(s.remove(i), k) == if k == s[i].0@ {
                None
            } else {
                get(s, k)
            },
{
    let t = s.remove(i);
    assert forall|a: int, b: int| 0 <= a < b < t.len() implies (#[trigger] t[a]).0@ != (#[trigger] t[b]).0@ by {
        let a2 = if a < i { a } else { a + 1 };
        let b2 = if b < i { b } else { b + 1 };
        assert(t[a] == s[a2] && t[b] == s[b2]);
    }
    assert forall|k: Seq<char>| #[trigger] get(t, k) == if k == s[i].0@ { None } else { get(s, k) } by {
        if has_key(t, k) {
            let j = choose|j: int| 0 <= j < t.len() && (#[trigger] t[j]).0@ == k;
            let j2 = if j < i { j } else { j + 1 };
            assert(t[j] == s[j2]);
            lemma_get_at(t, j);
            lemma_get_at(s, j2);
            if k == s[i].0@ {
                assert(s[j2].0@ == s[i].0@);
            }
        } else {
            if k != s[i].0@ && has_key(s, k) {
                let j = choose|j: int| 0 <= j < s.len() && (#[trigger] s[j]).0@ == k;
                let j2 = if j < i { j } else { j - 1 };
                assert(t[j2] == s[j]);
            }
        }
    }
}

/// The position of `k` in the list, if it is a key.
pub fn find_key<V>(v: &Vec<(String, V)>, k: &str) -> (r: Option<usize>)
    ensures
        match r {
            Some(i) => i < v@.len() && v@[i as int].0@ == k@,
            None => !has_key(v@, k@),
        },
{
    let mut i: usize = 0;
    while i < v.len()
        invariant
            i <= v@.len(),
            forall|j: int| 0 <= j < i ==> (#[trigger] v@[j]).0@ != k@,
        decreases v@.len() - i,
    {
        if str_eq(v[i].0.as_str(), k) {
            return Some(i);
        }
        i = i + 1;
    }
    None
}

/// Whether two string slices hold the same characters.
pub fn str_eq(a: &str, b: &str) -> (r: bool)
    ensures
        r == (a@ == b@),
{
    let x = crate::text::chars_of(a);
    let y = crate::text::chars_of(b);
    if x.len() != y.len() {
        return false;
    }
    let mut i: usize = 0;
    while i < x.len()
        invariant
            x@ == a@,
            y@ == b@,
            x@.len() == y@.len(),
            i <= x@.len(),
            forall|j: int| 0 <= j < i ==> x@[j] == y@[j],
        decreases x@.len() - i,
    {
        if x[i] != y[i] {
            return false;
        }
        i = i + 1;
    }
    assert(x@ =~= y@);
    true
}

} // verus!
