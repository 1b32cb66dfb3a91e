//! Character-level text helpers shared by every module: searching, trimming,
//! truncating and number formatting, all stated over `Seq<char>`.

use vstd::prelude::*;

verus! {

/// Whether `needle` occurs in `hay` starting at position `i`.
pub open spec fn occurs_at(hay: Seq<char>, needle: Seq<char>, i: int) -> bool {
    0 <= i && i + needle.len() <= hay.len() && hay.subrange(i, i + needle.len()) =~= needle
}

/// Whether `needle` occurs anywhere in `hay` (the empty needle occurs everywhere).
pub open spec fn seq_contains(hay: Seq<char>, needle: Seq<char>) -> bool {
    exists|i: int| occurs_at(hay, needle, i)
}

/// The characters of a string slice, one by one.
pub fn chars_of(s: &str) -> (v: Vec<char>)
    ensures
        v@ == s@,
{
    let n = s.unicode_len();
    let mut v: Vec<char> = Vec::new();
    let mut i: usize = 0;
    while i < n
        invariant
            n == s@.len(),
            i <= n,
            v@ == s@.subrange(0, i as int),
        decreases n - i,
    {
        let c = s.get_char(i);
        v.push(c);
        i = i + 1;
        assert(v@ =~= s@.subrange(0, i as int));
    }
    assert(v@ =~= s@);
    v
}

fn occurs_at_exec(hay: &Vec<char>, needle: &Vec<char>, i: usize) -> (b: bool)
    requires
        i + needle@.len() <= hay@.len(),
    ensures
        b == occurs_at(hay@, needle@, i as int),
{
    let mut j: usize = 0;
    while j < needle.len()
        invariant
            i + needle@.len() <= hay@.len(),
            hay@.len() == hay.len(),
            j <= needle@.len(),
            forall|k: int| 0 <= k < j ==> hay@[i + k] == needle@[k],
        decreases needle@.len() - j,
    {
        if hay[i + j] != needle[j] {
            assert(hay@.subrange(i as int, i + needle@.len())[j as int] != needle@[j as int]);
            return false;
        }
        j = j + 1;
    }
    assert(hay@.subrange(i as int, i + needle@.len()) =~= needle@);
    true
}

/// Whether the character sequence `needle` occurs in `hay`.
pub fn vec_contains(hay: &Vec<char>, needle: &Vec<char>) -> (b: bool)
    ensures
        b == seq_contains(hay@, needle@),
{
    if needle.len() > hay.len() {
        assert forall|i: int| !occurs_at(hay@, needle@, i) by {}
        return false;
    }
    let last = hay.len() - needle.len();
    let mut i: usize = 0;
    loop
        invariant
            last == hay@.len() - needle@.len(),
            i <= last,
            forall|k: int| 0 <= k < i ==> !occurs_at(hay@, needle@, k),
        ensures
            i == last,
            forall|k: int| 0 <= k <= i ==> !occurs_at(hay@, needle@, k),
        decreases last - i,
    {
        if occurs_at_exec(hay, needle, i) {
            return true;
        }
        if i == last {
            break;
        }
        i = i + 1;
    }
    assert forall|k: int| !occurs_at(hay@, needle@, k) by {
        if 0 <= k <= i {
        }
    }
    false
}

/// Whether `needle` occurs as a substring of `hay`.
pub fn str_contains(hay: &str, needle: &str) -> (b: bool)
    ensures
        b == seq_contains(hay@, needle@),
{
    let h = chars_of(hay);
    let n = chars_of(needle);
    vec_contains(&h, &n)
}

/// Whether any of `words` occurs in `text`.
pub open spec fn contains_any(text: Seq<char>, words: Seq<Seq<char>>) -> bool {
    exists|i: int| 0 <= i < words.len() && seq_contains(text, #[trigger] words[i])
}

/// At most the first `n` characters of `s`.
pub open spec fn take_upto(s: Seq<char>, n: int) -> Seq<char> {
    if n < s.len() {
        s.take(n)
    } else {
        s
    }
}

/// The first `n` characters of `s` (all of it when it is shorter), as a new string.
pub fn truncate_chars(s: &str, n: usize) -> (r: String)
    ensures
        r@ == take_upto(s@, n as int),
{
    let len = s.unicode_len();
    let k = if n < len { n } else { len };
    let part = s.substring_char(0, k);
    assert(s@.subrange(0, k as int) =~= take_upto(s@, n as int));
    String::from_str(part)
}

/// Rust's notion of a whitespace character (the Unicode `White_Space` property).
pub open spec fn is_ws(c: char) -> bool {
    ||| ('\u{9}' <= c && c <= '\u{d}')
    ||| c == ' '
    ||| c == '\u{85}'
    ||| c == '\u{a0}'
    ||| c == '\u{1680}'
    ||| ('\u{2000}' <= c && c <= '\u{200a}')
    ||| c == '\u{2028}'
    ||| c == '\u{2029}'
    ||| c == '\u{202f}'
    ||| c == '\u{205f}'
    ||| c == '\u{3000}'
}

/// Whether a character is whitespace.
pub fn is_whitespace(c: char) -> (b: bool)
    ensures
        b == is_ws(c),
{
    ('\u{9}' <= c && c <= '\u{d}') || c == ' ' || c == '\u{85}' || c == '\u{a0}' || c == '\u{1680}'
        || ('\u{2000}' <= c && c <= '\u{200a}') || c == '\u{2028}' || c == '\u{2029}' || c
        == '\u{202f}' || c == '\u{205f}' || c == '\u{3000}'
}

/// Index of the first non-whitespace character at or after `i` (or `s.len()`).
pub open spec fn first_non_ws_from(s: Seq<char>, i: int) -> int
    decreases s.len() - i,
{
    if i >= s.len() || i < 0 {
        if i < 0 { 0 } else { s.len() as int }
    } else if is_ws(s[i]) {
        first_non_ws_from(s, i + 1)
    } else {
        i
    }
}

/// One past the last non-whitespace character before `j` (or `lo` when there is none).
pub open spec fn last_non_ws_before(s: Seq<char>, lo: int, j: int) -> int
    decreases j - lo,
{
    if j <= lo {
        lo
    } else if is_ws(s[j - 1]) {
        last_non_ws_before(s, lo, j - 1)
    } else {
        j
    }
}

/// `s` without leading and trailing whitespace.
pub open spec fn trim_seq(s: Seq<char>) -> Seq<char> {
    let lo = first_non_ws_from(s, 0);
    s.subrange(lo, last_non_ws_before(s, lo, s.len() as int))
}

/// `s` with leading and trailing whitespace removed, as a string slice.
pub fn trim_str(s: &str) -> (r: &str)
    ensures
        r@ == trim_seq(s@),
{
    let v = chars_of(s);
    let n = v.len();
    let mut lo: usize = 0;
    while lo < n && is_whitespace(v[lo])
        invariant
            n == s@.len(),
            v@ == s@,
            lo <= n,
            first_non_ws_from(s@, 0) == first_non_ws_from(s@, lo as int),
        decreases n - lo,
    {
        lo = lo + 1;
    }
    let mut hi: usize = n;
    while hi > lo && is_whitespace(v[hi - 1])
        invariant
            n == s@.len(),
            v@ == s@,
            lo <= hi <= n,
            first_non_ws_from(s@, 0) == lo,
            last_non_ws_before(s@, lo as int, n as int) == last_non_ws_before(s@, lo as int, hi as int),
        decreases hi - lo,
    {
        hi = hi - 1;
    }
    s.substring_char(lo, hi)
}

/// `s` trimmed, then cut to at most `n` characters.
pub fn trim_take(s: &str, n: usize) -> (r: String)
    ensures
        r@ == take_upto(trim_seq(s@), n as int),
{
    truncate_chars(trim_str(s), n)
}

/// The decimal digit character for `d` (`d < 10`).
pub open spec fn digit_char(d: int) -> char {
    if d == 0 { '0' }
    else if d == 1 { '1' }
    else if d == 2 { '2' }
    else if d == 3 { '3' }
    else if d == 4 { '4' }
    else if d == 5 { '5' }
    else if d == 6 { '6' }
    else if d == 7 { '7' }
    else if d == 8 { '8' }
    else { '9' }
}

/// The decimal representation of `n`, without leading zeros.
pub open spec fn dec(n: nat) -> Seq<char>
    decreases n,
{
    if n < 10 {
        seq![digit_char(n as int)]
    } else {
        dec(n / 10) + seq![digit_char((n % 10) as int)]
    }
}

fn digit_str(d: u64) -> (r: &'static str)
    requires
        d < 10,
    ensures
        r@ == seq![digit_char(d as int)],
{
    proof {
        reveal_strlit("0");
        reveal_strlit("1");
        reveal_strlit("2");
        reveal_strlit("3");
        reveal_strlit("4");
        reveal_strlit("5");
        reveal_strlit("6");
        reveal_strlit("7");
        reveal_strlit("8");
        reveal_strlit("9");
    }
    if d == 0 { "0" }
    else if d == 1 { "1" }
    else if d == 2 { "2" }
    else if d == 3 { "3" }
    else if d == 4 { "4" }
    else if d == 5 { "5" }
    else if d == 6 { "6" }
    else if d == 7 { "7" }
    else if d == 8 { "8" }
    else { "9" }
}

/// Appends the decimal form of `n` to `out`.
pub fn push_dec(out: &mut String, n: u64)
    ensures
        final(out)@ == old(out)@ + dec(n as nat),
    decreases n,
{
    if n < 10 {
        out.append(digit_str(n));
    } else {
        push_dec(out, n / 10);
        out.append(digit_str(n % 10));
        assert(dec(n as nat) == dec((n / 10) as nat) + seq![digit_char((n % 10) as int)]);
    }
}

/// The decimal form of `n` as a string.
pub fn dec_string(n: u64) -> (r: String)
    ensures
        r@ == dec(n as nat),
{
    let mut s = String::new();
    push_dec(&mut s, n);
    s
}

/// The character sequences of a list of strings.
pub open spec fn string_views(v: Seq<String>) -> Seq<Seq<char>> {
    v.map_values(|s: String| s@)
}

/// The character sequences of a list of string slices.
pub open spec fn views(words: Seq<&str>) -> Seq<Seq<char>> {
    words.map_values(|w: &str| w@)
}

/// Whether any of `words` occurs in `text`.
pub fn contains_any_of(text: &str, words: &[&str]) -> (b: bool)
    ensures
        b == contains_any(text@, views(words@)),
{
    let t = chars_of(text);
    let mut i: usize = 0;
    while i < words.len()
        invariant
            t@ == text@,
            i <= words@.len(),
            forall|k: int| 0 <= k < i ==> !seq_contains(text@, #[trigger] views(words@)[k]),
        decreases words@.len() - i,
    {
        let w = chars_of(words[i]);
        if vec_contains(&t, &w) {
            assert(views(words@)[i as int] == words@[i as int]@);
            return true;
        }
        i = i + 1;
    }
    false
}

/// `a` followed by `b`, as a new string.
pub fn cat(a: &str, b: &str) -> (r: String)
    ensures
        r@ == a@ + b@,
{
    let mut s = String::from_str(a);
    s.append(b);
    s
}

/// `a`, `b` and `c` joined, as a new string.
pub fn cat3(a: &str, b: &str, c: &str) -> (r: String)
    ensures
        r@ == a@ + b@ + c@,
{
    let mut s = String::from_str(a);
    s.append(b);
    s.append(c);
    s
}

/// `a` through `e` joined, as a new string.
pub fn cat5(a: &str, b: &str, c: &str, d: &str, e: &str) -> (r: String)
    ensures
        r@ == a@ + b@ + c@ + d@ + e@,
{
    let mut s = String::from_str(a);
    s.append(b);
    s.append(c);
    s.append(d);
    s.append(e);
    s
}

/// `s` with every occurrence of the non-empty `pat` replaced by `rep`, scanning left to right
/// without overlaps (as `str::replace` does).
pub open spec fn replace_all(s: Seq<char>, pat: Seq<char>, rep: Seq<char>) -> Seq<char>
    decreases s.len(),
{
    if pat.len() == 0 || s.len() < pat.len() {
        s
    } else if s.subrange(0, pat.len() as int) == pat {
        rep + replace_all(s.subrange(pat.len() as int, s.len() as int), pat, rep)
    } else {
        seq![s[0]] + replace_all(s.drop_first(), pat, rep)
    }
}

/// Characters that begin no occurrence of `pat` pass through unchanged.
proof fn lemma_replace_skip(s: Seq<char>, pat: Seq<char>, rep: Seq<char>, a: int, b: int)
    requires
        pat.len() > 0,
        0 <= a <= b <= s.len(),
        forall|k: int| a <= k < b ==> !occurs_at(s, pat, k),
    ensures
        replace_all(s.subrange(a, s.len() as int), pat, rep) == s.subrange(a, b) + replace_all(
            s.subrange(b, s.len() as int),
            pat,
            rep,
        ),
    decreases b - a,
{
    if a == b {
        assert(s.subrange(a, b) =~= Seq::<char>::empty());
        assert(s.subrange(a, b) + replace_all(s.subrange(b, s.len() as int), pat, rep) =~= replace_all(
            s.subrange(b, s.len() as int),
            pat,
            rep,
        ));
    } else {
        let t = s.subrange(a, s.len() as int);
        assert(!occurs_at(s, pat, a));
        if t.len() >= pat.len() {
            assert(t.subrange(0, pat.len() as int) =~= s.subrange(a, a + pat.len()));
            assert(t.subrange(0, pat.len() as int) != pat);
        }
        assert(t.drop_first() =~= s.subrange(a + 1, s.len() as int));
        lemma_replace_skip(s, pat, rep, a + 1, b);
        assert(s.subrange(a, b) =~= seq![s[a]] + s.subrange(a + 1, b));
        assert(seq![s[a]] + (s.subrange(a + 1, b) + replace_all(s.subrange(b, s.len() as int), pat, rep)) =~= s.subrange(a, b)
            + replace_all(s.subrange(b, s.len() as int), pat, rep));
    }
}

/// `s` with every occurrence of `pat` (non-empty) replaced by `rep`.
pub fn replace_str(s: &str, pat: &str, rep: &str) -> (r: String)
    requires
        pat@.len() > 0,
    ensures
        r@ == replace_all(s@, pat@, rep@),
{
    let v = chars_of(s);
    let p = chars_of(pat);
    let n = v.len();
    let m = p.len();
    let mut out = String::new();
    let mut start: usize = 0;
    let mut i: usize = 0;
    proof {
        assert(s@.subrange(0, n as int) =~= s@);
        assert(out@ + replace_all(s@, pat@, rep@) =~= replace_all(s@, pat@, rep@));
    }
    while i < n
        invariant
            v@ == s@,
            p@ == pat@,
            n == s@.len(),
            m == pat@.len(),
            m > 0,
            start <= i <= n,
            forall|k: int| start <= k < i ==> !occurs_at(s@, pat@, k),
            out@ + replace_all(s@.subrange(start as int, n as int), pat@, rep@) == replace_all(s@, pat@, rep@),
        decreases n - i,
    {
        if m <= n - i && occurs_at_exec(&v, &p, i) {
            proof {
                lemma_replace_skip(s@, pat@, rep@, start as int, i as int);
                let t = s@.subrange(i as int, n as int);
                assert(t.subrange(0, m as int) =~= s@.subrange(i as int, i + m));
                assert(t.subrange(m as int, t.len() as int) =~= s@.subrange(i + m, n as int));
            }
            let seg = s.substring_char(start, i);
            out.append(seg);
            out.append(rep);
            i = i + m;
            start = i;
            proof {
                assert(out@ + replace_all(s@.subrange(start as int, n as int), pat@, rep@) =~= replace_all(s@, pat@, rep@));
            }
        } else {
            proof {
                if m <= n - i {
                } else {
                    assert(!occurs_at(s@, pat@, i as int));
                }
            }
            i = i + 1;
        }
    }
    proof {
        lemma_replace_skip(s@, pat@, rep@, start as int, n as int);
        let t = s@.subrange(n as int, n as int);
        assert(t.len() == 0);
        assert(replace_all(t, pat@, rep@) == t);
        assert(s@.subrange(start as int, n as int) + t =~= s@.subrange(start as int, n as int));
    }
    let seg = s.substring_char(start, n);
    out.append(seg);
    out
}

/// An ASCII digit.
pub open spec fn is_digit(c: char) -> bool {
    '0' <= c && c <= '9'
}

/// The number written by a run of digits.
pub open spec fn digits_value(d: Seq<char>) -> nat
    decreases d.len(),
{
    if d.len() == 0 {
        0
    } else {
        digits_value(d.drop_last()) * 10 + (d.last() as nat - '0' as nat) as nat
    }
}

/// Every character of `s` is an ASCII digit.
pub open spec fn all_digits(s: Seq<char>) -> bool {
    forall|i: int| 0 <= i < s.len() ==> is_digit(#[trigger] s[i])
}

/// The integer a string writes in decimal: an optional sign and at least one digit.
pub open spec fn parse_int(s: Seq<char>) -> Option<int> {
    if s.len() > 0 && (s[0] == '-' || s[0] == '+') {
        let d = s.drop_first();
        if d.len() > 0 && all_digits(d) {
            Some(if s[0] == '-' { -(digits_value(d) as int) } else { digits_value(d) as int })
        } else {
            None
        }
    } else if s.len() > 0 && all_digits(s) {
        Some(digits_value(s) as int)
    } else {
        None
    }
}

/// The `i32` a string writes in decimal, when it writes one that fits.
pub open spec fn parse_i32_spec(s: Seq<char>) -> Option<i32> {
    match parse_int(s) {
        Some(v) => if i32::MIN <= v <= i32::MAX { Some(v as i32) } else { None },
        None => None,
    }
}

/// Parses a decimal `i32` (an optional sign and at least one digit, in range).
pub fn parse_i32(s: &str) -> (r: Option<i32>)
    ensures
        r == parse_i32_spec(s@),
{
    let v = chars_of(s);
    let n = v.len();
    if n == 0 {
        return None;
    }
    let neg = v[0] == '-';
    let start: usize = if v[0] == '-' || v[0] == '+' { 1 } else { 0 };
    if start == n {
        return None;
    }
    let ghost d = s@.subrange(start as int, n as int);
    let mut i: usize = start;
    let mut mag: u64 = 0;
    let mut over = false;
    while i < n
        invariant
            v@ == s@,
            n == v.len(),
            n > 0,
            start < n,
            start <= 1,
            (start == 1) == (s@[0] == '-' || s@[0] == '+'),
            neg == (s@[0] == '-'),
            start <= i <= n,
            d == s@.subrange(start as int, n as int),
            forall|k: int| start <= k < i ==> is_digit(#[trigger] s@[k]),
            !over ==> mag == digits_value(s@.subrange(start as int, i as int)) && mag <= 2147483648,
            over ==> digits_value(s@.subrange(start as int, i as int)) > 2147483648,
        decreases n - i,
    {
        let c = v[i];
        if !('0' <= c && c <= '9') {
            proof {
                assert(d[i - start] == c);
                assert(!all_digits(d));
                if start == 0 {
                    assert(d =~= s@);
                } else {
                    assert(d =~= s@.drop_first());
                }
            }
            return None;
        }
        proof {
            assert(s@.subrange(start as int, i + 1).drop_last() =~= s@.subrange(start as int, i as int));
            assert(s@.subrange(start as int, i + 1).last() == c);
        }
        if !over {
            let nm = mag * 10 + ((c as u64) - 48);
            if nm > 2147483648 {
                over = true;
            } else {
                mag = nm;
            }
        }
        i = i + 1;
    }
    proof {
        assert(s@.subrange(start as int, n as int) =~= d);
        assert(all_digits(d));
        if start == 0 {
            assert(d =~= s@);
            assert(!(s@[0] == '-' || s@[0] == '+'));
        } else {
            assert(d =~= s@.drop_first());
        }
    }
    if over {
        return None;
    }
    if neg {
        Some((0 - (mag as i64)) as i32)
    } else if mag <= 2147483647 {
        Some(mag as i32)
    } else {
        None
    }
}

/// The decimal text of an integer, with a minus sign when negative.
pub open spec fn int_text(i: int) -> Seq<char> {
    if i < 0 { "-"@ + dec((-i) as nat) } else { dec(i as nat) }
}

proof fn lemma_digit_char(d: int)
    requires
        0 <= d < 10,
    ensures
        is_digit(digit_char(d)),
        digit_char(d) as nat - '0' as nat == d,
{
}

/// The decimal text of `n` is a non-empty run of digits that writes `n`.
pub proof fn lemma_dec_value(n: nat)
    ensures
        dec(n).len() > 0,
        all_digits(dec(n)),
        digits_value(dec(n)) == n,
    decreases n,
{
    let d = dec(n);
    if n < 10 {
        lemma_digit_char(n as int);
        assert(d == seq![digit_char(n as int)]);
        assert(d.drop_last() =~= Seq::<char>::empty());
        assert(digits_value(d) == digits_value(d.drop_last()) * 10 + (d.last() as nat - '0' as nat) as nat);
    } else {
        lemma_dec_value(n / 10);
        lemma_digit_char((n % 10) as int);
        assert(d.drop_last() =~= dec(n / 10));
        assert(d.last() == digit_char((n % 10) as int));
        assert(digits_value(d) == digits_value(d.drop_last()) * 10 + (d.last() as nat - '0' as nat) as nat);
        assert(digits_value(d) == (n / 10) * 10 + n % 10);
        assert forall|i: int| 0 <= i < d.len() implies is_digit(#[trigger] d[i]) by {
            if i < d.len() - 1 {
                assert(d[i] == dec(n / 10)[i]);
            }
        }
    }
}

/// Reading back the decimal text of an integer gives the integer.
pub proof fn lemma_parse_int_text(i: int)
    ensures
        parse_int(int_text(i)) == Some(i),
{
    reveal_strlit("-");
    if i < 0 {
        lemma_dec_value((-i) as nat);
        let s = int_text(i);
        assert(s[0] == '-');
        assert(s.drop_first() =~= dec((-i) as nat));
    } else {
        lemma_dec_value(i as nat);
        let s = int_text(i);
        assert(is_digit(s[0]));
    }
}

/// The decimal text of an integer holds no character other than digits and '-'.
pub proof fn lemma_int_text_chars(i: int)
    ensures
        forall|k: int| 0 <= k < int_text(i).len() ==> is_digit(#[trigger] int_text(i)[k]) || int_text(i)[k] == '-',
{
    reveal_strlit("-");
    if i < 0 {
        lemma_dec_value((-i) as nat);
        let s = int_text(i);
        assert forall|k: int| 0 <= k < s.len() implies is_digit(#[trigger] s[k]) || s[k] == '-' by {
            if k > 0 {
                assert(s[k] == dec((-i) as nat)[k - 1]);
            }
        }
    } else {
        lemma_dec_value(i as nat);
    }
}

/// Appends the decimal text of `i` to `out`.
pub fn push_int(out: &mut String, i: i32)
    ensures
        final(out)@ == old(out)@ + int_text(i as int),
{
    proof {
        reveal_strlit("-");
    }
    if i < 0 {
        out.append("-");
        let m = (0 - (i as i64)) as u64;
        push_dec(out, m);
    } else {
        push_dec(out, i as u64);
    }
}

/// `s` cut at every `sep`: the pieces between separators, in order (one piece when `sep`
/// does not occur).
pub open spec fn split_on(s: Seq<char>, sep: char) -> Seq<Seq<char>>
    decreases s.len(),
{
    if s.len() == 0 {
        seq![Seq::<char>::empty()]
    } else {
        let r = split_on(s.drop_last(), sep);
        if s.last() == sep {
            r.push(Seq::<char>::empty())
        } else {
            r.update(r.len() - 1, r.last().push(s.last()))
        }
    }
}

/// A text without the separator is one piece.
pub proof fn lemma_split_no_sep(s: Seq<char>, sep: char)
    requires
        forall|k: int| 0 <= k < s.len() ==> #[trigger] s[k] != sep,
    ensures
        split_on(s, sep) == seq![s],
    decreases s.len(),
{
    if s.len() > 0 {
        let init = s.drop_last();
        lemma_split_no_sep(init, sep);
        assert(s.last() != sep);
        let r = split_on(init, sep);
        assert(r == seq![init]);
        assert(init.push(s.last()) =~= s);
        assert(r.update(r.len() - 1, r.last().push(s.last())) =~= seq![s]);
    } else {
        assert(s =~= Seq::<char>::empty());
    }
}

/// Cutting `p`, the separator and a piece `q` without it gives the pieces of `p` and then `q`.
pub proof fn lemma_split_append(p: Seq<char>, q: Seq<char>, sep: char)
    requires
        forall|k: int| 0 <= k < q.len() ==> #[trigger] q[k] != sep,
    ensures
        split_on(p + seq![sep] + q, sep) == split_on(p, sep).push(q),
    decreases q.len(),
{
    let s = p + seq![sep] + q;
    if q.len() == 0 {
        assert(s.drop_last() =~= p);
        assert(s.last() == sep);
        assert(q =~= Seq::<char>::empty());
    } else {
        let q0 = q.drop_last();
        lemma_split_append(p, q0, sep);
        assert(s.drop_last() =~= p + seq![sep] + q0);
        assert(s.last() == q.last());
        let r = split_on(p, sep).push(q0);
        assert(r.update(r.len() - 1, r.last().push(q.last())) =~= split_on(p, sep).push(q)) by {
            assert(q0.push(q.last()) =~= q);
        }
    }
}

/// The pieces of `s` between the separator `sep`.
pub fn split_str(s: &str, sep: char) -> (r: Vec<String>)
    ensures
        string_views(r@) == split_on(s@, sep),
{
    let v = chars_of(s);
    let mut parts: Vec<String> = Vec::new();
    parts.push(String::new());
    let mut i: usize = 0;
    proof {
        assert(s@.subrange(0, 0) =~= Seq::<char>::empty());
        assert(string_views(parts@) =~= seq![Seq::<char>::empty()]);
    }
    while i < v.len()
        invariant
            v@ == s@,
            i <= v.len(),
            parts.len() >= 1,
            string_views(parts@) == split_on(s@.subrange(0, i as int), sep),
        decreases v.len() - i,
    {
        let c = v[i];
        let ghost before = parts@;
        proof {
            assert(s@.subrange(0, i + 1).drop_last() =~= s@.subrange(0, i as int));
            assert(s@.subrange(0, i + 1).last() == c);
        }
        if c == sep {
            parts.push(String::new());
            proof {
                assert(string_views(parts@) =~= string_views(before).push(Seq::<char>::empty()));
            }
        } else {
            let last = parts.len() - 1;
            let mut piece = parts.remove(last);
            let ghost old_piece = piece@;
            piece.append(s.substring_char(i, i + 1));
            parts.push(piece);
            proof {
                assert(old_piece == string_views(before).last());
                assert(parts@ =~= before.update(last as int, parts@[last as int]));
                assert(parts@[last as int]@ == old_piece + s@.subrange(i as int, i + 1));
                assert(s@.subrange(i as int, i + 1) =~= seq![c]);
                let target = string_views(before).update(before.len() - 1, string_views(before).last().push(c));
                assert forall|j: int| 0 <= j < parts@.len() implies string_views(parts@)[j] == target[j] by {
                    if j < last {
                        assert(parts@[j] == before[j]);
                    }
                }
                assert(string_views(parts@).len() == target.len());
                assert(string_views(parts@) =~= string_views(before).update(
                    before.len() - 1,
                    string_views(before).last().push(c),
                ));
            }
        }
        i = i + 1;
    }
    proof {
        assert(s@.subrange(0, v.len() as int) =~= s@);
    }
    parts
}


/// No occurrence of `pat` starts anywhere in `s`.
pub open spec fn pat_free(s: Seq<char>, pat: Seq<char>) -> bool {
    forall|k: int| 0 <= k && k + pat.len() <= s.len() ==> #[trigger] s.subrange(k, k + pat.len()) != pat
}

/// The character `c` does not occur in `s`.
pub open spec fn no_char(s: Seq<char>, c: char) -> bool {
    forall|k: int| 0 <= k < s.len() ==> #[trigger] s[k] != c
}

/// Replacing a pattern that never occurs changes nothing.
pub proof fn lemma_replace_free(s: Seq<char>, pat: Seq<char>, rep: Seq<char>)
    requires
        pat.len() > 0,
        pat_free(s, pat),
    ensures
        replace_all(s, pat, rep) == s,
    decreases s.len(),
{
    if s.len() >= pat.len() {
        let z: int = 0;
        assert(s.subrange(z, z + pat.len()) != pat);
        let t = s.drop_first();
        assert forall|k: int| 0 <= k && k + pat.len() <= t.len() implies #[trigger] t.subrange(k, k + pat.len()) != pat by {
            assert(t.subrange(k, k + pat.len()) =~= s.subrange(k + 1, k + 1 + pat.len()));
        }
        lemma_replace_free(t, pat, rep);
        assert(seq![s[0]] + t =~= s);
    }
}

/// Replacing a pattern that occurs once, after a part without its first character and
/// before a part where it does not occur, puts the replacement in its place.
pub proof fn lemma_replace_single(a: Seq<char>, pat: Seq<char>, rep: Seq<char>, b: Seq<char>)
    requires
        pat.len() > 0,
        no_char(a, pat[0]),
        pat_free(b, pat),
    ensures
        replace_all(a + pat + b, pat, rep) == a + rep + b,
    decreases a.len(),
{
    let s = a + pat + b;
    if a.len() == 0 {
        assert(s.subrange(0, pat.len() as int) =~= pat);
        assert(s.subrange(pat.len() as int, s.len() as int) =~= b);
        lemma_replace_free(b, pat, rep);
        assert(a + rep + b =~= rep + b);
    } else {
        assert(s.subrange(0, pat.len() as int)[0] == a[0]);
        let a2 = a.drop_first();
        assert(no_char(a2, pat[0])) by {
            assert forall|k: int| 0 <= k < a2.len() implies #[trigger] a2[k] != pat[0] by {
                assert(a2[k] == a[k + 1]);
            }
        }
        lemma_replace_single(a2, pat, rep, b);
        assert(s.drop_first() =~= a2 + pat + b);
        assert(seq![a[0]] + (a2 + rep + b) =~= a + rep + b);
    }
}

/// A text holds `rep` where it was put, and so does a cut of it that reaches past it.
pub proof fn lemma_contains_at(a: Seq<char>, rep: Seq<char>, b: Seq<char>, n: int)
    requires
        a.len() + rep.len() <= n,
    ensures
        seq_contains(a + rep + b, rep),
        seq_contains(take_upto(a + rep + b, n), rep),
{
    let s = a + rep + b;
    assert(s.subrange(a.len() as int, (a.len() + rep.len()) as int) =~= rep);
    assert(occurs_at(s, rep, a.len() as int));
    let t = take_upto(s, n);
    assert(t.subrange(a.len() as int, (a.len() + rep.len()) as int) =~= rep);
    assert(occurs_at(t, rep, a.len() as int));
}


/// A text without the first character of a pattern holds no occurrence of it.
pub proof fn lemma_no_char_pat_free(s: Seq<char>, pat: Seq<char>)
    requires
        pat.len() > 0,
        no_char(s, pat[0]),
    ensures
        pat_free(s, pat),
{
    assert forall|k: int| 0 <= k && k + pat.len() <= s.len() implies #[trigger] s.subrange(k, k + pat.len()) != pat by {
        assert(s.subrange(k, k + pat.len())[0] == s[k]);
    }
}

/// Filling a frame `a` + `pat` + `b` (neither part holding the pattern's first character)
/// gives `a` + `rep` + `b`, which holds `rep`, also when cut to `n` characters past it.
pub proof fn lemma_fill_frame(a: Seq<char>, pat: Seq<char>, rep: Seq<char>, b: Seq<char>, n: int)
    requires
        pat.len() > 0,
        no_char(a, pat[0]),
        no_char(b, pat[0]),
        a.len() + rep.len() <= n,
    ensures
        replace_all(a + pat + b, pat, rep) == a + rep + b,
        seq_contains(replace_all(a + pat + b, pat, rep), rep),
        seq_contains(take_upto(replace_all(a + pat + b, pat, rep), n), rep),
{
    lemma_no_char_pat_free(b, pat);
    lemma_replace_single(a, pat, rep, b);
    lemma_contains_at(a, rep, b, n);
}


/// A word held by the tail of a text is held by the text.
pub proof fn lemma_contains_in_tail(a: Seq<char>, b: Seq<char>, w: Seq<char>)
    requires
        seq_contains(b, w),
    ensures
        seq_contains(a + b, w),
{
    let i = choose|i: int| occurs_at(b, w, i);
    assert((a + b).subrange(a.len() + i, a.len() + i + w.len()) =~= b.subrange(i, i + w.len()));
    assert(occurs_at(a + b, w, a.len() + i));
}


/// Replacing a pattern that first occurs after `a` (no occurrence starts within `a`) and
/// never within `b` puts the replacement in its place.
pub proof fn lemma_replace_after(a: Seq<char>, pat: Seq<char>, rep: Seq<char>, b: Seq<char>)
    requires
        pat.len() > 0,
        forall|k: int| 0 <= k < a.len() ==> #[trigger] (a + pat + b).subrange(k, k + pat.len()) != pat,
        pat_free(b, pat),
    ensures
        replace_all(a + pat + b, pat, rep) == a + rep + b,
    decreases a.len(),
{
    let s = a + pat + b;
    if a.len() == 0 {
        assert(s.subrange(0, pat.len() as int) =~= pat);
        assert(s.subrange(pat.len() as int, s.len() as int) =~= b);
        lemma_replace_free(b, pat, rep);
        assert(a + rep + b =~= rep + b);
    } else {
        let z: int = 0;
        assert(s.subrange(z, z + pat.len()) != pat);
        let a2 = a.drop_first();
        assert forall|k: int| 0 <= k < a2.len() implies #[trigger] (a2 + pat + b).subrange(k, k + pat.len()) != pat by {
            assert((a2 + pat + b).subrange(k, k + pat.len()) =~= s.subrange(k + 1, k + 1 + pat.len()));
        }
        lemma_replace_after(a2, pat, rep, b);
        assert(s.drop_first() =~= a2 + pat + b);
        assert(seq![a[0]] + (a2 + rep + b) =~= a + rep + b);
    }
}

/// Both fillings of a line `a` `x` `m` `y` `b` are in it.
pub proof fn lemma_holds_both(a: Seq<char>, x: Seq<char>, m: Seq<char>, y: Seq<char>, b: Seq<char>)
    ensures
        seq_contains(a + x + m + y + b, x),
        seq_contains(a + x + m + y + b, y),
{
    let s = a + x + m + y + b;
    assert(s.subrange(a.len() as int, (a.len() + x.len()) as int) =~= x);
    assert(occurs_at(s, x, a.len() as int));
    let j = (a.len() + x.len() + m.len()) as int;
    assert(s.subrange(j, j + y.len()) =~= y);
    assert(occurs_at(s, y, j));
}


/// No character of `s` occurs in `pat`.
pub open spec fn chars_outside(s: Seq<char>, pat: Seq<char>) -> bool {
    forall|k: int| 0 <= k < s.len() ==> !pat.contains(#[trigger] s[k])
}

/// A text none of whose characters is in `pat` holds no occurrence of it.
pub proof fn lemma_outside_free(s: Seq<char>, pat: Seq<char>)
    requires
        pat.len() > 0,
        chars_outside(s, pat),
    ensures
        pat_free(s, pat),
{
    assert forall|k: int| 0 <= k && k + pat.len() <= s.len() implies #[trigger] s.subrange(k, k + pat.len()) != pat by {
        if s.subrange(k, k + pat.len()) == pat {
            assert(pat[0] == s[k]);
            assert(pat.contains(s[k]));
        }
    }
}

/// Joining two texts without the pattern, where a character at the join is not in the
/// pattern (or one side is empty), gives a text without it.
pub proof fn lemma_free_join(x: Seq<char>, y: Seq<char>, pat: Seq<char>)
    requires
        pat.len() > 0,
        pat_free(x, pat),
        pat_free(y, pat),
        x.len() == 0 || y.len() == 0 || !pat.contains(x.last()) || !pat.contains(y[0]),
    ensures
        pat_free(x + y, pat),
{
    let s = x + y;
    assert forall|k: int| 0 <= k && k + pat.len() <= s.len() implies #[trigger] s.subrange(k, k + pat.len()) != pat by {
        let w = s.subrange(k, k + pat.len());
        if w == pat {
            if k + pat.len() <= x.len() {
                assert(w =~= x.subrange(k, k + pat.len()));
            } else if k >= x.len() {
                assert(w =~= y.subrange(k - x.len(), k - x.len() + pat.len()));
            } else {
                let i = x.len() - 1 - k;
                assert(w[i] == x[x.len() - 1]);
                assert(pat[i] == x.last());
                assert(pat.contains(x.last()));
                assert(w[i + 1] == y[0]);
                assert(pat.contains(y[0]));
            }
        }
    }
}

/// In `x` followed by anything, no occurrence of the pattern starts inside `x` when `x`
/// holds none and ends with a character not in the pattern.
pub proof fn lemma_no_start_in(x: Seq<char>, rest: Seq<char>, pat: Seq<char>)
    requires
        pat.len() > 0,
        pat_free(x, pat),
        x.len() > 0,
        !pat.contains(x.last()),
        rest.len() >= pat.len(),
    ensures
        forall|k: int| 0 <= k < x.len() ==> #[trigger] (x + rest).subrange(k, k + pat.len()) != pat,
{
    let s = x + rest;
    assert forall|k: int| 0 <= k < x.len() implies #[trigger] s.subrange(k, k + pat.len()) != pat by {
        let w = s.subrange(k, k + pat.len());
        if w == pat {
            if k + pat.len() <= x.len() {
                assert(w =~= x.subrange(k, k + pat.len()));
            } else {
                let i = x.len() - 1 - k;
                assert(w[i] == x[x.len() - 1]);
                assert(pat.contains(x.last()));
            }
        }
    }
}

/// Filling a frame `a` `p` `b` (neither part holding a character of `p`) gives `a` `rep` `b`.
pub proof fn lemma_fill_one(a: Seq<char>, p: Seq<char>, b: Seq<char>, rep: Seq<char>)
    requires
        p.len() > 0,
        chars_outside(a, p),
        chars_outside(b, p),
    ensures
        replace_all(a + p + b, p, rep) == a + rep + b,
{
    assert(no_char(a, p[0])) by {
        assert forall|k: int| 0 <= k < a.len() implies #[trigger] a[k] != p[0] by {
            assert(!p.contains(a[k]));
            if a[k] == p[0] {
                assert(p.contains(p[0]));
            }
        }
    }
    lemma_outside_free(b, p);
    lemma_replace_single(a, p, rep, b);
}

/// Filling a frame `a` `p1` `m` `p2` `b` (no part holding a character of either pattern,
/// `m` not empty, `p2` not holding `p1`) first with `r1` for `p1` and then `r2` for `p2`,
/// where `r1` holds no `p2`, gives `a` `r1` `m` `r2` `b`.
pub proof fn lemma_fill_two(
    a: Seq<char>,
    p1: Seq<char>,
    m: Seq<char>,
    p2: Seq<char>,
    b: Seq<char>,
    r1: Seq<char>,
    r2: Seq<char>,
)
    requires
        p1.len() > 0,
        p2.len() > 0,
        m.len() > 0,
        chars_outside(a, p1) && chars_outside(m, p1) && chars_outside(b, p1),
        chars_outside(a, p2) && chars_outside(m, p2) && chars_outside(b, p2),
        pat_free(p2, p1),
        pat_free(r1, p2),
    ensures
        replace_all(replace_all(a + p1 + m + p2 + b, p1, r1), p2, r2) == a + r1 + m + r2 + b,
{
    lemma_outside_free(m, p1);
    lemma_outside_free(b, p1);
    lemma_free_join(m, p2, p1);
    lemma_free_join(m + p2, b, p1);
    lemma_fill_one_tail(a, p1, m + p2 + b, r1);
    assert(a + p1 + m + p2 + b =~= a + p1 + (m + p2 + b));
    assert(a + r1 + (m + p2 + b) =~= (a + r1 + m) + p2 + b);
    lemma_outside_free(a, p2);
    lemma_outside_free(m, p2);
    lemma_free_join(a, r1, p2);
    lemma_free_join(a + r1, m, p2);
    lemma_no_start_in(a + r1 + m, p2 + b, p2);
    assert forall|k: int| 0 <= k < (a + r1 + m).len() implies #[trigger] ((a + r1 + m) + p2 + b).subrange(k, k + p2.len()) != p2 by {
        assert((a + r1 + m) + p2 + b =~= (a + r1 + m) + (p2 + b));
    }
    lemma_outside_free(b, p2);
    lemma_replace_after(a + r1 + m, p2, r2, b);
}

proof fn lemma_fill_one_tail(a: Seq<char>, p: Seq<char>, rest: Seq<char>, rep: Seq<char>)
    requires
        p.len() > 0,
        chars_outside(a, p),
        pat_free(rest, p),
    ensures
        replace_all(a + p + rest, p, rep) == a + rep + rest,
{
    assert(no_char(a, p[0])) by {
        assert forall|k: int| 0 <= k < a.len() implies #[trigger] a[k] != p[0] by {
            assert(!p.contains(a[k]));
            if a[k] == p[0] {
                assert(p.contains(p[0]));
            }
        }
    }
    lemma_replace_single(a, p, rep, rest);
}

/// A line made of parts without a character of the pattern and fillings without the
/// pattern holds no occurrence of it.
pub proof fn lemma_line_free(a: Seq<char>, r1: Seq<char>, m: Seq<char>, r2: Seq<char>, b: Seq<char>, pat: Seq<char>)
    requires
        pat.len() > 0,
        m.len() > 0,
        chars_outside(a, pat) && chars_outside(m, pat) && chars_outside(b, pat),
        pat_free(r1, pat),
        pat_free(r2, pat),
    ensures
        pat_free(a + r1 + m + r2 + b, pat),
{
    lemma_outside_free(a, pat);
    lemma_outside_free(m, pat);
    lemma_outside_free(b, pat);
    lemma_free_join(a, r1, pat);
    lemma_free_join(a + r1, m, pat);
    lemma_free_join(a + r1 + m, r2, pat);
    lemma_free_join(a + r1 + m + r2, b, pat);
}

/// A line `a` `r` `b` with parts without a character of the pattern and a filling without
/// the pattern holds no occurrence of it.
pub proof fn lemma_line_free1(a: Seq<char>, r: Seq<char>, b: Seq<char>, pat: Seq<char>)
    requires
        pat.len() > 0,
        chars_outside(a, pat) && chars_outside(b, pat),
        pat_free(r, pat),
    ensures
        pat_free(a + r + b, pat),
{
    lemma_outside_free(a, pat);
    lemma_outside_free(b, pat);
    lemma_free_join(a, r, pat);
    lemma_free_join(a + r, b, pat);
}

/// Every character of `s` lies outside ASCII.
pub open spec fn non_ascii(s: Seq<char>) -> bool {
    forall|k: int| 0 <= k < s.len() ==> (#[trigger] s[k]) as u32 >= 128
}

/// Every character of `s` is ASCII.
pub open spec fn ascii(s: Seq<char>) -> bool {
    forall|k: int| 0 <= k < s.len() ==> ((#[trigger] s[k]) as u32) < 128
}

/// No character of a text without ASCII is in an ASCII pattern.
pub proof fn lemma_non_ascii_outside(s: Seq<char>, pat: Seq<char>)
    requires
        non_ascii(s),
        ascii(pat),
    ensures
        chars_outside(s, pat),
{
    assert forall|k: int| 0 <= k < s.len() implies !pat.contains(#[trigger] s[k]) by {
        if pat.contains(s[k]) {
            let i = choose|i: int| 0 <= i < pat.len() && pat[i] == s[k];
            assert((pat[i] as u32) < 128);
        }
    }
}

/// A text without ASCII holds no ASCII pattern.
pub proof fn lemma_plain_free(s: Seq<char>, pat: Seq<char>)
    requires
        pat.len() > 0,
        non_ascii(s),
        ascii(pat),
    ensures
        pat_free(s, pat),
{
    lemma_non_ascii_outside(s, pat);
    lemma_outside_free(s, pat);
}

/// Filling the one slot `p` of a line `a` `p` `b` whose parts hold no ASCII gives
/// `a` `rep` `b`: it holds `rep`, and holds an ASCII pattern only where `rep` does.
pub proof fn lemma_fill_slot(a: Seq<char>, p: Seq<char>, b: Seq<char>, rep: Seq<char>, q: Seq<char>)
    requires
        p.len() > 0,
        q.len() > 0,
        ascii(p),
        ascii(q),
        non_ascii(a),
        non_ascii(b),
    ensures
        replace_all(a + p + b, p, rep) == a + rep + b,
        seq_contains(a + rep + b, rep),
        pat_free(rep, p) ==> pat_free(a + rep + b, p),
        pat_free(rep, q) ==> pat_free(a + rep + b, q),
{
    lemma_non_ascii_outside(a, p);
    lemma_non_ascii_outside(b, p);
    lemma_non_ascii_outside(a, q);
    lemma_non_ascii_outside(b, q);
    lemma_fill_one(a, p, b, rep);
    lemma_contains_at(a, rep, b, (a.len() + rep.len()) as int);
    if pat_free(rep, p) {
        lemma_line_free1(a, rep, b, p);
    }
    if pat_free(rep, q) {
        lemma_line_free1(a, rep, b, q);
    }
}

/// Filling a line `a` `p1` `m` `p2` `b` whose parts hold no ASCII, first `p1` with `r1`
/// and then `p2` with `r2`, gives `a` `r1` `m` `r2` `b`: it holds both fillings, and a
/// placeholder only where a filling does.
pub proof fn lemma_fill_slots(
    a: Seq<char>,
    p1: Seq<char>,
    m: Seq<char>,
    p2: Seq<char>,
    b: Seq<char>,
    r1: Seq<char>,
    r2: Seq<char>,
)
    requires
        p1.len() > 0,
        p2.len() > 0,
        m.len() > 0,
        ascii(p1),
        ascii(p2),
        non_ascii(a),
        non_ascii(m),
        non_ascii(b),
        pat_free(p2, p1),
        pat_free(r1, p2),
    ensures
        replace_all(replace_all(a + p1 + m + p2 + b, p1, r1), p2, r2) == a + r1 + m + r2 + b,
        seq_contains(a + r1 + m + r2 + b, r1),
        seq_contains(a + r1 + m + r2 + b, r2),
        pat_free(r1, p1) && pat_free(r2, p1) ==> pat_free(a + r1 + m + r2 + b, p1),
        pat_free(r2, p2) ==> pat_free(a + r1 + m + r2 + b, p2),
{
    lemma_non_ascii_outside(a, p1);
    lemma_non_ascii_outside(m, p1);
    lemma_non_ascii_outside(b, p1);
    lemma_non_ascii_outside(a, p2);
    lemma_non_ascii_outside(m, p2);
    lemma_non_ascii_outside(b, p2);
    lemma_fill_two(a, p1, m, p2, b, r1, r2);
    lemma_holds_both(a, r1, m, r2, b);
    if pat_free(r1, p1) && pat_free(r2, p1) {
        lemma_line_free(a, r1, m, r2, b, p1);
    }
    if pat_free(r2, p2) {
        lemma_line_free(a, r1, m, r2, b, p2);
    }
}

/// Filling a line `a` `p2` `m` `p1` `b` whose parts hold no ASCII, first the later `p1`
/// with `r1` and then `p2` with `r2`, gives `a` `r2` `m` `r1` `b`: it holds both fillings,
/// and a placeholder only where a filling does.
pub proof fn lemma_fill_slots_swapped(
    a: Seq<char>,
    p2: Seq<char>,
    m: Seq<char>,
    p1: Seq<char>,
    b: Seq<char>,
    r1: Seq<char>,
    r2: Seq<char>,
)
    requires
        p1.len() > 0,
        p2.len() > 0,
        m.len() > 0,
        ascii(p1),
        ascii(p2),
        non_ascii(a),
        non_ascii(m),
        non_ascii(b),
        pat_free(p2, p1),
        pat_free(r1, p2),
    ensures
        replace_all(replace_all(a + p2 + m + p1 + b, p1, r1), p2, r2) == a + r2 + m + r1 + b,
        seq_contains(a + r2 + m + r1 + b, r1),
        seq_contains(a + r2 + m + r1 + b, r2),
        pat_free(r1, p1) && pat_free(r2, p1) ==> pat_free(a + r2 + m + r1 + b, p1),
        pat_free(r2, p2) ==> pat_free(a + r2 + m + r1 + b, p2),
{
    lemma_non_ascii_outside(a, p1);
    lemma_non_ascii_outside(m, p1);
    lemma_non_ascii_outside(b, p1);
    lemma_non_ascii_outside(a, p2);
    lemma_non_ascii_outside(m, p2);
    lemma_non_ascii_outside(b, p2);
    let x = a + p2 + m;
    lemma_outside_free(a, p1);
    lemma_outside_free(m, p1);
    lemma_outside_free(b, p1);
    if a.len() > 0 {
        assert(a.last() == a[a.len() - 1]);
    }
    lemma_free_join(a, p2, p1);
    assert((a + p2 + m).len() > 0);
    lemma_free_join(a + p2, m, p1);
    assert(x.last() == m[m.len() - 1]);
    lemma_no_start_in(x, p1 + b, p1);
    assert forall|k: int| 0 <= k < x.len() implies #[trigger] (x + p1 + b).subrange(k, k + p1.len()) != p1 by {
        assert(x + p1 + b =~= x + (p1 + b));
    }
    lemma_replace_after(x, p1, r1, b);
    let tail = m + r1 + b;
    lemma_outside_free(m, p2);
    lemma_outside_free(b, p2);
    assert(m.last() == m[m.len() - 1]);
    lemma_free_join(m, r1, p2);
    if b.len() > 0 {
        assert(b[0] == b[0]);
    }
    lemma_free_join(m + r1, b, p2);
    assert(x + r1 + b =~= a + p2 + tail);
    lemma_fill_one_tail(a, p2, tail, r2);
    assert(a + r2 + tail =~= a + r2 + m + r1 + b);
    lemma_holds_both(a, r2, m, r1, b);
    if pat_free(r1, p1) && pat_free(r2, p1) {
        lemma_line_free(a, r2, m, r1, b, p1);
    }
    if pat_free(r2, p2) {
        lemma_line_free(a, r2, m, r1, b, p2);
    }
}

} // verus!
