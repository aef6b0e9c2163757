//! Character-level operations on strings, stated over their characters.

use vstd::prelude::*;

verus! {

broadcast use vstd::string::group_string_axioms;

/// The position of the first `c` in `s`.
pub open spec fn first_index_of(s: Seq<char>, c: char) -> Option<int>
    decreases s.len(),
{
    if s.len() == 0 {
        None
    } else if s[0] == c {
        Some(0)
    } else {
        match first_index_of(s.drop_first(), c) {
            Some(i) => Some(i + 1),
            None => None,
        }
    }
}

/// Whether `s` begins with `p`.
pub open spec fn seq_starts_with(s: Seq<char>, p: Seq<char>) -> bool {
    p.len() <= s.len() && s.take(p.len() as int) == p
}

/// The part of `s` before its first `c`, or all of `s` where it holds none.
pub open spec fn before_first(s: Seq<char>, c: char) -> Seq<char> {
    match first_index_of(s, c) {
        Some(i) => s.take(i),
        None => s,
    }
}

proof fn lemma_first_index_of(s: Seq<char>, c: char, r: Option<int>)
    requires
        match r {
            Some(i) => 0 <= i < s.len() && s[i] == c && forall|j: int| 0 <= j < i ==> s[j] != c,
            None => forall|j: int| 0 <= j < s.len() ==> s[j] != c,
        },
    ensures
        first_index_of(s, c) == r,
    decreases s.len(),
{
    if s.len() > 0 && s[0] != c {
        let r2 = match r {
            Some(i) => Some(i - 1),
            None => None,
        };
        assert forall|j: int| 0 <= j < s.drop_first().len() implies #[trigger] s.drop_first()[j]
            == s[j + 1] by {}
        lemma_first_index_of(s.drop_first(), c, r2);
    }
}

/// The position of the first `c` in `s`.
pub fn find_char(s: &str, c: char) -> (r: Option<usize>)
    ensures
        match r {
            Some(i) => first_index_of(s@, c) == Some(i as int),
            None => first_index_of(s@, c) is None,
        },
{
    let n = s.unicode_len();
    let mut idx: usize = 0;
    for ch in it: s.chars()
        invariant
            idx == it.index(),
            n == s@.len(),
            idx <= n,
            it.seq() == s@,
            forall|j: int| 0 <= j < idx ==> s@[j] != c,
    {
        if ch == c {
            proof {
                lemma_first_index_of(s@, c, Some(idx as int));
            }
            return Some(idx);
        }
        idx = idx + 1;
    }
    proof {
        lemma_first_index_of(s@, c, None);
    }
    None
}

/// The characters of `s` from `from` up to `to`.
pub fn substring(s: &str, from: usize, to: usize) -> (r: String)
    requires
        from <= to <= s@.len(),
    ensures
        r@ == s@.subrange(from as int, to as int),
{
    s.substring_char(from, to).to_owned()
}

/// Whether `s` begins with `p`.
pub fn starts_with(s: &str, p: &str) -> (r: bool)
    ensures
        r == seq_starts_with(s@, p@),
{
    let n = p.unicode_len();
    let m = s.unicode_len();
    if n > m {
        false
    } else {
        let head = s.substring_char(0, n);
        crate::json::str_eq(head, p)
    }
}

/// The part of `s` before its first `c`, or all of `s`.
pub fn before_first_char(s: &str, c: char) -> (r: String)
    ensures
        r@ == before_first(s@, c),
{
    match find_char(s, c) {
        Some(i) => {
            proof {
                lemma_first_index_bound(s@, c);
            }
            substring(s, 0, i)
        },
        None => {
            let n = s.unicode_len();
            let r = substring(s, 0, n);
            proof {
                assert(s@.subrange(0, n as int) =~= s@);
            }
            r
        },
    }
}

pub proof fn lemma_first_index_bound(s: Seq<char>, c: char)
    ensures
        match first_index_of(s, c) {
            Some(i) => 0 <= i < s.len() && s[i] == c,
            None => true,
        },
    decreases s.len(),
{
    if s.len() > 0 && s[0] != c {
        lemma_first_index_bound(s.drop_first(), c);
    }
}

/// The characters of `s`, one by one.
pub fn chars_of(s: &str) -> (r: Vec<char>)
    ensures
        r@ == s@,
{
    let n = s.unicode_len();
    let mut out: Vec<char> = Vec::new();
    for ch in it: s.chars()
        invariant
            it.seq() == s@,
            n == s@.len(),
            out@ == s@.take(it.index()),
            it.index() <= n,
    {
        proof {
            assert(s@.take(it.index() + 1) =~= s@.take(it.index()).push(ch));
        }
        out.push(ch);
    }
    proof {
        assert(s@.take(n as int) =~= s@);
    }
    out
}

/// A string of the given characters, collected with `FromIterator<char>`
/// for `String`, which the standard library documents as keeping the
/// characters in order.
#[verifier::external_body]
pub fn string_from_chars(v: &[char]) -> (r: String)
    ensures
        r@ == v@,
{
    v.iter().collect()
}

/// `s` cut to its first `max` characters.
pub open spec fn truncate_spec(s: Seq<char>, max: int) -> Seq<char> {
    if s.len() <= max {
        s
    } else {
        s.take(max)
    }
}

/// Cuts a string to its first `max` characters; a shorter one is kept whole.
pub fn truncate_chars(s: &str, max: usize) -> (r: String)
    ensures
        r@ == truncate_spec(s@, max as int),
        r@.len() <= max,
        r@ == s@.take(r@.len() as int),
{
    let n = s.unicode_len();
    if n <= max {
        let r = s.to_owned();
        proof {
            assert(s@.take(s@.len() as int) =~= s@);
        }
        r
    } else {
        let r = substring(s, 0, max);
        proof {
            assert(s@.subrange(0, max as int) =~= s@.take(max as int));
            assert(s@.take(max as int).take(max as int) =~= s@.take(max as int));
        }
        r
    }
}

/// The Unicode `White_Space` characters, as `char::is_whitespace` reads them.
pub open spec fn is_ws(c: char) -> bool {
    ||| ('\u{9}' <= c && c <= '\u{d}')
    ||| c == ' '
    ||| c == '\u{85}'
    ||| c == '\u{a0}'
    ||| c == '\u{1680}'
    ||| ('\u{2000}' <= c && c <= '\u{200a}')
    ||| c == '\u{2028}'
    ||| c == '\u{2029}'
    ||| c == '\u{202f}'
    ||| c == '\u{205f}'
    ||| c == '\u{3000}'
}

pub fn is_ws_exec(c: char) -> (r: bool)
    ensures
        r == is_ws(c),
{
    ('\u{9}' <= c && c <= '\u{d}') || c == ' ' || c == '\u{85}' || c == '\u{a0}' || c == '\u{1680}'
        || ('\u{2000}' <= c && c <= '\u{200a}') || c == '\u{2028}' || c == '\u{2029}' || c
        == '\u{202f}' || c == '\u{205f}' || c == '\u{3000}'
}

/// The number of whitespace characters that `s` begins with.
pub open spec fn leading_ws(s: Seq<char>) -> nat
    decreases s.len(),
{
    if s.len() > 0 && is_ws(s[0]) {
        1 + leading_ws(s.drop_first())
    } else {
        0
    }
}

/// The number of whitespace characters that `s` ends with.
pub open spec fn trailing_ws(s: Seq<char>) -> nat
    decreases s.len(),
{
    if s.len() > 0 && is_ws(s.last()) {
        1 + trailing_ws(s.drop_last())
    } else {
        0
    }
}

/// `s` without leading and trailing whitespace.
pub open spec fn trim_spec(s: Seq<char>) -> Seq<char> {
    let a = leading_ws(s);
    if a == s.len() {
        Seq::empty()
    } else {
        s.subrange(a as int, s.len() - trailing_ws(s))
    }
}

proof fn lemma_leading_ws(s: Seq<char>, i: int)
    requires
        0 <= i <= s.len(),
        forall|j: int| 0 <= j < i ==> is_ws(#[trigger] s[j]),
    ensures
        i < s.len() && !is_ws(s[i]) ==> leading_ws(s) == i,
        i == s.len() ==> leading_ws(s) == i,
    decreases i,
{
    if i > 0 {
        assert forall|j: int| 0 <= j < i - 1 implies is_ws(#[trigger] s.drop_first()[j]) by {
            assert(s.drop_first()[j] == s[j + 1]);
        }
        lemma_leading_ws(s.drop_first(), i - 1);
    }
}

proof fn lemma_trailing_ws(s: Seq<char>, k: int)
    requires
        0 <= k <= s.len(),
        forall|j: int| s.len() - k <= j < s.len() ==> is_ws(#[trigger] s[j]),
    ensures
        k < s.len() && !is_ws(s[s.len() - k - 1]) ==> trailing_ws(s) == k,
        k == s.len() ==> trailing_ws(s) == k,
    decreases k,
{
    if k > 0 {
        assert forall|j: int| s.len() - 1 - (k - 1) <= j < s.len() - 1 implies is_ws(
            #[trigger] s.drop_last()[j],
        ) by {
            assert(s.drop_last()[j] == s[j]);
        }
        lemma_trailing_ws(s.drop_last(), k - 1);
    }
}

/// A string without its leading and trailing whitespace.
pub fn trim(s: &str) -> (r: String)
    ensures
        r@ == trim_spec(s@),
{
    let cs = chars_of(s);
    let n = cs.len();
    let mut a: usize = 0;
    while a < n && is_ws_exec(cs[a])
        invariant
            a <= n,
            n == cs@.len(),
            cs@ == s@,
            forall|j: int| 0 <= j < a ==> is_ws(#[trigger] cs@[j]),
        decreases n - a,
    {
        a = a + 1;
    }
    proof {
        lemma_leading_ws(s@, a as int);
    }
    if a == n {
        return String::new();
    }
    let mut k: usize = 0;
    while k < n - a && is_ws_exec(cs[n - 1 - k])
        invariant
            a < n,
            k <= n - a,
            n == cs@.len(),
            cs@ == s@,
            forall|j: int| n - k <= j < n ==> is_ws(#[trigger] cs@[j]),
        decreases n - a - k,
    {
        k = k + 1;
    }
    proof {
        if k == n - a {
            assert(!is_ws(cs@[a as int]));
            assert(is_ws(cs@[a as int]));
        }
        lemma_trailing_ws(s@, k as int);
    }
    let r = string_from_chars(&cs.as_slice()[a..n - k]);
    proof {
        assert(cs@.subrange(a as int, (n - k) as int) =~= s@.subrange(
            a as int,
            s@.len() - trailing_ws(s@),
        ));
    }
    r
}

/// `s` with every occurrence of `p` taken out, scanning from the left.
pub open spec fn remove_all(s: Seq<char>, p: Seq<char>) -> Seq<char>
    decreases s.len(),
{
    if p.len() == 0 || s.len() < p.len() {
        s
    } else if s.take(p.len() as int) == p {
        remove_all(s.skip(p.len() as int), p)
    } else {
        seq![s[0]] + remove_all(s.drop_first(), p)
    }
}

fn matches_at(s: &Vec<char>, i: usize, p: &Vec<char>) -> (r: bool)
    requires
        i + p@.len() <= s@.len(),
    ensures
        r == (s@.skip(i as int).take(p@.len() as int) == p@),
{
    let n = s.len();
    let mut k: usize = 0;
    while k < p.len()
        invariant
            k <= p@.len(),
            n == s@.len(),
            i + p@.len() <= s@.len(),
            forall|j: int| 0 <= j < k ==> s@[i + j] == p@[j],
        decreases p@.len() - k,
    {
        if s[i + k] != p[k] {
            proof {
                assert(s@.skip(i as int).take(p@.len() as int)[k as int] != p@[k as int]);
            }
            return false;
        }
        k = k + 1;
    }
    proof {
        assert(s@.skip(i as int).take(p@.len() as int) =~= p@);
    }
    true
}

/// Whether `p` occurs in `s`.
pub open spec fn contains_seq(s: Seq<char>, p: Seq<char>) -> bool {
    exists|i: int| 0 <= i <= s.len() - p.len() && #[trigger] s.subrange(i, i + p.len()) == p
}

/// Whether `p` occurs in the characters `s`.
pub fn contains_chars(s: &Vec<char>, p: &Vec<char>) -> (r: bool)
    ensures
        r == contains_seq(s@, p@),
{
    let n = s.len();
    let m = p.len();
    if m > n {
        return false;
    }
    if m == 0 {
        proof {
            assert(s@.subrange(0int, 0int + p@.len()) =~= p@);
        }
        return true;
    }
    let mut i: usize = 0;
    while i <= n - m
        invariant
            n == s@.len(),
            m == p@.len(),
            0 < m <= n,
            i <= n - m + 1,
            forall|j: int| 0 <= j < i ==> #[trigger] s@.subrange(j, j + m) != p@,
        decreases n - m + 1 - i,
    {
        if matches_at(s, i, p) {
            proof {
                assert(s@.skip(i as int).take(m as int) =~= s@.subrange(i as int, i + m));
            }
            return true;
        }
        proof {
            assert(s@.skip(i as int).take(m as int) =~= s@.subrange(i as int, i + m));
        }
        i = i + 1;
    }
    false
}

/// Whether `p` occurs in `s`.
pub fn contains_str(s: &str, p: &str) -> (r: bool)
    ensures
        r == contains_seq(s@, p@),
{
    let a = chars_of(s);
    let b = chars_of(p);
    contains_chars(&a, &b)
}

/// The parts joined with `sep` between each two.
pub open spec fn join_spec(parts: Seq<Seq<char>>, sep: Seq<char>) -> Seq<char>
    decreases parts.len(),
{
    if parts.len() == 0 {
        Seq::empty()
    } else if parts.len() == 1 {
        parts[0]
    } else {
        join_spec(parts.drop_last(), sep) + sep + parts.last()
    }
}

/// Joins strings with a separator.
pub fn join_strings(parts: &Vec<String>, sep: &str) -> (r: String)
    ensures
        r@ == join_spec(parts@.map_values(|s: String| s@), sep@),
{
    let ghost pv = parts@.map_values(|s: String| s@);
    let mut out = String::new();
    let mut i: usize = 0;
    while i < parts.len()
        invariant
            i <= parts@.len(),
            pv == parts@.map_values(|s: String| s@),
            out@ == join_spec(pv.take(i as int), sep@),
        decreases parts@.len() - i,
    {
        proof {
            assert(pv.take(i as int + 1).drop_last() =~= pv.take(i as int));
            assert(pv.take(i as int + 1).last() == parts@[i as int]@);
        }
        if i > 0 {
            out.append(sep);
        } else {
            proof {
                assert(pv.take(1)[0] == parts@[0]@);
            }
        }
        out.append(parts[i].as_str());
        proof {
            if i == 0 {
                assert(out@ =~= pv.take(1)[0]);
            }
        }
        i = i + 1;
    }
    proof {
        assert(pv.take(i as int) =~= pv);
    }
    out
}

/// The lowercase form of a text, as `str::to_lowercase` maps it.
pub uninterp spec fn lowercase(s: Seq<char>) -> Seq<char>;

/// Whether every character is ASCII.
pub open spec fn all_ascii(s: Seq<char>) -> bool {
    forall|i: int| 0 <= i < s.len() ==> (#[trigger] s[i] as u32) < 128
}

/// An ASCII letter made lowercase; any other character kept.
pub open spec fn ascii_lower(c: char) -> char {
    if 'A' <= c && c <= 'Z' {
        ((c as u32) + 32) as char
    } else {
        c
    }
}

/// Whether two texts differ at most in the case of ASCII letters.
pub open spec fn same_but_ascii_case(a: Seq<char>, b: Seq<char>) -> bool {
    &&& a.len() == b.len()
    &&& forall|i: int| 0 <= i < a.len() ==> ascii_lower(#[trigger] a[i]) == ascii_lower(b[i])
}

/// Lowercases a text with `str::to_lowercase`, which maps each character by
/// the Unicode lowercase property. On ASCII text that mapping is the ASCII
/// one: `A`..`Z` become `a`..`z` and every other ASCII character stays, one
/// character for one. The case of an ASCII letter changes nothing in the
/// result: each letter maps to its lowercase form either way, and the one
/// rule that looks at neighbours (a final capital sigma) sees an ASCII letter
/// as a cased letter in either case. Beyond that the mapping is left
/// unstated beyond its name.
#[verifier::external_body]
pub fn to_lowercase(s: &str) -> (r: String)
    ensures
        r@ == lowercase(s@),
        forall|t: Seq<char>| same_but_ascii_case(s@, t) ==> #[trigger] lowercase(t) == r@,
        all_ascii(s@) ==> r@.len() == s@.len(),
        all_ascii(s@) ==> forall|i: int| 0 <= i < s@.len() ==> #[trigger] r@[i] == ascii_lower(s@[i]),
{
    s.to_lowercase()
}

/// The characters of `s` with every occurrence of `p` taken out.
pub fn remove_all_chars(s: &Vec<char>, p: &Vec<char>) -> (r: Vec<char>)
    requires
        p@.len() > 0,
    ensures
        r@ == remove_all(s@, p@),
{
    let n = s.len();
    let m = p.len();
    let mut out: Vec<char> = Vec::new();
    let mut i: usize = 0;
    proof {
        assert(s@.skip(0) =~= s@);
        assert(out@ + remove_all(s@, p@) =~= remove_all(s@, p@));
    }
    while i < n
        invariant
            i <= n,
            n == s@.len(),
            m == p@.len(),
            m > 0,
            out@ + remove_all(s@.skip(i as int), p@) == remove_all(s@, p@),
        decreases n - i,
    {
        let ghost rest = s@.skip(i as int);
        if m <= n - i && matches_at(s, i, p) {
            proof {
                assert(rest.skip(m as int) =~= s@.skip(i + m));
            }
            i = i + m;
        } else {
            proof {
                assert(rest.drop_first() =~= s@.skip(i + 1));
                assert(rest[0] == s@[i as int]);
                if m > n - i {
                    assert(remove_all(rest, p@) == rest);
                    assert(remove_all(rest.drop_first(), p@) == rest.drop_first());
                    assert(rest =~= seq![rest[0]] + rest.drop_first());
                }
            }
            let c = s[i];
            out.push(c);
            proof {
                assert(out@ + remove_all(s@.skip(i + 1), p@) =~= (out@.drop_last() + seq![c])
                    + remove_all(s@.skip(i + 1), p@));
            }
            i = i + 1;
        }
    }
    proof {
        assert(s@.skip(n as int) =~= Seq::<char>::empty());
        assert(out@ + Seq::<char>::empty() =~= out@);
    }
    out
}

} // verus!
