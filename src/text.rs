//! Character-level helpers over manifest text: trimming, searching and
//! slicing, each stated over `Seq<char>`.
use vstd::prelude::*;

verus! {

/// Which characters a strip operation removes from an end of a text.
#[derive(Clone, Copy, PartialEq, Eq, Structural)]
pub enum Strip {
    /// Unicode white space, as `char::is_whitespace` classifies it.
    White,
    /// The double quote `"`.
    Quote,
    /// The comma `,`.
    Comma,
}

/// Unicode White_Space: the characters that `str::trim` removes.
pub open spec fn is_white(c: char) -> bool {
    ('\u{9}' <= c && c <= '\u{d}') || c == ' ' || c == '\u{85}' || c == '\u{a0}'
        || c == '\u{1680}' || ('\u{2000}' <= c && c <= '\u{200a}') || c == '\u{2028}'
        || c == '\u{2029}' || c == '\u{202f}' || c == '\u{205f}' || c == '\u{3000}'
}

pub open spec fn strips(k: Strip, c: char) -> bool {
    match k {
        Strip::White => is_white(c),
        Strip::Quote => c == '"',
        Strip::Comma => c == ',',
    }
}

/// `s` without its leading characters of kind `k`.
pub open spec fn strip_front(s: Seq<char>, k: Strip) -> Seq<char>
    decreases s.len(),
{
    if s.len() > 0 && strips(k, s[0]) {
        strip_front(s.drop_first(), k)
    } else {
        s
    }
}

/// `s` without its trailing characters of kind `k`.
pub open spec fn strip_back(s: Seq<char>, k: Strip) -> Seq<char>
    decreases s.len(),
{
    if s.len() > 0 && strips(k, s.last()) {
        strip_back(s.drop_last(), k)
    } else {
        s
    }
}

/// `s` without leading and trailing characters of kind `k`.
pub open spec fn strip_both(s: Seq<char>, k: Strip) -> Seq<char> {
    strip_back(strip_front(s, k), k)
}

/// `s` with surrounding white space removed.
pub open spec fn trim(s: Seq<char>) -> Seq<char> {
    strip_both(s, Strip::White)
}

/// The first index at or after `i` that holds `c`, or `s.len()` when none does.
pub open spec fn next_index(s: Seq<char>, c: char, i: int) -> int
    decreases s.len() - i,
{
    if i >= s.len() {
        s.len() as int
    } else if s[i] == c {
        i
    } else {
        next_index(s, c, i + 1)
    }
}

/// Whether `s` holds the character `c`.
pub open spec fn has_char(s: Seq<char>, c: char) -> bool {
    next_index(s, c, 0) < s.len()
}

/// The text of `s` after the first `c`; all of `s` is dropped when `c` is absent.
pub open spec fn after_first(s: Seq<char>, c: char) -> Seq<char> {
    s.subrange(
        if next_index(s, c, 0) < s.len() {
            next_index(s, c, 0) + 1
        } else {
            s.len() as int
        },
        s.len() as int,
    )
}

pub open spec fn starts_with(s: Seq<char>, p: Seq<char>) -> bool {
    p.len() <= s.len() && s.subrange(0, p.len() as int) == p
}

pub open spec fn occurs_at(s: Seq<char>, p: Seq<char>, i: int) -> bool {
    0 <= i && i + p.len() <= s.len() && s.subrange(i, i + p.len()) == p
}

pub open spec fn contains(s: Seq<char>, p: Seq<char>) -> bool {
    exists|i: int| occurs_at(s, p, i)
}

/// The text of a string that may be absent.
pub open spec fn opt_view(o: Option<String>) -> Option<Seq<char>> {
    match o {
        Some(s) => Some(s@),
        None => None,
    }
}

/// The text of a string slice that may be absent.
pub open spec fn opt_str_view(o: Option<&str>) -> Option<Seq<char>> {
    match o {
        Some(s) => Some(s@),
        None => None,
    }
}

pub proof fn lemma_next_index_bounds(s: Seq<char>, c: char, i: int)
    requires
        0 <= i <= s.len(),
    ensures
        i <= next_index(s, c, i) <= s.len(),
        next_index(s, c, i) < s.len() ==> s[next_index(s, c, i)] == c,
    decreases s.len() - i,
{
    if i < s.len() && s[i] != c {
        lemma_next_index_bounds(s, c, i + 1);
    }
}

/// Relies on `str::chars`: the characters of `s`, in order.
#[verifier::external_body]
pub(crate) fn chars_of(s: &str) -> (r: Vec<char>)
    ensures
        r@ == s@,
{
    s.chars().collect()
}

/// Relies on `String`'s `FromIterator<char>`: the string made of `v`'s characters.
#[verifier::external_body]
pub(crate) fn string_of(v: &Vec<char>) -> (r: String)
    ensures
        r@ == v@,
{
    v.iter().collect()
}

pub fn is_white_char(c: char) -> (r: bool)
    ensures
        r == is_white(c),
{
    ('\u{9}' <= c && c <= '\u{d}') || c == ' ' || c == '\u{85}' || c == '\u{a0}'
        || c == '\u{1680}' || ('\u{2000}' <= c && c <= '\u{200a}') || c == '\u{2028}'
        || c == '\u{2029}' || c == '\u{202f}' || c == '\u{205f}' || c == '\u{3000}'
}

fn strips_char(k: Strip, c: char) -> (r: bool)
    ensures
        r == strips(k, c),
{
    match k {
        Strip::White => is_white_char(c),
        Strip::Quote => c == '"',
        Strip::Comma => c == ',',
    }
}

/// The characters of `v` from `lo` up to, not including, `hi`.
pub fn slice(v: &Vec<char>, lo: usize, hi: usize) -> (r: Vec<char>)
    requires
        lo <= hi <= v@.len(),
    ensures
        r@ == v@.subrange(lo as int, hi as int),
{
    let mut r: Vec<char> = Vec::new();
    let mut i: usize = lo;
    while i < hi
        invariant
            lo <= i <= hi <= v@.len(),
            r@ == v@.subrange(lo as int, i as int),
        decreases hi - i,
    {
        r.push(v[i]);
        i = i + 1;
        assert(r@ =~= v@.subrange(lo as int, i as int));
    }
    r
}

pub fn strip_front_of(v: &Vec<char>, k: Strip) -> (r: Vec<char>)
    ensures
        r@ == strip_front(v@, k),
{
    let n = v.len();
    let mut i: usize = 0;
    assert(v@.subrange(0, n as int) =~= v@);
    while i < n && strips_char(k, v[i])
        invariant
            i <= n == v@.len(),
            strip_front(v@, k) == strip_front(v@.subrange(i as int, n as int), k),
        decreases n - i,
    {
        let ghost s = v@.subrange(i as int, n as int);
        assert(s.drop_first() =~= v@.subrange(i + 1, n as int));
        i = i + 1;
    }
    slice(v, i, n)
}

pub fn strip_back_of(v: &Vec<char>, k: Strip) -> (r: Vec<char>)
    ensures
        r@ == strip_back(v@, k),
{
    let mut j: usize = v.len();
    assert(v@.subrange(0, j as int) =~= v@);
    while j > 0 && strips_char(k, v[j - 1])
        invariant
            j <= v@.len(),
            strip_back(v@, k) == strip_back(v@.subrange(0, j as int), k),
        decreases j,
    {
        let ghost s = v@.subrange(0, j as int);
        assert(s.drop_last() =~= v@.subrange(0, j - 1));
        j = j - 1;
    }
    slice(v, 0, j)
}

pub fn strip_both_of(v: &Vec<char>, k: Strip) -> (r: Vec<char>)
    ensures
        r@ == strip_both(v@, k),
{
    let f = strip_front_of(v, k);
    strip_back_of(&f, k)
}

pub fn trim_of(v: &Vec<char>) -> (r: Vec<char>)
    ensures
        r@ == trim(v@),
{
    strip_both_of(v, Strip::White)
}

pub fn next_index_of(v: &Vec<char>, c: char, i: usize) -> (r: usize)
    requires
        i <= v@.len(),
    ensures
        r as int == next_index(v@, c, i as int),
        i <= r <= v@.len(),
{
    let mut j: usize = i;
    while j < v.len() && v[j] != c
        invariant
            i <= j <= v@.len(),
            next_index(v@, c, i as int) == next_index(v@, c, j as int),
        decreases v@.len() - j,
    {
        j = j + 1;
    }
    j
}

pub fn after_first_of(v: &Vec<char>, c: char) -> (r: Vec<char>)
    ensures
        r@ == after_first(v@, c),
{
    let k = next_index_of(v, c, 0);
    if k < v.len() {
        slice(v, k + 1, v.len())
    } else {
        slice(v, v.len(), v.len())
    }
}

pub fn occurs_at_of(v: &Vec<char>, p: &Vec<char>, i: usize) -> (r: bool)
    ensures
        r == occurs_at(v@, p@, i as int),
{
    if p.len() > v.len() || i > v.len() - p.len() {
        return false;
    }
    let vn = v.len();
    let mut j: usize = 0;
    while j < p.len()
        invariant
            i + p@.len() <= v@.len() == vn,
            j <= p@.len(),
            forall|t: int| 0 <= t < j ==> v@[i + t] == p@[t],
        decreases p@.len() - j,
    {
        if v[i + j] != p[j] {
            assert(v@.subrange(i as int, i + p@.len())[j as int] != p@[j as int]);
            return false;
        }
        j = j + 1;
    }
    assert(v@.subrange(i as int, i + p@.len()) =~= p@);
    true
}

pub fn starts_with_of(v: &Vec<char>, p: &Vec<char>) -> (r: bool)
    ensures
        r == starts_with(v@, p@),
{
    occurs_at_of(v, p, 0)
}

pub fn contains_of(v: &Vec<char>, p: &Vec<char>) -> (r: bool)
    ensures
        r == contains(v@, p@),
{
    let n = v.len();
    let mut i: usize = 0;
    loop
        invariant
            i <= n == v@.len(),
            forall|t: int| 0 <= t < i ==> !occurs_at(v@, p@, t),
        ensures
            forall|t: int| 0 <= t <= n ==> !occurs_at(v@, p@, t),
        decreases n - i,
    {
        if occurs_at_of(v, p, i) {
            return true;
        }
        if i == n {
            break;
        }
        i = i + 1;
    }
    assert forall|t: int| !occurs_at(v@, p@, t) by {
        if 0 <= t <= n {
        }
    }
    false
}

/// An occurrence in a part of a text is an occurrence in the text.
pub proof fn lemma_contains_in_subrange(s: Seq<char>, a: int, b: int, p: Seq<char>)
    requires
        0 <= a <= b <= s.len(),
        contains(s.subrange(a, b), p),
    ensures
        contains(s, p),
{
    let sub = s.subrange(a, b);
    let i = choose|i: int| occurs_at(sub, p, i);
    assert(s.subrange(a + i, a + i + p.len()) =~= sub.subrange(i, i + p.len()));
    assert(occurs_at(s, p, a + i));
}

proof fn lemma_contains_after_strip_ends(s: Seq<char>, k: Strip, p: Seq<char>)
    ensures
        contains(strip_front(s, k), p) ==> contains(s, p),
        contains(strip_back(s, k), p) ==> contains(s, p),
    decreases s.len(),
{
    if s.len() > 0 {
        lemma_contains_after_strip_ends(s.drop_first(), k, p);
        lemma_contains_after_strip_ends(s.drop_last(), k, p);
        if contains(s.drop_first(), p) {
            lemma_contains_in_subrange(s, 1, s.len() as int, p);
        }
        if contains(s.drop_last(), p) {
            lemma_contains_in_subrange(s, 0, s.len() - 1, p);
        }
    }
}

/// Stripping characters off the ends of a text makes no new occurrence.
pub proof fn lemma_contains_after_strip(s: Seq<char>, k: Strip, p: Seq<char>)
    ensures
        contains(strip_both(s, k), p) ==> contains(s, p),
{
    lemma_contains_after_strip_ends(s, k, p);
    lemma_contains_after_strip_ends(strip_front(s, k), k, p);
}

/// A text that starts with `p` contains it.
pub proof fn lemma_starts_with_contains(s: Seq<char>, p: Seq<char>)
    requires
        starts_with(s, p),
    ensures
        contains(s, p),
{
    assert(occurs_at(s, p, 0));
}

/// `next_index` finds `k` when `c` is first at `k`, or is absent and `k` is the end.
pub proof fn lemma_next_index_is(s: Seq<char>, c: char, i: int, k: int)
    requires
        0 <= i <= k <= s.len(),
        forall|j: int| i <= j < k ==> s[j] != c,
        k == s.len() || s[k] == c,
    ensures
        next_index(s, c, i) == k,
    decreases k - i,
{
    if i < k {
        lemma_next_index_is(s, c, i + 1, k);
    }
}

/// `next_index` stops at or before any `c` that follows `i`.
pub proof fn lemma_next_index_at_most(s: Seq<char>, c: char, i: int, k: int)
    requires
        0 <= i <= k < s.len(),
        s[k] == c,
    ensures
        next_index(s, c, i) <= k,
    decreases k - i,
{
    if i < k && s[i] != c {
        lemma_next_index_at_most(s, c, i + 1, k);
    }
}

} // verus!
