//! Small operations on strings, stated over their sequences of characters.

use vstd::prelude::*;

verus! {

/// `needle` occurs in `s` starting at position `i`.
pub open spec fn occurs_at(s: Seq<char>, needle: Seq<char>, i: int) -> bool {
    &&& 0 <= i
    &&& i + needle.len() <= s.len()
    &&& s.subrange(i, i + needle.len()) == needle
}

/// `needle` occurs somewhere in `s`.
pub open spec fn has_infix(s: Seq<char>, needle: Seq<char>) -> bool {
    exists|i: int| occurs_at(s, needle, i)
}

/// The characters of each string of `list`.
pub open spec fn strings_of(list: Seq<String>) -> Seq<Seq<char>> {
    Seq::new(list.len(), |i: int| list[i]@)
}

/// Number of characters of `s`.
pub fn char_len(s: &str) -> (n: usize)
    ensures
        n == s@.len(),
{
    s.unicode_len()
}

/// Whether two strings hold the same characters.
pub fn str_eq(a: &str, b: &str) -> (r: bool)
    ensures
        r == (a@ == b@),
{
    let n: usize = a.unicode_len();
    let m: usize = b.unicode_len();
    if n != m {
        return false;
    }
    let mut i: usize = 0;
    while i < n
        invariant
            i <= n,
            n == a@.len(),
            n == b@.len(),
            forall|j: int| 0 <= j < i ==> a@[j] == b@[j],
        decreases n - i,
    {
        if a.get_char(i) != b.get_char(i) {
            return false;
        }
        i = i + 1;
    }
    assert(a@ =~= b@);
    true
}

/// Whether `s` begins with `prefix`.
pub fn starts_with(s: &str, prefix: &str) -> (r: bool)
    ensures
        r == prefix@.is_prefix_of(s@),
{
    let n: usize = s.unicode_len();
    let m: usize = prefix.unicode_len();
    if m > n {
        return false;
    }
    let mut i: usize = 0;
    while i < m
        invariant
            i <= m <= n,
            n == s@.len(),
            m == prefix@.len(),
            forall|j: int| 0 <= j < i ==> s@[j] == prefix@[j],
        decreases m - i,
    {
        if s.get_char(i) != prefix.get_char(i) {
            return false;
        }
        i = i + 1;
    }
    assert(s@.subrange(0, m as int) =~= prefix@);
    true
}

/// Whether `needle` occurs in `s` starting at character `at`.
pub fn matches_at(s: &str, needle: &str, at: usize) -> (r: bool)
    ensures
        r == occurs_at(s@, needle@, at as int),
{
    let n: usize = s.unicode_len();
    let m: usize = needle.unicode_len();
    if at > n || m > n - at {
        return false;
    }
    let mut i: usize = 0;
    while i < m
        invariant
            i <= m,
            at + m <= n,
            n == s@.len(),
            m == needle@.len(),
            forall|j: int| 0 <= j < i ==> s@[at + j] == needle@[j],
        decreases m - i,
    {
        if s.get_char(at + i) != needle.get_char(i) {
            assert(s@.subrange(at as int, at + m)[i as int] == s@[at + i]);
            return false;
        }
        i = i + 1;
    }
    assert(s@.subrange(at as int, at + m) =~= needle@);
    true
}

/// Whether `needle` occurs anywhere in `s`.
pub fn contains(s: &str, needle: &str) -> (r: bool)
    ensures
        r == has_infix(s@, needle@),
{
    let n: usize = s.unicode_len();
    let m: usize = needle.unicode_len();
    if m > n {
        return false;
    }
    let last: usize = n - m;
    let mut at: usize = 0;
    while at < last
        invariant
            at <= last,
            last == n - m,
            n == s@.len(),
            m == needle@.len(),
            forall|k: int| 0 <= k < at ==> !occurs_at(s@, needle@, k),
        decreases last - at,
    {
        if matches_at(s, needle, at) {
            return true;
        }
        at = at + 1;
    }
    matches_at(s, needle, last)
}

/// `s` with every occurrence of `pattern` taken out, reading from the left;
/// an empty pattern takes nothing out.
pub open spec fn without(s: Seq<char>, pattern: Seq<char>) -> Seq<char>
    decreases s.len(),
{
    if pattern.len() == 0 || s.len() < pattern.len() {
        s
    } else if pattern.is_prefix_of(s) {
        without(s.skip(pattern.len() as int), pattern)
    } else {
        seq![s[0]] + without(s.skip(1), pattern)
    }
}

/// Takes every occurrence of `pattern` out of `s`.
pub fn remove_all(s: &str, pattern: &str) -> (r: String)
    ensures
        r@ == without(s@, pattern@),
{
    let n: usize = s.unicode_len();
    let m: usize = pattern.unicode_len();
    if m == 0 || n < m {
        return s.to_owned();
    }
    let mut out = String::new();
    let mut i: usize = 0;
    assert(s@.skip(0) =~= s@);
    assert(out@ + without(s@, pattern@) =~= without(s@, pattern@));
    while i < n && n - i >= m
        invariant
            i <= n,
            0 < m <= n,
            n == s@.len(),
            m == pattern@.len(),
            out@ + without(s@.skip(i as int), pattern@) == without(s@, pattern@),
        decreases n - i,
    {
        let ghost rest = s@.skip(i as int);
        if matches_at(s, pattern, i) {
            assert(rest.subrange(0, m as int) =~= s@.subrange(i as int, i + m));
            assert(rest.skip(m as int) =~= s@.skip(i + m));
            i = i + m;
        } else {
            assert(rest.subrange(0, m as int) =~= s@.subrange(i as int, i + m));
            assert(rest.skip(1) =~= s@.skip(i + 1));
            let ghost before = out@;
            out.append(s.substring_char(i, i + 1));
            assert(s@.subrange(i as int, i + 1) =~= seq![rest[0]]);
            assert(out@ + without(s@.skip(i + 1), pattern@) =~= before + (seq![rest[0]] + without(
                rest.skip(1),
                pattern@,
            )));
            i = i + 1;
        }
    }
    out.append(s.substring_char(i, n));
    assert(s@.subrange(i as int, n as int) =~= s@.skip(i as int));
    out
}

/// The characters of `a` followed by those of `b`.
pub fn joined(a: &str, b: &str) -> (r: String)
    ensures
        r@ == a@ + b@,
{
    let mut out = a.to_owned();
    out.append(b);
    out
}

/// The characters of each of `words`.
pub open spec fn texts_of(words: Seq<&str>) -> Seq<Seq<char>> {
    Seq::new(words.len(), |i: int| words[i]@)
}

/// An owned copy of each of `words`.
pub fn owned(words: Vec<&str>) -> (r: Vec<String>)
    ensures
        strings_of(r@) == texts_of(words@),
{
    let mut out: Vec<String> = Vec::new();
    let mut i: usize = 0;
    while i < words.len()
        invariant
            i <= words.len(),
            out@.len() == i,
            forall|j: int| 0 <= j < i ==> (#[trigger] out@[j])@ == words@[j]@,
        decreases words.len() - i,
    {
        out.push(words[i].to_owned());
        i = i + 1;
    }
    assert(strings_of(out@) =~= texts_of(words@));
    out
}

/// The characters of `s` from position `from` on.
pub fn tail(s: &str, from: usize) -> (r: String)
    requires
        from <= s@.len(),
    ensures
        r@ == s@.skip(from as int),
{
    let n: usize = s.unicode_len();
    let part = s.substring_char(from, n);
    part.to_owned()
}

/// The first `to` characters of `s`.
pub fn head(s: &str, to: usize) -> (r: String)
    requires
        to <= s@.len(),
    ensures
        r@ == s@.take(to as int),
{
    let part = s.substring_char(0, to);
    part.to_owned()
}

} // verus!
