//! Character-level helpers shared by the other modules.
//!
//! Strings are modelled by their view, a `Seq<char>`. The executable code
//! first spreads a string into a `Vec<char>`, works on indices, and builds
//! its results character by character.

use vstd::prelude::*;

verus! {

/// `String::push` appends one character to the end of the string and
/// leaves what was there before untouched.
pub assume_specification[ String::push ](s: &mut String, ch: char)
    ensures
        final(s)@ == old(s)@.push(ch),
;

/// The name of what `str::to_lowercase` returns for a string with the
/// characters `s`: its lowercase equivalent under the Unicode rules.
pub uninterp spec fn lowercase_of(s: Seq<char>) -> Seq<char>;

/// Calls `str::to_lowercase`. The result depends on the characters of `s`
/// alone; the contract gives it the name [`lowercase_of`] and says nothing
/// else about it.
#[verifier::external_body]
pub(crate) fn lowercase(s: &str) -> (lowered: String)
    ensures
        lowered@ == lowercase_of(s@),
{
    s.to_lowercase()
}

/// True for the ten ASCII decimal digits.
pub open spec fn is_digit(c: char) -> bool {
    '0' <= c && c <= '9'
}

/// The position of the first `c` in `s` at or after `from`, or `s.len()`
/// when there is none.
pub open spec fn first_index_from(s: Seq<char>, c: char, from: int) -> int
    decreases s.len() - from,
{
    if from < 0 || from >= s.len() {
        s.len() as int
    } else if s[from] == c {
        from
    } else {
        first_index_from(s, c, from + 1)
    }
}

/// The position of the first `c` in `s`, or `s.len()` when there is none.
pub open spec fn first_index(s: Seq<char>, c: char) -> int {
    first_index_from(s, c, 0)
}

/// `first_index_from` lies in `from..=s.len()`, points at a `c` unless it is
/// `s.len()`, and no `c` stands between `from` and it.
pub proof fn lemma_first_index_from(s: Seq<char>, c: char, from: int)
    requires
        0 <= from <= s.len(),
    ensures
        from <= first_index_from(s, c, from) <= s.len(),
        first_index_from(s, c, from) < s.len() ==> s[first_index_from(s, c, from)] == c,
        forall|j: int| from <= j < first_index_from(s, c, from) ==> s[j] != c,
    decreases s.len() - from,
{
    if from < s.len() && s[from] != c {
        lemma_first_index_from(s, c, from + 1);
    }
}

pub(crate) fn is_digit_char(c: char) -> (b: bool)
    ensures
        b == is_digit(c),
{
    '0' <= c && c <= '9'
}

/// The characters of `s`, in order.
pub(crate) fn chars_of(s: &str) -> (v: Vec<char>)
    ensures
        v@ == s@,
{
    let mut v: Vec<char> = Vec::new();
    for c in it: s.chars()
        invariant
            it.seq() == s@,
            v@ == it.seq().take(it.index() as int),
    {
        v.push(c);
    }
    v
}

/// Appends `v[from..to]` to `out`.
pub(crate) fn push_range(out: &mut String, v: &Vec<char>, from: usize, to: usize)
    requires
        from <= to <= v.len(),
    ensures
        final(out)@ == old(out)@ + v@.subrange(from as int, to as int),
{
    let mut i: usize = from;
    while i < to
        invariant
            from <= i <= to <= v.len(),
            out@ == old(out)@ + v@.subrange(from as int, i as int),
        decreases to - i,
    {
        out.push(v[i]);
        i += 1;
    }
}

/// Appends all of `v` to `out`.
pub(crate) fn push_all(out: &mut String, v: &Vec<char>)
    ensures
        final(out)@ == old(out)@ + v@,
{
    push_range(out, v, 0, v.len());
    assert(v@.subrange(0, v.len() as int) == v@);
}

/// The string made of `v`.
pub(crate) fn string_of(v: &Vec<char>) -> (s: String)
    ensures
        s@ == v@,
{
    let mut s = String::new();
    push_all(&mut s, v);
    s
}

/// The string made of `v[from..to]`.
pub(crate) fn string_of_range(v: &Vec<char>, from: usize, to: usize) -> (s: String)
    requires
        from <= to <= v.len(),
    ensures
        s@ == v@.subrange(from as int, to as int),
{
    let mut s = String::new();
    push_range(&mut s, v, from, to);
    s
}

/// The position of the first `c` in `v` at or after `from`, or `v.len()`.
pub(crate) fn find_from(v: &Vec<char>, c: char, from: usize) -> (i: usize)
    requires
        from <= v.len(),
    ensures
        i == first_index_from(v@, c, from as int),
        from <= i <= v.len(),
{
    let mut i: usize = from;
    while i < v.len() && v[i] != c
        invariant
            from <= i <= v.len(),
            first_index_from(v@, c, from as int) == first_index_from(v@, c, i as int),
        decreases v.len() - i,
    {
        i += 1;
    }
    i
}

/// Whether `v` has exactly the characters of `word`.
pub(crate) fn chars_equal(v: &Vec<char>, word: &str) -> (b: bool)
    ensures
        b == (v@ == word@),
{
    let w = chars_of(word);
    if v.len() != w.len() {
        return false;
    }
    let mut i: usize = 0;
    while i < v.len()
        invariant
            i <= v.len(),
            v.len() == w.len(),
            w@ == word@,
            v@.take(i as int) == w@.take(i as int),
        decreases v.len() - i,
    {
        if v[i] != w[i] {
            return false;
        }
        i += 1;
    }
    assert(v@ == v@.take(v.len() as int));
    assert(w@ == w@.take(w.len() as int));
    true
}

} // verus!
