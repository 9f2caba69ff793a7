//! Text as sequences of characters: conversions between `str` and `Vec<char>`
//! and the few comparisons the rest of the library is written with.

use vstd::prelude::*;

verus! {

/// `String::push` of std: the character is appended to the end of the string
/// and nothing else changes.
pub assume_specification[ std::string::String::push ](s: &mut std::string::String, ch: char)
    ensures
        final(s)@ == old(s)@.push(ch),
;

/// `str::eq` of std: two string slices are equal exactly when they hold the
/// same characters.
pub assume_specification[ <str as PartialEq>::eq ](a: &str, b: &str) -> (r: bool)
    ensures
        r == (a@ == b@),
;

/// `text` begins with `prefix`.
pub open spec fn starts_with(text: Seq<char>, prefix: Seq<char>) -> bool {
    prefix.len() <= text.len() && text.subrange(0, prefix.len() as int) == prefix
}

/// The index of the first `mark` in `text`, or the length of the text where
/// it holds none.
pub open spec fn index_of(text: Seq<char>, mark: char) -> int
    decreases text.len(),
{
    if text.len() == 0 || text[0] == mark {
        0
    } else {
        1 + index_of(text.drop_first(), mark)
    }
}

/// `index_of` stops at the first `mark`.
pub proof fn lemma_index_of(text: Seq<char>, mark: char)
    ensures
        0 <= index_of(text, mark) <= text.len(),
        forall|j: int| 0 <= j < index_of(text, mark) ==> text[j] != mark,
        index_of(text, mark) < text.len() ==> text[index_of(text, mark)] == mark,
    decreases text.len(),
{
    if text.len() == 0 || text[0] == mark {
    } else {
        let rest = text.drop_first();
        lemma_index_of(rest, mark);
        assert forall|j: int| 0 <= j < index_of(text, mark) implies text[j] != mark by {
            if j > 0 {
                assert(text[j] == rest[j - 1]);
            }
        }
    }
}

/// The index of the first `mark` is `index_of`.
pub proof fn lemma_index_of_is(text: Seq<char>, mark: char, at: int)
    requires
        0 <= at <= text.len(),
        forall|j: int| 0 <= j < at ==> text[j] != mark,
        at < text.len() ==> text[at] == mark,
    ensures
        index_of(text, mark) == at,
{
    lemma_index_of(text, mark);
    let e = index_of(text, mark);
    if e < at {
        assert(text[e] != mark);
    } else if at < e {
        assert(text[at] != mark);
    }
}

/// Searches `text[from..to]` for the first `mark`; returns `to` where the
/// range holds none.
pub fn find_char(text: &[char], from: usize, to: usize, mark: char) -> (r: usize)
    requires
        from <= to <= text@.len(),
    ensures
        from <= r <= to,
        r - from == index_of(text@.subrange(from as int, to as int), mark),
{
    let ghost range = text@.subrange(from as int, to as int);
    let mut stop: usize = from;
    while stop < to && text[stop] != mark
        invariant
            from <= stop <= to <= text@.len(),
            forall|j: int| from <= j < stop ==> text@[j] != mark,
        decreases to - stop,
    {
        stop += 1;
    }
    proof {
        assert forall|j: int| 0 <= j < stop - from implies range[j] != mark by {
            assert(range[j] == text@[from + j]);
        }
        lemma_index_of_is(range, mark, stop - from);
    }
    stop
}

/// The characters of a string slice.
pub fn chars_of(s: &str) -> (r: Vec<char>)
    ensures
        r@ == s@,
{
    broadcast use vstd::string::group_string_axioms;

    let mut out: Vec<char> = Vec::new();
    for c in it: s.chars()
        invariant
            it.seq() == s@,
            out@ == it.seq().take(it.index() as int),
    {
        out.push(c);
    }
    out
}

/// The string made of the characters `chars[from..to]`.
pub fn string_of(chars: &[char], from: usize, to: usize) -> (r: String)
    requires
        from <= to <= chars@.len(),
    ensures
        r@ == chars@.subrange(from as int, to as int),
{
    let mut out = String::new();
    let mut i: usize = from;
    while i < to
        invariant
            from <= i <= to <= chars@.len(),
            out@ == chars@.subrange(from as int, i as int),
        decreases to - i,
    {
        out.push(chars[i]);
        i += 1;
    }
    out
}

/// Whether the characters `text[from..to]` are exactly those of `word`.
pub fn range_equals(text: &[char], from: usize, to: usize, word: &str) -> (r: bool)
    requires
        from <= to <= text@.len(),
    ensures
        r == (text@.subrange(from as int, to as int) == word@),
{
    let w = chars_of(word);
    if w.len() != to - from {
        return false;
    }
    let mut i: usize = 0;
    while i < w.len()
        invariant
            from <= to <= text@.len(),
            w@.len() == to - from,
            i <= w@.len(),
            w@ == word@,
            text@.subrange(from as int, from + i) == w@.take(i as int),
        decreases w@.len() - i,
    {
        if text[from + i] != w[i] {
            assert(text@.subrange(from as int, to as int)[i as int] != w@[i as int]);
            return false;
        }
        assert(text@.subrange(from as int, from + i + 1) =~= text@.subrange(
            from as int,
            from + i,
        ).push(text@[from + i]));
        assert(w@.take(i + 1) =~= w@.take(i as int).push(w@[i as int]));
        i += 1;
    }
    assert(w@.take(i as int) =~= w@);
    true
}

/// Whether the characters `text[from..to]` begin with those of `word`.
pub fn range_starts_with(text: &[char], from: usize, to: usize, word: &str) -> (r: bool)
    requires
        from <= to <= text@.len(),
    ensures
        r == starts_with(text@.subrange(from as int, to as int), word@),
{
    let n = word.unicode_len();
    if n > to - from {
        return false;
    }
    let r = range_equals(text, from, from + n, word);
    assert(text@.subrange(from as int, to as int).subrange(0, n as int) =~= text@.subrange(
        from as int,
        from + n,
    ));
    r
}

} // verus!
