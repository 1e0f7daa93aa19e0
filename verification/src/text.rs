//! Text as a sequence of characters: where a pattern occurs, the pieces that a
//! separator cuts a text into, trimming, and lines.
//!
//! The specification functions speak of `Seq<char>`; the executable functions
//! work on character slices and take their patterns as string slices.

use vstd::prelude::*;
use vstd::slice::slice_subrange;
use vstd::string::StrSliceExecFns;

verus! {

/// `String::push` appends one character to the end of the string.
pub assume_specification[ String::push ](s: &mut String, c: char)
    ensures
        final(s)@ == old(s)@.push(c),
;

/// `pat` is the beginning of `s`.
pub open spec fn has_prefix(s: Seq<char>, pat: Seq<char>) -> bool {
    pat.len() <= s.len() && s.take(pat.len() as int) == pat
}

/// `pat` stands in `s` at position `i`.
pub open spec fn occurs_at(s: Seq<char>, pat: Seq<char>, i: int) -> bool {
    0 <= i <= s.len() && has_prefix(s.skip(i), pat)
}

/// `pat` stands somewhere in `s`.
pub open spec fn occurs_in(s: Seq<char>, pat: Seq<char>) -> bool {
    exists|i: int| occurs_at(s, pat, i)
}

/// `i` is the leftmost position at which `pat` stands in `s`.
pub open spec fn is_first_occurrence(s: Seq<char>, pat: Seq<char>, i: int) -> bool {
    &&& occurs_at(s, pat, i)
    &&& forall|j: int| 0 <= j < i ==> !occurs_at(s, pat, j)
}

/// The leftmost position at which `pat` stands in `s`, if it stands there at all.
pub open spec fn first_occurrence(s: Seq<char>, pat: Seq<char>) -> Option<int> {
    if exists|i: int| is_first_occurrence(s, pat, i) {
        Some(choose|i: int| is_first_occurrence(s, pat, i))
    } else {
        None
    }
}

/// The text before the first occurrence of `pat` and the text after it.
pub open spec fn split_at_first(s: Seq<char>, pat: Seq<char>) -> Option<(Seq<char>, Seq<char>)> {
    match first_occurrence(s, pat) {
        Some(i) => Some((s.take(i), s.skip(i + pat.len()))),
        None => None,
    }
}

/// The first of the pieces that the separator `pat` cuts `s` into: all of `s`
/// where `pat` does not occur.
pub open spec fn first_piece(s: Seq<char>, pat: Seq<char>) -> Seq<char> {
    match split_at_first(s, pat) {
        Some((head, _)) => head,
        None => s,
    }
}

/// The second of the pieces that the separator `pat` cuts `s` into: what stands
/// between the first occurrence of `pat` and the next one, or the end of `s`.
pub open spec fn second_piece(s: Seq<char>, pat: Seq<char>) -> Option<Seq<char>> {
    match split_at_first(s, pat) {
        Some((_, tail)) => Some(first_piece(tail, pat)),
        None => None,
    }
}

/// The text between the first `open` and the `close` that follows it.
pub open spec fn between(s: Seq<char>, open: Seq<char>, close: Seq<char>) -> Option<Seq<char>> {
    match split_at_first(s, open) {
        Some((_, tail)) => match split_at_first(tail, close) {
            Some((inner, _)) => Some(inner),
            None => None,
        },
        None => None,
    }
}

/// The characters with the Unicode property `White_Space`.
pub open spec fn is_whitespace(c: char) -> bool {
    ||| '\u{9}' <= c <= '\u{D}'
    ||| c == ' '
    ||| c == '\u{85}'
    ||| c == '\u{A0}'
    ||| c == '\u{1680}'
    ||| '\u{2000}' <= c <= '\u{200A}'
    ||| c == '\u{2028}'
    ||| c == '\u{2029}'
    ||| c == '\u{202F}'
    ||| c == '\u{205F}'
    ||| c == '\u{3000}'
}

/// `s` without the whitespace at its beginning.
pub open spec fn trimmed_start(s: Seq<char>) -> Seq<char>
    decreases s.len(),
{
    if s.len() > 0 && is_whitespace(s[0]) {
        trimmed_start(s.skip(1))
    } else {
        s
    }
}

/// `s` without the whitespace at its end.
pub open spec fn trimmed_end(s: Seq<char>) -> Seq<char>
    decreases s.len(),
{
    if s.len() > 0 && is_whitespace(s.last()) {
        trimmed_end(s.drop_last())
    } else {
        s
    }
}

/// `s` without the whitespace at both ends.
pub open spec fn trimmed(s: Seq<char>) -> Seq<char> {
    trimmed_end(trimmed_start(s))
}

/// The line feed, which ends a line.
pub open spec fn line_feed() -> Seq<char> {
    seq!['\n']
}

/// A line as it was terminated by a line feed, without the carriage return
/// that may stand before the line feed.
pub open spec fn without_carriage_return(s: Seq<char>) -> Seq<char> {
    if s.len() > 0 && s.last() == '\r' {
        s.drop_last()
    } else {
        s
    }
}

/// The lines of `s`. A line ends at a line feed or at the end of the text; the
/// line feed and a carriage return just before it are no part of the line. No
/// empty line follows a final line feed.
pub open spec fn lines_of(s: Seq<char>) -> Seq<Seq<char>>
    decreases s.len(),
{
    if s.len() == 0 {
        Seq::empty()
    } else {
        match first_occurrence(s, line_feed()) {
            Some(i) => seq![without_carriage_return(s.take(i))] + lines_of(s.skip(i + 1)),
            None => seq![s],
        }
    }
}

/// The leftmost occurrence is the one that `first_occurrence` names.
pub proof fn lemma_first_occurrence(s: Seq<char>, pat: Seq<char>, i: int)
    requires
        is_first_occurrence(s, pat, i),
    ensures
        first_occurrence(s, pat) == Some(i),
{
    let k = choose|k: int| is_first_occurrence(s, pat, k);
    assert(is_first_occurrence(s, pat, k));
    if k < i {
        assert(!occurs_at(s, pat, k));
    }
    if i < k {
        assert(!occurs_at(s, pat, i));
    }
}

/// Where `pat` stands at `i`, it has a leftmost occurrence at or before `i`.
pub proof fn lemma_occurrence_has_first(s: Seq<char>, pat: Seq<char>, i: int)
    requires
        occurs_at(s, pat, i),
    ensures
        first_occurrence(s, pat) matches Some(k) && 0 <= k <= i && is_first_occurrence(s, pat, k),
    decreases i,
{
    if exists|j: int| 0 <= j < i && occurs_at(s, pat, j) {
        let j = choose|j: int| 0 <= j < i && occurs_at(s, pat, j);
        lemma_occurrence_has_first(s, pat, j);
    } else {
        assert(is_first_occurrence(s, pat, i));
        lemma_first_occurrence(s, pat, i);
    }
}

/// `first_occurrence` finds a pattern exactly where it occurs.
pub proof fn lemma_first_occurrence_iff(s: Seq<char>, pat: Seq<char>)
    ensures
        first_occurrence(s, pat) is Some <==> occurs_in(s, pat),
        first_occurrence(s, pat) matches Some(k) ==> is_first_occurrence(s, pat, k),
{
    if occurs_in(s, pat) {
        let i = choose|i: int| occurs_at(s, pat, i);
        lemma_occurrence_has_first(s, pat, i);
    }
    if first_occurrence(s, pat) is Some {
        let k = choose|k: int| is_first_occurrence(s, pat, k);
        assert(occurs_at(s, pat, k));
    }
}

/// The characters of `s`, one by one.
pub fn chars_of(s: &str) -> (chars: Vec<char>)
    ensures
        chars@ == s@,
{
    let mut chars: Vec<char> = Vec::new();
    for c in it: s.chars()
        invariant
            it.seq() == s@,
            chars@ == it.seq().take(it.index() as int),
    {
        chars.push(c);
    }
    chars
}

/// The string that holds the characters of `chars`.
pub fn string_of(chars: &[char]) -> (s: String)
    ensures
        s@ == chars@,
{
    let mut s = String::new();
    let mut i: usize = 0;
    while i < chars.len()
        invariant
            i <= chars.len(),
            s@ == chars@.take(i as int),
        decreases chars.len() - i,
    {
        s.push(chars[i]);
        i = i + 1;
    }
    s
}

/// Whether `s` begins with `pat`.
pub fn starts_with(s: &[char], pat: &str) -> (found: bool)
    ensures
        found == has_prefix(s@, pat@),
{
    let mut i: usize = 0;
    for c in it: pat.chars()
        invariant
            it.seq() == pat@,
            i == it.index(),
            i <= s.len(),
            s@.take(i as int) == pat@.take(i as int),
    {
        if i >= s.len() {
            return false;
        }
        assert(i < pat@.len() && c == pat@[i as int]);
        if s[i] != c {
            assert(pat@.len() <= s@.len() ==> s@.take(pat@.len() as int)[i as int] != pat@[i as int]);
            return false;
        }
        assert(s@.take(i + 1) == s@.take(i as int).push(s@[i as int]));
        assert(pat@.take(i + 1) == pat@.take(i as int).push(pat@[i as int]));
        i = i + 1;
    }
    assert(pat@.take(i as int) == pat@);
    true
}

/// Whether `s` is `pat`, character by character.
pub fn is_text(s: &[char], pat: &str) -> (same: bool)
    ensures
        same == (s@ == pat@),
{
    let n = pat.unicode_len();
    if s.len() != n {
        return false;
    }
    let found = starts_with(s, pat);
    assert(s@.take(n as int) == s@);
    found
}

/// The leftmost position at which `pat` stands in `s`.
pub fn find(s: &[char], pat: &str) -> (at: Option<usize>)
    ensures
        match at {
            Some(i) => is_first_occurrence(s@, pat@, i as int) && first_occurrence(s@, pat@)
                == Some(i as int),
            None => !occurs_in(s@, pat@) && first_occurrence(s@, pat@) is None,
        },
{
    let mut i: usize = 0;
    loop
        invariant
            i <= s.len(),
            forall|j: int| 0 <= j < i ==> !occurs_at(s@, pat@, j),
        decreases s.len() - i,
    {
        let rest = slice_subrange(s, i, s.len());
        assert(rest@ == s@.skip(i as int));
        if starts_with(rest, pat) {
            proof {
                lemma_first_occurrence(s@, pat@, i as int);
            }
            return Some(i);
        }
        if i == s.len() {
            proof {
                lemma_first_occurrence_iff(s@, pat@);
            }
            return None;
        }
        i = i + 1;
    }
}

/// Whether `pat` stands somewhere in `s`.
pub fn contains(s: &[char], pat: &str) -> (found: bool)
    ensures
        found == occurs_in(s@, pat@),
{
    find(s, pat).is_some()
}

/// Cuts `s` at the first occurrence of `pat`.
pub fn split_once<'a>(s: &'a [char], pat: &str) -> (parts: Option<(&'a [char], &'a [char])>)
    ensures
        match parts {
            Some((head, tail)) => split_at_first(s@, pat@) == Some((head@, tail@)),
            None => split_at_first(s@, pat@) is None,
        },
{
    match find(s, pat) {
        Some(i) => {
            let n = pat.unicode_len();
            let len = s.len();
            assert(s@.skip(i as int).len() == len - i);
            let head = slice_subrange(s, 0, i);
            let tail = slice_subrange(s, i + n, len);
            Some((head, tail))
        },
        None => None,
    }
}

/// The part of `s` before the first occurrence of `pat`.
pub fn take_first_piece<'a>(s: &'a [char], pat: &str) -> (piece: &'a [char])
    ensures
        piece@ == first_piece(s@, pat@),
{
    match split_once(s, pat) {
        Some((head, _)) => head,
        None => s,
    }
}

/// The part of `s` between the first occurrence of `pat` and the next one.
pub fn take_second_piece<'a>(s: &'a [char], pat: &str) -> (piece: Option<&'a [char]>)
    ensures
        match piece {
            Some(p) => second_piece(s@, pat@) == Some(p@),
            None => second_piece(s@, pat@) is None,
        },
{
    match split_once(s, pat) {
        Some((_, tail)) => Some(take_first_piece(tail, pat)),
        None => None,
    }
}

/// The part of `s` between the first `open` and the `close` that follows it.
pub fn take_between<'a>(s: &'a [char], open: &str, close: &str) -> (inner: Option<&'a [char]>)
    ensures
        match inner {
            Some(p) => between(s@, open@, close@) == Some(p@),
            None => between(s@, open@, close@) is None,
        },
{
    match split_once(s, open) {
        Some((_, tail)) => match split_once(tail, close) {
            Some((inner, _)) => Some(inner),
            None => None,
        },
        None => None,
    }
}

/// Whether `c` is whitespace.
pub fn whitespace(c: char) -> (r: bool)
    ensures
        r == is_whitespace(c),
{
    (c >= '\u{9}' && c <= '\u{D}') || c == ' ' || c == '\u{85}' || c == '\u{A0}' || c
        == '\u{1680}' || (c >= '\u{2000}' && c <= '\u{200A}') || c == '\u{2028}' || c
        == '\u{2029}' || c == '\u{202F}' || c == '\u{205F}' || c == '\u{3000}'
}

/// `s` without the whitespace at both ends.
pub fn trim<'a>(s: &'a [char]) -> (t: &'a [char])
    ensures
        t@ == trimmed(s@),
{
    let mut from: usize = 0;
    assert(s@.skip(0) == s@);
    while from < s.len() && whitespace(s[from])
        invariant
            from <= s.len(),
            trimmed_start(s@) == trimmed_start(s@.skip(from as int)),
        decreases s.len() - from,
    {
        assert(s@.skip(from as int).skip(1) == s@.skip(from + 1));
        from = from + 1;
    }
    let mut to: usize = s.len();
    assert(s@.subrange(from as int, to as int) == s@.skip(from as int));
    while to > from && whitespace(s[to - 1])
        invariant
            from <= to <= s.len(),
            trimmed(s@) == trimmed_end(s@.subrange(from as int, to as int)),
        decreases to - from,
    {
        assert(s@.subrange(from as int, to as int).drop_last() == s@.subrange(
            from as int,
            to - 1,
        ));
        to = to - 1;
    }
    slice_subrange(s, from, to)
}

/// The first line of `s` and what follows it, where `s` holds anything.
pub fn next_line<'a>(s: &'a [char]) -> (r: Option<(&'a [char], &'a [char])>)
    ensures
        match r {
            Some((line, rest)) => {
                &&& s@.len() > 0
                &&& lines_of(s@) == seq![line@] + lines_of(rest@)
                &&& rest@.len() < s@.len()
            },
            None => s@.len() == 0,
        },
{
    if s.len() == 0 {
        return None;
    }
    proof {
        reveal_strlit("\n");
        assert("\n"@ == line_feed());
    }
    match find(s, "\n") {
        Some(i) => {
            let len = s.len();
            assert(s@.skip(i as int).len() == len - i);
            let rest = slice_subrange(s, i + 1, len);
            assert(rest@ == s@.skip(i + 1));
            let head = slice_subrange(s, 0, i);
            assert(head@ == s@.take(i as int));
            let line = if i > 0 && s[i - 1] == '\r' {
                slice_subrange(head, 0, i - 1)
            } else {
                head
            };
            assert(line@ == without_carriage_return(head@));
            Some((line, rest))
        },
        None => {
            let rest = slice_subrange(s, s.len(), s.len());
            assert(lines_of(rest@) == Seq::<Seq<char>>::empty());
            assert(seq![s@] + Seq::<Seq<char>>::empty() == seq![s@]);
            Some((s, rest))
        },
    }
}

} // verus!
