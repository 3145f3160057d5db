//! Character-level helpers shared by the record parser and the policy names.
//!
//! Text is modelled as `Seq<char>`. The executable helpers work on a
//! `Vec<char>` and on spans `[start, end)` of it, so that a record is scanned
//! once and nothing is copied while scanning.

use vstd::prelude::*;

verus! {

/// Whether `c` has the Unicode `White_Space` property.
pub open spec fn is_whitespace(c: char) -> bool {
    ||| '\u{9}' <= c <= '\u{d}'
    ||| c == ' '
    ||| c == '\u{85}'
    ||| c == '\u{a0}'
    ||| c == '\u{1680}'
    ||| '\u{2000}' <= c <= '\u{200a}'
    ||| c == '\u{2028}'
    ||| c == '\u{2029}'
    ||| c == '\u{202f}'
    ||| c == '\u{205f}'
    ||| c == '\u{3000}'
}

/// `c`, with an ASCII capital letter replaced by its small letter.
pub open spec fn ascii_lower(c: char) -> char {
    if 'A' <= c <= 'Z' {
        ((c as u8) + 32) as char
    } else {
        c
    }
}

/// `s` with every ASCII capital letter replaced by its small letter.
pub open spec fn ascii_lowercase(s: Seq<char>) -> Seq<char> {
    Seq::new(s.len(), |i: int| ascii_lower(s[i]))
}

/// The index of the first `c` in `s`, or `s.len()` if `s` holds none.
pub open spec fn find(s: Seq<char>, c: char) -> nat
    decreases s.len(),
{
    if s.len() == 0 || s[0] == c {
        0
    } else {
        1 + find(s.skip(1), c)
    }
}

/// `s` without its leading whitespace.
pub open spec fn trim_start(s: Seq<char>) -> Seq<char>
    decreases s.len(),
{
    if s.len() > 0 && is_whitespace(s[0]) {
        trim_start(s.skip(1))
    } else {
        s
    }
}

/// `s` without its trailing whitespace.
pub open spec fn trim_end(s: Seq<char>) -> Seq<char>
    decreases s.len(),
{
    if s.len() > 0 && is_whitespace(s.last()) {
        trim_end(s.drop_last())
    } else {
        s
    }
}

/// `s` without its leading and trailing whitespace.
pub open spec fn trim(s: Seq<char>) -> Seq<char> {
    trim_end(trim_start(s))
}

/// Whether `s` is made of whitespace only.
pub open spec fn is_blank(s: Seq<char>) -> bool {
    forall|i: int| 0 <= i < s.len() ==> is_whitespace(#[trigger] s[i])
}

/// `find(s, c)` is the one index `k` such that no `c` comes before `k` and
/// `k` is either the end of `s` or the place of a `c`.
pub proof fn lemma_find(s: Seq<char>, c: char, k: int)
    requires
        0 <= k <= s.len(),
        forall|j: int| 0 <= j < k ==> s[j] != c,
        k < s.len() ==> s[k] == c,
    ensures
        find(s, c) == k,
    decreases s.len(),
{
    if k > 0 {
        lemma_find(s.skip(1), c, k - 1);
    }
}

/// What `find` returns: an index within `s` or its end, with no `c` before it.
pub proof fn lemma_find_bounds(s: Seq<char>, c: char)
    ensures
        find(s, c) <= s.len(),
        forall|j: int| 0 <= j < find(s, c) ==> s[j] != c,
        find(s, c) < s.len() ==> s[find(s, c) as int] == c,
    decreases s.len(),
{
    if !(s.len() == 0 || s[0] == c) {
        let rest = s.skip(1);
        lemma_find_bounds(rest, c);
        assert forall|j: int| 0 <= j < find(s, c) implies s[j] != c by {
            if j > 0 {
                assert(rest[j - 1] == s[j]);
            }
        }
    }
}

/// The first `c` of `a + b` is the first `c` of `a`, or else that of `b`.
pub proof fn lemma_find_concat(a: Seq<char>, b: Seq<char>, c: char)
    ensures
        find(a + b, c) == if find(a, c) < a.len() {
            find(a, c)
        } else {
            a.len() + find(b, c)
        },
{
    lemma_find_bounds(a, c);
    lemma_find_bounds(b, c);
    let k: int = if find(a, c) < a.len() {
        find(a, c) as int
    } else {
        (a.len() + find(b, c)) as int
    };
    lemma_find(a + b, c, k);
}

/// Whitespace in front of a text does not change what `trim_start` keeps.
pub proof fn lemma_trim_start_padding(left: Seq<char>, s: Seq<char>)
    requires
        is_blank(left),
    ensures
        trim_start(left + s) == trim_start(s),
    decreases left.len(),
{
    if left.len() > 0 {
        assert((left + s).skip(1) =~= left.skip(1) + s);
        lemma_trim_start_padding(left.skip(1), s);
    }
}

/// Whitespace behind a text does not change what `trim_end` keeps.
pub proof fn lemma_trim_end_padding(s: Seq<char>, right: Seq<char>)
    requires
        is_blank(right),
    ensures
        trim_end(s + right) == trim_end(s),
    decreases right.len(),
{
    if right.len() > 0 {
        assert((s + right).drop_last() =~= s + right.drop_last());
        lemma_trim_end_padding(s, right.drop_last());
    }
}

/// Whitespace behind a text does not change what `trim` keeps.
pub proof fn lemma_trim_padding_right(s: Seq<char>, right: Seq<char>)
    requires
        is_blank(right),
    ensures
        trim(s + right) == trim(s),
    decreases s.len(),
{
    if s.len() == 0 {
        lemma_trim_start_padding(right, s);
    } else if is_whitespace(s[0]) {
        assert((s + right).skip(1) =~= s.skip(1) + right);
        lemma_trim_padding_right(s.skip(1), right);
    } else {
        lemma_trim_end_padding(s, right);
    }
}

/// Whitespace around a text does not change what `trim` keeps.
pub proof fn lemma_trim_padding(left: Seq<char>, s: Seq<char>, right: Seq<char>)
    requires
        is_blank(left),
        is_blank(right),
    ensures
        trim(left + s + right) == trim(s),
{
    assert(left + s + right =~= left + (s + right));
    lemma_trim_start_padding(left, s + right);
    lemma_trim_padding_right(s, right);
}

/// Whitespace in front of a sub-range does not change what `trim_start` keeps.
proof fn lemma_trim_start_span(s: Seq<char>, start: int, first: int, end: int)
    requires
        0 <= start <= first <= end <= s.len(),
        forall|j: int| start <= j < first ==> is_whitespace(s[j]),
        first < end ==> !is_whitespace(s[first]),
    ensures
        trim_start(s.subrange(start, end)) == s.subrange(first, end),
    decreases first - start,
{
    if start < first {
        assert(s.subrange(start, end).skip(1) =~= s.subrange(start + 1, end));
        lemma_trim_start_span(s, start + 1, first, end);
    }
}

/// Whitespace behind a sub-range does not change what `trim_end` keeps.
proof fn lemma_trim_end_span(s: Seq<char>, start: int, last: int, end: int)
    requires
        0 <= start <= last <= end <= s.len(),
        forall|j: int| last <= j < end ==> is_whitespace(s[j]),
        start < last ==> !is_whitespace(s[last - 1]),
    ensures
        trim_end(s.subrange(start, end)) == s.subrange(start, last),
    decreases end - last,
{
    if last < end {
        assert(s.subrange(start, end).drop_last() =~= s.subrange(start, end - 1));
        lemma_trim_end_span(s, start, last, end - 1);
    }
}

/// Whether `c` has the Unicode `White_Space` property.
pub fn char_is_whitespace(c: char) -> (b: bool)
    ensures
        b == is_whitespace(c),
{
    ('\u{9}' <= c && c <= '\u{d}') || c == ' ' || c == '\u{85}' || c == '\u{a0}' || c
        == '\u{1680}' || ('\u{2000}' <= c && c <= '\u{200a}') || c == '\u{2028}' || c
        == '\u{2029}' || c == '\u{202f}' || c == '\u{205f}' || c == '\u{3000}'
}

/// `c`, with an ASCII capital letter replaced by its small letter.
pub fn char_ascii_lower(c: char) -> (lower: char)
    ensures
        lower == ascii_lower(c),
{
    if 'A' <= c && c <= 'Z' {
        ((c as u8) + 32) as char
    } else {
        c
    }
}

/// The characters of `s`, in order.
pub fn chars_of(s: &str) -> (chars: Vec<char>)
    ensures
        chars@ == s@,
{
    let mut chars: Vec<char> = Vec::new();
    for c in it: s.chars()
        invariant
            chars@ == it.seq().take(it.index()),
    {
        chars.push(c);
    }
    chars
}

/// Whether `s` begins with `prefix`.
pub fn starts_with(s: &str, prefix: &Vec<char>) -> (b: bool)
    ensures
        b == prefix@.is_prefix_of(s@),
{
    let mut i: usize = 0;
    for c in it: s.chars()
        invariant
            i == it.index(),
            it.seq() == s@,
            forall|j: int| 0 <= j < i && j < prefix.len() ==> prefix[j] == s@[j],
    {
        if i >= prefix.len() {
            return true;
        }
        if c != prefix[i] {
            return false;
        }
        i += 1;
    }
    if i >= prefix.len() {
        true
    } else {
        false
    }
}

/// The place of the first `c` in `text[start..end]`, or `end` if there is none.
pub(crate) fn find_in_span(text: &Vec<char>, start: usize, end: usize, c: char) -> (at: usize)
    requires
        start <= end <= text.len(),
    ensures
        start <= at <= end,
        at - start == find(text@.subrange(start as int, end as int), c),
{
    let mut at: usize = start;
    while at < end && text[at] != c
        invariant
            start <= at <= end <= text.len(),
            forall|j: int| start <= j < at ==> text[j] != c,
        decreases end - at,
    {
        at += 1;
    }
    proof {
        lemma_find(text@.subrange(start as int, end as int), c, at - start);
    }
    at
}

/// The span of `text[start..end]` that is left when the whitespace at both
/// ends is taken away.
pub(crate) fn trim_span(text: &Vec<char>, start: usize, end: usize) -> (span: (usize, usize))
    requires
        start <= end <= text.len(),
    ensures
        start <= span.0 <= span.1 <= end,
        text@.subrange(span.0 as int, span.1 as int) == trim(
            text@.subrange(start as int, end as int),
        ),
{
    let mut first: usize = start;
    while first < end && char_is_whitespace(text[first])
        invariant
            start <= first <= end <= text.len(),
            forall|j: int| start <= j < first ==> is_whitespace(text[j]),
        decreases end - first,
    {
        first += 1;
    }
    let mut last: usize = end;
    while first < last && char_is_whitespace(text[last - 1])
        invariant
            first <= last <= end <= text.len(),
            forall|j: int| last <= j < end ==> is_whitespace(text[j]),
        decreases last - first,
    {
        last -= 1;
    }
    proof {
        lemma_trim_start_span(text@, start as int, first as int, end as int);
        lemma_trim_end_span(text@, first as int, last as int, end as int);
    }
    (first, last)
}

/// Whether `text[start..end]` begins with `prefix`.
pub(crate) fn span_starts_with(
    text: &Vec<char>,
    start: usize,
    end: usize,
    prefix: &Vec<char>,
) -> (b: bool)
    requires
        start <= end <= text.len(),
    ensures
        b == prefix@.is_prefix_of(text@.subrange(start as int, end as int)),
{
    let ghost span = text@.subrange(start as int, end as int);
    if prefix.len() > end - start {
        return false;
    }
    let mut i: usize = 0;
    while i < prefix.len()
        invariant
            i <= prefix.len() <= end - start,
            start <= end <= text.len(),
            span == text@.subrange(start as int, end as int),
            forall|j: int| 0 <= j < i ==> prefix[j] == span[j],
        decreases prefix.len() - i,
    {
        if text[start + i] != prefix[i] {
            return false;
        }
        i += 1;
    }
    true
}

/// Whether `text`, with its ASCII capital letters made small, is `word`.
pub(crate) fn lowercase_is(text: &Vec<char>, word: &Vec<char>) -> (b: bool)
    ensures
        b == (ascii_lowercase(text@) == word@),
{
    if text.len() != word.len() {
        return false;
    }
    let mut i: usize = 0;
    while i < text.len()
        invariant
            i <= text.len() == word.len(),
            forall|j: int| 0 <= j < i ==> ascii_lower(text[j]) == word[j],
        decreases text.len() - i,
    {
        if char_ascii_lower(text[i]) != word[i] {
            return false;
        }
        i += 1;
    }
    assert(ascii_lowercase(text@) =~= word@);
    true
}

} // verus!
