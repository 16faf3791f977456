//! Text as a sequence of characters: conversion, search, trimming and
//! decimal numerals.

use vstd::prelude::*;

verus! {

/// Taken on trust, not proved: `String::push` of the standard library
/// appends `c` to the end of the string and leaves what stood there as it
/// was.
pub assume_specification[ String::push ](text: &mut String, c: char)
    ensures
        final(text)@ == old(text)@.push(c),
;

/// The characters of `text`, in order.
pub fn chars_of(text: &str) -> (chars: Vec<char>)
    ensures
        chars@ == text@,
{
    let mut chars: Vec<char> = Vec::new();
    for c in it: text.chars()
        invariant
            it.seq() == text@,
            chars@ == it.seq().take(it.index() as int),
    {
        chars.push(c);
    }
    chars
}

/// The string that holds exactly `chars`.
pub fn string_of(chars: &[char]) -> (text: String)
    ensures
        text@ == chars@,
{
    let mut text = String::new();
    let mut i: usize = 0;
    while i < chars.len()
        invariant
            i <= chars.len(),
            text@ == chars@.take(i as int),
        decreases chars.len() - i,
    {
        text.push(chars[i]);
        i += 1;
    }
    text
}

/// Appends `piece` to `out`.
pub fn append(out: &mut Vec<char>, piece: &[char])
    ensures
        final(out)@ == old(out)@ + piece@,
{
    let mut i: usize = 0;
    while i < piece.len()
        invariant
            i <= piece.len(),
            out@ == old(out)@ + piece@.take(i as int),
        decreases piece.len() - i,
    {
        out.push(piece[i]);
        i += 1;
    }
}

/// `pattern` stands in `text` at index `at`.
pub open spec fn occurs_at(text: Seq<char>, pattern: Seq<char>, at: int) -> bool {
    &&& 0 <= at
    &&& at + pattern.len() <= text.len()
    &&& text.subrange(at, at + pattern.len()) == pattern
}

/// `pattern` stands somewhere in `text`.
pub open spec fn occurs(text: Seq<char>, pattern: Seq<char>) -> bool {
    exists|at: int| occurs_at(text, pattern, at)
}

/// `pattern` stands in `text` at `at` and nowhere before.
pub open spec fn is_first_occurrence(text: Seq<char>, pattern: Seq<char>, at: int) -> bool {
    &&& occurs_at(text, pattern, at)
    &&& forall|earlier: int| earlier < at ==> !occurs_at(text, pattern, earlier)
}

/// Where `pattern` first stands in `text`, if it stands there at all.
pub open spec fn first_occurrence(text: Seq<char>, pattern: Seq<char>) -> Option<int> {
    if occurs(text, pattern) {
        Some(choose|at: int| is_first_occurrence(text, pattern, at))
    } else {
        None
    }
}

/// An index that meets `is_first_occurrence` is the first occurrence.
pub proof fn lemma_first_occurrence(text: Seq<char>, pattern: Seq<char>, at: int)
    requires
        is_first_occurrence(text, pattern, at),
    ensures
        first_occurrence(text, pattern) == Some(at),
{
    let chosen = choose|at: int| is_first_occurrence(text, pattern, at);
    assert(is_first_occurrence(text, pattern, chosen));
    assert(chosen == at) by {
        if chosen < at {
            assert(!occurs_at(text, pattern, chosen));
        } else if at < chosen {
            assert(!occurs_at(text, pattern, at));
        }
    }
}

/// Where `pattern` stands in `text` at all, it stands somewhere first, and
/// `first_occurrence` is that place.
pub proof fn lemma_first_occurrence_stands(text: Seq<char>, pattern: Seq<char>)
    ensures
        match first_occurrence(text, pattern) {
            Some(at) => is_first_occurrence(text, pattern, at),
            None => !occurs(text, pattern),
        },
{
    if occurs(text, pattern) {
        let somewhere = choose|at: int| occurs_at(text, pattern, at);
        lemma_earliest_occurrence(text, pattern, somewhere);
    }
}

/// Before or at each occurrence there is a first one.
proof fn lemma_earliest_occurrence(text: Seq<char>, pattern: Seq<char>, at: int)
    requires
        occurs_at(text, pattern, at),
    ensures
        exists|first: int| is_first_occurrence(text, pattern, first),
    decreases at,
{
    if exists|earlier: int| earlier < at && occurs_at(text, pattern, earlier) {
        let earlier = choose|earlier: int| earlier < at && occurs_at(text, pattern, earlier);
        lemma_earliest_occurrence(text, pattern, earlier);
    } else {
        assert(is_first_occurrence(text, pattern, at));
    }
}

/// Whether `pattern` stands in `text` at index `at`.
pub fn matches_at(text: &[char], pattern: &[char], at: usize) -> (found: bool)
    ensures
        found == occurs_at(text@, pattern@, at as int),
{
    if at > text.len() || pattern.len() > text.len() - at {
        return false;
    }
    let mut k: usize = 0;
    while k < pattern.len()
        invariant
            at + pattern.len() <= text.len(),
            k <= pattern.len(),
            forall|j: int| 0 <= j < k ==> text@[at + j] == pattern@[j],
        decreases pattern.len() - k,
    {
        if text[at + k] != pattern[k] {
            assert(text@.subrange(at as int, at + pattern.len())[k as int] != pattern@[k as int]);
            return false;
        }
        k += 1;
    }
    assert(text@.subrange(at as int, at + pattern.len()) =~= pattern@);
    true
}

/// The index at which `pattern` first stands in `text`.
pub fn find(text: &[char], pattern: &[char]) -> (found: Option<usize>)
    ensures
        match found {
            Some(at) => first_occurrence(text@, pattern@) == Some(at as int)
                && is_first_occurrence(text@, pattern@, at as int),
            None => first_occurrence(text@, pattern@) is None,
        },
{
    let mut at: usize = 0;
    while at < text.len()
        invariant
            at <= text.len(),
            forall|earlier: int| earlier < at ==> !occurs_at(text@, pattern@, earlier),
        decreases text.len() - at,
    {
        if matches_at(text, pattern, at) {
            proof {
                lemma_first_occurrence(text@, pattern@, at as int);
            }
            return Some(at);
        }
        at += 1;
    }
    if matches_at(text, pattern, at) {
        proof {
            lemma_first_occurrence(text@, pattern@, at as int);
        }
        return Some(at);
    }
    assert forall|any: int| !occurs_at(text@, pattern@, any) by {
        if any > at {
            assert(any + pattern@.len() > text@.len());
        }
    }
    None
}

/// The characters that count as white space: those with the Unicode property
/// `White_Space`.
pub open spec fn whitespace(c: char) -> bool {
    let code = c as u32;
    ||| 0x09 <= code <= 0x0D
    ||| code == 0x20
    ||| code == 0x85
    ||| code == 0xA0
    ||| code == 0x1680
    ||| 0x2000 <= code <= 0x200A
    ||| code == 0x2028
    ||| code == 0x2029
    ||| code == 0x202F
    ||| code == 0x205F
    ||| code == 0x3000
}

/// Whether `c` is white space.
pub fn is_whitespace(c: char) -> (yes: bool)
    ensures
        yes == whitespace(c),
{
    let code: u32 = c as u32;
    (0x09 <= code && code <= 0x0D) || code == 0x20 || code == 0x85 || code == 0xA0 || code
        == 0x1680 || (0x2000 <= code && code <= 0x200A) || code == 0x2028 || code == 0x2029
        || code == 0x202F || code == 0x205F || code == 0x3000
}

/// `text` without the white space it begins with.
pub open spec fn without_leading_space(text: Seq<char>) -> Seq<char>
    decreases text.len(),
{
    if text.len() > 0 && whitespace(text[0]) {
        without_leading_space(text.drop_first())
    } else {
        text
    }
}

/// `text` without the white space it ends with.
pub open spec fn without_trailing_space(text: Seq<char>) -> Seq<char>
    decreases text.len(),
{
    if text.len() > 0 && whitespace(text.last()) {
        without_trailing_space(text.drop_last())
    } else {
        text
    }
}

/// `text` without the white space at either end.
pub open spec fn trimmed(text: Seq<char>) -> Seq<char> {
    without_trailing_space(without_leading_space(text))
}

/// The part of `text` between its leading and its trailing white space.
pub fn trim(text: &[char]) -> (kept: &[char])
    ensures
        kept@ == trimmed(text@),
{
    let mut start: usize = 0;
    assert(text@.subrange(0, text@.len() as int) =~= text@);
    while start < text.len() && is_whitespace(text[start])
        invariant
            start <= text.len(),
            without_leading_space(text@) == without_leading_space(
                text@.subrange(start as int, text@.len() as int),
            ),
        decreases text.len() - start,
    {
        assert(text@.subrange(start as int, text@.len() as int).drop_first()
            =~= text@.subrange(start + 1, text@.len() as int));
        start += 1;
    }
    let mut end: usize = text.len();
    while end > start && is_whitespace(text[end - 1])
        invariant
            start <= end <= text.len(),
            trimmed(text@) == without_trailing_space(text@.subrange(start as int, end as int)),
        decreases end,
    {
        assert(text@.subrange(start as int, end as int).drop_last() =~= text@.subrange(
            start as int,
            end - 1,
        ));
        end -= 1;
    }
    &text[start..end]
}

/// Where the pattern stands, the text holds each of its characters.
pub proof fn lemma_occurrence_char(text: Seq<char>, pattern: Seq<char>, at: int, k: int)
    requires
        occurs_at(text, pattern, at),
        0 <= k < pattern.len(),
    ensures
        text[at + k] == pattern[k],
{
    assert(text.subrange(at, at + pattern.len())[k] == text[at + k]);
}

/// An occurrence that begins behind the first of two texts is an occurrence
/// in the second.
pub proof fn lemma_occurrence_after(
    before: Seq<char>,
    rest: Seq<char>,
    pattern: Seq<char>,
    at: int,
)
    requires
        before.len() <= at,
    ensures
        occurs_at(before + rest, pattern, at) <==> occurs_at(rest, pattern, at - before.len()),
{
    let whole = before + rest;
    let shifted = at - before.len();
    if at + pattern.len() <= whole.len() {
        assert(whole.subrange(at, at + pattern.len()) =~= rest.subrange(
            shifted,
            shifted + pattern.len(),
        ));
    }
}

/// The character that writes the digit `value`.
pub open spec fn digit(value: nat) -> char
    recommends
        value < 10,
{
    ((48 + value) as u8) as char
}

/// `value` written in decimal, without leading zeros.
pub open spec fn decimal(value: nat) -> Seq<char>
    decreases value,
{
    if value < 10 {
        seq![digit(value)]
    } else {
        decimal(value / 10).push(digit(value % 10))
    }
}

/// Appends `value`, written in decimal, to `out`.
pub fn append_decimal(out: &mut Vec<char>, value: u8)
    ensures
        final(out)@ == old(out)@ + decimal(value as nat),
{
    let hundreds: u8 = value / 100;
    let tens: u8 = (value / 10) % 10;
    let ones: u8 = value % 10;
    proof {
        reveal_with_fuel(decimal, 3);
    }
    if value >= 100 {
        out.push((48 + hundreds) as char);
    }
    if value >= 10 {
        out.push((48 + tens) as char);
    }
    out.push((48 + ones) as char);
    assert(out@ =~= old(out)@ + decimal(value as nat));
}

} // verus!
