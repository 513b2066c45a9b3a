//! Text as sequences of characters: decoding, trimming and searching.

use std::string::FromUtf8Error;
use vstd::prelude::*;
use vstd::slice::slice_subrange;
use vstd::utf8::{decode_utf8, valid_utf8};

verus! {

/// The error of `String::from_utf8`, carried through as an opaque value.
#[verifier::external_type_specification]
#[verifier::external_body]
pub struct ExFromUtf8Error(FromUtf8Error);

/// `String::from_utf8` succeeds on exactly the byte vectors that are valid UTF-8
/// and then holds the characters that the bytes encode.
pub assume_specification[ String::from_utf8 ](vec: Vec<u8>) -> (r: Result<String, FromUtf8Error>)
    ensures
        r is Ok <==> valid_utf8(vec@),
        r matches Ok(s) ==> s@ == decode_utf8(vec@),
;

/// `String::push` appends one character.
pub assume_specification[ String::push ](s: &mut String, ch: char)
    ensures
        final(s)@ == old(s)@.push(ch),
;

/// Whether a character has the Unicode property White_Space, as
/// `char::is_whitespace` reports it.
pub uninterp spec fn is_whitespace(c: char) -> bool;

/// `char::is_whitespace` is a function of the character alone.
pub assume_specification[ char::is_whitespace ](c: char) -> (r: bool)
    ensures
        r == is_whitespace(c),
;

/// The first index at or after `from` that holds `c`, or the length of `s` where
/// no such index exists.
pub open spec fn find_char(s: Seq<char>, c: char, from: int) -> int
    decreases s.len() - from,
{
    if from < 0 || from >= s.len() {
        s.len() as int
    } else if s[from] == c {
        from
    } else {
        find_char(s, c, from + 1)
    }
}

/// The number of whitespace characters that `s` begins with.
pub open spec fn leading_whitespace(s: Seq<char>) -> int
    decreases s.len(),
{
    if s.len() > 0 && is_whitespace(s[0]) {
        1 + leading_whitespace(s.drop_first())
    } else {
        0
    }
}

/// The number of whitespace characters that `s` ends with.
pub open spec fn trailing_whitespace(s: Seq<char>) -> int
    decreases s.len(),
{
    if s.len() > 0 && is_whitespace(s.last()) {
        1 + trailing_whitespace(s.drop_last())
    } else {
        0
    }
}

/// `s` without the whitespace at its start.
pub open spec fn trim_start(s: Seq<char>) -> Seq<char> {
    s.skip(leading_whitespace(s))
}

/// `s` without the whitespace at its end.
pub open spec fn trim_end(s: Seq<char>) -> Seq<char> {
    s.take(s.len() - trailing_whitespace(s))
}

/// `s` without the whitespace at either end.
pub open spec fn trim(s: Seq<char>) -> Seq<char> {
    trim_end(trim_start(s))
}

/// The count of leading whitespace stays within the sequence.
pub proof fn lemma_leading_whitespace_bounds(s: Seq<char>)
    ensures
        0 <= leading_whitespace(s) <= s.len(),
    decreases s.len(),
{
    if s.len() > 0 && is_whitespace(s[0]) {
        lemma_leading_whitespace_bounds(s.drop_first());
    }
}

/// The count of trailing whitespace stays within the sequence.
pub proof fn lemma_trailing_whitespace_bounds(s: Seq<char>)
    ensures
        0 <= trailing_whitespace(s) <= s.len(),
    decreases s.len(),
{
    if s.len() > 0 && is_whitespace(s.last()) {
        lemma_trailing_whitespace_bounds(s.drop_last());
    }
}

/// A run of `n` whitespace characters at the start of `s`, followed by the end of
/// `s` or by a character that is no whitespace, is all its leading whitespace.
proof fn lemma_leading_whitespace_is(s: Seq<char>, n: int)
    requires
        0 <= n <= s.len(),
        forall|j: int| 0 <= j < n ==> is_whitespace(#[trigger] s[j]),
        n < s.len() ==> !is_whitespace(s[n]),
    ensures
        leading_whitespace(s) == n,
    decreases n,
{
    if n > 0 {
        let rest = s.drop_first();
        assert forall|j: int| 0 <= j < n - 1 implies is_whitespace(#[trigger] rest[j]) by {
            assert(rest[j] == s[j + 1]);
        }
        if n - 1 < rest.len() {
            assert(rest[n - 1] == s[n]);
        }
        lemma_leading_whitespace_is(rest, n - 1);
    }
}

/// A run of `n` whitespace characters at the end of `s`, preceded by the start of
/// `s` or by a character that is no whitespace, is all its trailing whitespace.
proof fn lemma_trailing_whitespace_is(s: Seq<char>, n: int)
    requires
        0 <= n <= s.len(),
        forall|j: int| s.len() - n <= j < s.len() ==> is_whitespace(#[trigger] s[j]),
        n < s.len() ==> !is_whitespace(s[s.len() - n - 1]),
    ensures
        trailing_whitespace(s) == n,
    decreases n,
{
    if n > 0 {
        let rest = s.drop_last();
        assert forall|j: int| rest.len() - (n - 1) <= j < rest.len() implies is_whitespace(
            #[trigger] rest[j],
        ) by {
            assert(rest[j] == s[j]);
        }
        if n - 1 < rest.len() {
            assert(rest[rest.len() - (n - 1) - 1] == s[s.len() - n - 1]);
        }
        lemma_trailing_whitespace_is(rest, n - 1);
    }
}

/// The first index at or after `from` that holds `c` is `at`, where nothing
/// between the two holds `c` and `at` holds it or is the end.
proof fn lemma_find_char_is(s: Seq<char>, c: char, from: int, at: int)
    requires
        0 <= from <= at <= s.len(),
        forall|j: int| from <= j < at ==> #[trigger] s[j] != c,
        at < s.len() ==> s[at] == c,
    ensures
        find_char(s, c, from) == at,
    decreases at - from,
{
    if from < at {
        lemma_find_char_is(s, c, from + 1, at);
    }
}

/// The characters of a string, in order.
pub fn chars_of(s: &str) -> (chars: Vec<char>)
    ensures
        chars@ == s@,
{
    broadcast use vstd::string::group_string_axioms;

    let mut chars: Vec<char> = Vec::new();
    for c in it: s.chars()
        invariant
            it.seq() == s@,
            chars@ == it.seq().take(it.index()),
    {
        chars.push(c);
    }
    assert(chars@ =~= s@);
    chars
}

/// The string that holds the given characters, in order.
pub fn string_of(chars: &[char]) -> (s: String)
    ensures
        s@ == chars@,
{
    let mut s = String::new();
    let mut i: usize = 0;
    while i < chars.len()
        invariant
            i <= chars.len(),
            s@ == chars@.take(i as int),
        decreases chars.len() - i,
    {
        s.push(chars[i]);
        i += 1;
    }
    assert(s@ =~= chars@);
    s
}

/// The index of the first `c` in `s`, or the length of `s` where it holds none.
pub fn index_of(s: &[char], c: char) -> (at: usize)
    ensures
        at as int == find_char(s@, c, 0),
        at <= s.len(),
        at < s.len() ==> s@[at as int] == c,
{
    let mut i: usize = 0;
    while i < s.len() && s[i] != c
        invariant
            i <= s.len(),
            forall|j: int| 0 <= j < i ==> #[trigger] s@[j] != c,
        decreases s.len() - i,
    {
        i += 1;
    }
    proof {
        lemma_find_char_is(s@, c, 0, i as int);
    }
    i
}

/// The part of `s` between its leading and its trailing whitespace.
pub fn trim_slice(s: &[char]) -> (trimmed: &[char])
    ensures
        trimmed@ == trim(s@),
{
    let mut lo: usize = 0;
    while lo < s.len() && s[lo].is_whitespace()
        invariant
            lo <= s.len(),
            forall|j: int| 0 <= j < lo ==> is_whitespace(#[trigger] s@[j]),
        decreases s.len() - lo,
    {
        lo += 1;
    }
    proof {
        lemma_leading_whitespace_is(s@, lo as int);
    }
    let rest = slice_subrange(s, lo, s.len());
    assert(rest@ == trim_start(s@));
    let mut hi: usize = rest.len();
    while hi > 0 && rest[hi - 1].is_whitespace()
        invariant
            hi <= rest.len(),
            forall|j: int| hi <= j < rest.len() ==> is_whitespace(#[trigger] rest@[j]),
        decreases hi,
    {
        hi -= 1;
    }
    proof {
        lemma_trailing_whitespace_is(rest@, rest.len() - hi);
    }
    slice_subrange(rest, 0, hi)
}

} // verus!
