//! Text as the greeting uses it: UTF-8 bytes decoded into characters.

use crate::error::DecodeError;
use vstd::prelude::*;
use vstd::string::StringSliceAdditionalSpecFns;
use vstd::utf8::valid_utf8;

verus! {

/// Whether `k` is the length of the longest prefix of `bytes` that is
/// well-formed UTF-8.
pub open spec fn is_valid_up_to(bytes: Seq<u8>, k: int) -> bool {
    &&& 0 <= k <= bytes.len()
    &&& valid_utf8(bytes.take(k))
    &&& forall|j: int| k < j <= bytes.len() ==> !valid_utf8(#[trigger] bytes.take(j))
}

/// Calls `core::str::from_utf8`. It succeeds exactly on well-formed UTF-8
/// and then returns the same bytes as text. Otherwise its error's
/// `valid_up_to` is the largest length of a well-formed prefix.
#[verifier::external_body]
pub(crate) fn decode_text(bytes: &[u8]) -> (r: Result<&str, DecodeError>)
    ensures
        match r {
            Ok(text) => valid_utf8(bytes@) && text.spec_bytes() == bytes@,
            Err(e) => !valid_utf8(bytes@) && is_valid_up_to(bytes@, e.valid_up_to as int),
        },
{
    match core::str::from_utf8(bytes) {
        Ok(text) => Ok(text),
        Err(e) => Err(DecodeError { valid_up_to: e.valid_up_to() }),
    }
}

/// The characters of `text`, in order.
pub(crate) fn chars_of(text: &str) -> (chars: Vec<char>)
    ensures
        chars@ == text@,
{
    let mut chars: Vec<char> = Vec::new();
    for c in it: text.chars()
        invariant
            chars@ == it.seq().take(it.index() as int),
    {
        chars.push(c);
    }
    chars
}

/// The index of the first `c` in `s`, or the length of `s` where it holds
/// none.
pub open spec fn position(s: Seq<char>, c: char) -> nat
    decreases s.len(),
{
    if s.len() == 0 || s[0] == c {
        0
    } else {
        1 + position(s.skip(1), c)
    }
}

/// `position` is the one index in range before which no `c` stands and at
/// which `s` ends or holds `c`.
pub proof fn lemma_position(s: Seq<char>, c: char, i: int)
    requires
        0 <= i <= s.len(),
        forall|j: int| 0 <= j < i ==> s[j] != c,
        i == s.len() || s[i] == c,
    ensures
        position(s, c) == i,
    decreases s.len(),
{
    if i > 0 {
        let rest = s.skip(1);
        assert forall|j: int| 0 <= j < i - 1 implies rest[j] != c by {
            assert(rest[j] == s[j + 1]);
        }
        lemma_position(rest, c, i - 1);
    }
}

/// The index in `from..to` of the first `c` in `chars`, or `to` where that
/// range holds none.
pub(crate) fn find_char(chars: &[char], from: usize, to: usize, c: char) -> (at: usize)
    requires
        from <= to <= chars@.len(),
    ensures
        from <= at <= to,
        at - from == position(chars@.subrange(from as int, to as int), c),
{
    let mut at = from;
    while at < to && chars[at] != c
        invariant
            from <= at <= to <= chars@.len(),
            forall|j: int| from <= j < at ==> chars@[j] != c,
        decreases to - at,
    {
        at += 1;
    }
    proof {
        lemma_position(chars@.subrange(from as int, to as int), c, at - from);
    }
    at
}

/// The index of the first `": "` in `line`, or the length of `line` where
/// it holds none.
pub open spec fn separator(line: Seq<char>) -> nat
    decreases line.len(),
{
    if line.len() < 2 {
        line.len()
    } else if line[0] == ':' && line[1] == ' ' {
        0
    } else {
        1 + separator(line.skip(1))
    }
}

/// Whether a colon and a space stand at index `i` of `line`.
pub open spec fn separator_at(line: Seq<char>, i: int) -> bool {
    0 <= i && i + 1 < line.len() && line[i] == ':' && line[i + 1] == ' '
}

/// `separator` is the first index at which a colon and a space stand, and
/// the length where they stand nowhere.
pub proof fn lemma_separator(line: Seq<char>, i: int)
    requires
        0 <= i <= line.len(),
        forall|j: int| 0 <= j < i ==> !separator_at(line, j),
        i == line.len() || separator_at(line, i),
    ensures
        separator(line) == i,
    decreases line.len(),
{
    if line.len() >= 2 && i > 0 {
        let rest = line.skip(1);
        assert(!separator_at(line, 0));
        assert forall|j: int| 0 <= j < i - 1 implies !separator_at(rest, j) by {
            assert(!separator_at(line, j + 1));
        }
        lemma_separator(rest, i - 1);
    } else if i > 0 {
        assert(!separator_at(line, 0));
    }
}

/// The index in `from..to` of the first `": "` that lies in that range of
/// `chars`, or `to` where there is none.
pub(crate) fn find_separator(chars: &[char], from: usize, to: usize) -> (at: usize)
    requires
        from <= to <= chars@.len(),
    ensures
        from <= at <= to,
        at < to ==> at + 2 <= to,
        at - from == separator(chars@.subrange(from as int, to as int)),
{
    let ghost line = chars@.subrange(from as int, to as int);
    let mut at = from;
    while at < to
        invariant
            from <= at <= to <= chars@.len(),
            line == chars@.subrange(from as int, to as int),
            forall|j: int| 0 <= j < at - from ==> !separator_at(line, j),
        decreases to - at,
    {
        if to - at >= 2 && chars[at] == ':' && chars[at + 1] == ' ' {
            proof {
                lemma_separator(line, at - from);
            }
            return at;
        }
        at += 1;
    }
    proof {
        lemma_separator(line, at - from);
    }
    at
}

/// Whether the range `from..to` of `chars` spells `word`.
pub(crate) fn range_is(chars: &[char], from: usize, to: usize, word: &[char]) -> (same: bool)
    requires
        from <= to <= chars@.len(),
    ensures
        same == (chars@.subrange(from as int, to as int) == word@),
{
    if to - from != word.len() {
        return false;
    }
    let mut i: usize = 0;
    while i < word.len()
        invariant
            from <= to <= chars@.len(),
            to - from == word@.len(),
            i <= word@.len(),
            forall|j: int| 0 <= j < i ==> chars@[from + j] == word@[j],
        decreases word@.len() - i,
    {
        if chars[from + i] != word[i] {
            assert(chars@.subrange(from as int, to as int)[i as int] != word@[i as int]);
            return false;
        }
        i += 1;
    }
    assert(chars@.subrange(from as int, to as int) =~= word@);
    true
}

} // verus!
