//! The greeting: the first frame that a server sends, which names its
//! encoding and its capabilities.
//!
//! The greeting is text on the output channel, one `key: value` per line.
//! Lines without `": "` and keys other than `encoding` and `capabilities`
//! are passed over. Where a key comes twice, its last line counts.

use crate::capabilities::{capability_views, resolve, Capability, CapabilityView};
use crate::chunk::{Chunk, ChunkView};
use crate::error::{DecodeError, HelloError};
use crate::text::{
    chars_of, decode_text, find_char, find_separator, is_valid_up_to, position, range_is,
    separator,
};
use vstd::prelude::*;
use vstd::string::{StrSliceExecFns, StringExecFns, StringSliceAdditionalSpecFns};
use vstd::utf8::{decode_utf8, encode_utf8_decode_utf8, valid_utf8};

verus! {

/// A line without the carriage return that stood before its line feed.
pub open spec fn strip_cr(line: Seq<char>) -> Seq<char> {
    if line.len() > 0 && line.last() == '\r' {
        line.drop_last()
    } else {
        line
    }
}

/// The lines of `text`. A line ends at a line feed, or at a carriage return
/// and a line feed, neither of which belongs to it. The last line needs no
/// line ending, and a text that ends in one has no empty line after it.
pub open spec fn lines(text: Seq<char>) -> Seq<Seq<char>>
    decreases text.len(),
{
    if text.len() == 0 {
        seq![]
    } else {
        let end = position(text, '\n') as int;
        if end >= text.len() {
            seq![text]
        } else {
            seq![strip_cr(text.take(end))] + lines(text.skip(end + 1))
        }
    }
}

/// The key and the value of a line: what stands before and after its first
/// `": "`. A line without one has neither.
pub open spec fn field(line: Seq<char>) -> Option<(Seq<char>, Seq<char>)> {
    let at = separator(line) as int;
    if at >= line.len() {
        None
    } else {
        Some((line.take(at), line.skip(at + 2)))
    }
}

/// The value of the last of `lines` whose key is `key`.
pub open spec fn lookup(lines: Seq<Seq<char>>, key: Seq<char>) -> Option<Seq<char>>
    decreases lines.len(),
{
    if lines.len() == 0 {
        None
    } else {
        match field(lines.last()) {
            Some((k, value)) if k == key => Some(value),
            _ => lookup(lines.drop_last(), key),
        }
    }
}

/// The pieces of `value` between its spaces. There is one piece more than
/// there are spaces, and a piece may be empty.
pub open spec fn split_spaces(value: Seq<char>) -> Seq<Seq<char>>
    decreases value.len(),
{
    let end = position(value, ' ') as int;
    if end >= value.len() {
        seq![value]
    } else {
        seq![value.take(end)] + split_spaces(value.skip(end + 1))
    }
}

/// The capabilities that `names` stand for, each once, in the order in
/// which they first occur.
pub open spec fn capability_set(names: Seq<Seq<char>>) -> Seq<CapabilityView>
    decreases names.len(),
{
    if names.len() == 0 {
        seq![]
    } else {
        let before = capability_set(names.drop_last());
        let last = resolve(names.last());
        if before.contains(last) {
            before
        } else {
            before.push(last)
        }
    }
}

/// The length of the longest prefix of `bytes` that is well-formed UTF-8.
pub open spec fn valid_prefix(bytes: Seq<u8>) -> int {
    choose|k: int| is_valid_up_to(bytes, k)
}

/// The encoding and the capabilities that the text of a greeting
/// negotiates, or the reason why it negotiates none.
pub open spec fn greeting(text: Seq<char>) -> Result<(Seq<char>, Seq<CapabilityView>), HelloError> {
    let all = lines(text);
    match lookup(all, "encoding"@) {
        None => Err(HelloError::NoEncoding),
        Some(encoding) => match lookup(all, "capabilities"@) {
            None => Err(HelloError::NoCapabilities),
            Some(value) => {
                let capabilities = capability_set(split_spaces(value));
                if capabilities.contains(CapabilityView::RunCommand) {
                    Ok((encoding, capabilities))
                } else {
                    Err(HelloError::MissingRunCommand)
                }
            },
        },
    }
}

/// What the first frame of a server negotiates. It must be an output frame
/// that holds UTF-8.
pub open spec fn hello(chunk: ChunkView) -> Result<(Seq<char>, Seq<CapabilityView>), HelloError> {
    match chunk {
        ChunkView::Output(bytes) => if valid_utf8(bytes) {
            greeting(decode_utf8(bytes))
        } else {
            Err(
                HelloError::DecodeError(DecodeError { valid_up_to: valid_prefix(bytes) as usize }),
            )
        },
        other => Err(HelloError::InvalidChannel(other.channel())),
    }
}

/// Whether the key of `line` is `key`.
pub open spec fn has_key(line: Seq<char>, key: Seq<char>) -> bool {
    field(line) is Some && field(line)->Some_0.0 == key
}

/// Whether one of `lines` has the key `key`.
pub open spec fn names_key(lines: Seq<Seq<char>>, key: Seq<char>) -> bool {
    exists|i: int| 0 <= i < lines.len() && has_key(#[trigger] lines[i], key)
}

/// A key has a value exactly where a line has that key.
pub proof fn lemma_lookup_finds_key(lines: Seq<Seq<char>>, key: Seq<char>)
    ensures
        lookup(lines, key) is Some <==> names_key(lines, key),
    decreases lines.len(),
{
    if lines.len() > 0 {
        let before = lines.drop_last();
        lemma_lookup_finds_key(before, key);
        if names_key(before, key) {
            let i = choose|i: int| 0 <= i < before.len() && has_key(#[trigger] before[i], key);
            assert(has_key(lines[i], key));
        }
        if has_key(lines.last(), key) {
            assert(has_key(lines[lines.len() - 1], key));
        }
        if names_key(lines, key) && !has_key(lines.last(), key) {
            let i = choose|i: int| 0 <= i < lines.len() && has_key(#[trigger] lines[i], key);
            assert(has_key(before[i], key));
        }
    }
}

/// A capability is in the set exactly where one of the names stands for it,
/// and it is there once.
pub proof fn lemma_capability_set(names: Seq<Seq<char>>, capability: CapabilityView)
    ensures
        capability_set(names).no_duplicates(),
        capability_set(names).contains(capability) <==> exists|i: int|
            0 <= i < names.len() && #[trigger] resolve(names[i]) == capability,
    decreases names.len(),
{
    if names.len() > 0 {
        let before = names.drop_last();
        let last = resolve(names.last());
        lemma_capability_set(before, capability);
        lemma_capability_set(before, last);
        let set = capability_set(names);
        if capability_set(before).contains(capability) {
            let j = choose|j: int|
                0 <= j < capability_set(before).len() && capability_set(before)[j] == capability;
            assert(set[j] == capability);
            let i = choose|i: int| 0 <= i < before.len() && #[trigger] resolve(before[i]) == capability;
            assert(resolve(names[i]) == capability);
        }
        if last == capability {
            assert(resolve(names[names.len() - 1]) == capability);
            if !capability_set(before).contains(last) {
                assert(set[set.len() - 1] == capability);
            }
        }
        if set.contains(capability) && last != capability {
            let j = choose|j: int| 0 <= j < set.len() && set[j] == capability;
            assert(capability_set(before)[j] == capability);
        }
        if exists|i: int| 0 <= i < names.len() && #[trigger] resolve(names[i]) == capability {
            let i = choose|i: int| 0 <= i < names.len() && #[trigger] resolve(names[i]) == capability;
            if i < names.len() - 1 {
                assert(resolve(before[i]) == capability);
            }
        }
    }
}

/// A greeting none of whose lines has the key `encoding` is refused for
/// its missing encoding, whatever else it holds.
pub proof fn lemma_missing_encoding(bytes: Seq<u8>)
    requires
        valid_utf8(bytes),
        !names_key(lines(decode_utf8(bytes)), "encoding"@),
    ensures
        hello(ChunkView::Output(bytes)) == Err::<(Seq<char>, Seq<CapabilityView>), HelloError>(
            HelloError::NoEncoding,
        ),
{
    lemma_lookup_finds_key(lines(decode_utf8(bytes)), "encoding"@);
}

/// A greeting with an encoding none of whose lines has the key
/// `capabilities` is refused for its missing capabilities.
pub proof fn lemma_missing_capabilities(bytes: Seq<u8>)
    requires
        valid_utf8(bytes),
        names_key(lines(decode_utf8(bytes)), "encoding"@),
        !names_key(lines(decode_utf8(bytes)), "capabilities"@),
    ensures
        hello(ChunkView::Output(bytes)) == Err::<(Seq<char>, Seq<CapabilityView>), HelloError>(
            HelloError::NoCapabilities,
        ),
{
    lemma_lookup_finds_key(lines(decode_utf8(bytes)), "encoding"@);
    lemma_lookup_finds_key(lines(decode_utf8(bytes)), "capabilities"@);
}

/// A greeting with both fields is accepted exactly where one of the names
/// in its capabilities is `runcommand`, and is refused for the missing
/// capability where none is.
pub proof fn lemma_capability_gate(bytes: Seq<u8>)
    requires
        valid_utf8(bytes),
        names_key(lines(decode_utf8(bytes)), "encoding"@),
        names_key(lines(decode_utf8(bytes)), "capabilities"@),
    ensures
        ({
            let value = lookup(lines(decode_utf8(bytes)), "capabilities"@)->Some_0;
            let named = exists|i: int|
                0 <= i < split_spaces(value).len() && #[trigger] split_spaces(value)[i]
                    == "runcommand"@;
            if named {
                hello(ChunkView::Output(bytes)) is Ok
            } else {
                hello(ChunkView::Output(bytes)) == Err::<
                    (Seq<char>, Seq<CapabilityView>),
                    HelloError,
                >(HelloError::MissingRunCommand)
            }
        }),
{
    let all = lines(decode_utf8(bytes));
    lemma_lookup_finds_key(all, "encoding"@);
    lemma_lookup_finds_key(all, "capabilities"@);
    let names = split_spaces(lookup(all, "capabilities"@)->Some_0);
    lemma_capability_set(names, CapabilityView::RunCommand);
    if exists|i: int| 0 <= i < names.len() && #[trigger] names[i] == "runcommand"@ {
        let i = choose|i: int| 0 <= i < names.len() && #[trigger] names[i] == "runcommand"@;
        assert(resolve(names[i]) == CapabilityView::RunCommand);
    }
    if exists|i: int| 0 <= i < names.len() && #[trigger] resolve(names[i]) == CapabilityView::RunCommand {
        let i = choose|i: int|
            0 <= i < names.len() && #[trigger] resolve(names[i]) == CapabilityView::RunCommand;
        assert(names[i] == "runcommand"@);
    }
}

/// Whether `capabilities` holds the capability `wanted`.
fn holds(capabilities: &Vec<Capability>, wanted: &Capability) -> (found: bool)
    ensures
        found == capability_views(capabilities@).contains(wanted@),
{
    let ghost views = capability_views(capabilities@);
    let mut i: usize = 0;
    while i < capabilities.len()
        invariant
            i <= capabilities@.len(),
            views == capability_views(capabilities@),
            forall|j: int| 0 <= j < i ==> views[j] != wanted@,
        decreases capabilities@.len() - i,
    {
        if capabilities[i].same(wanted) {
            assert(views[i as int] == wanted@);
            return true;
        }
        i += 1;
    }
    false
}

/// The capabilities that the range `from..to` of `chars` names, which
/// are the characters of `text`.
fn parse_capabilities(text: &str, chars: &Vec<char>, from: usize, to: usize) -> (capabilities:
    Vec<Capability>)
    requires
        chars@ == text@,
        from <= to <= chars@.len(),
    ensures
        capability_views(capabilities@) == capability_set(
            split_spaces(chars@.subrange(from as int, to as int)),
        ),
{
    let ghost value = chars@.subrange(from as int, to as int);
    let ghost mut done: Seq<Seq<char>> = seq![];
    let mut capabilities: Vec<Capability> = Vec::new();
    let mut pos = from;
    assert(capability_views(capabilities@) =~= capability_set(done));
    assert(split_spaces(value) =~= done + split_spaces(chars@.subrange(pos as int, to as int)));
    loop
        invariant_except_break
            from <= pos <= to,
            split_spaces(value) == done + split_spaces(chars@.subrange(pos as int, to as int)),
            capability_views(capabilities@) == capability_set(done),
        invariant
            chars@ == text@,
            to <= chars@.len(),
        ensures
            capability_views(capabilities@) == capability_set(split_spaces(value)),
        decreases to - pos,
    {
        let end = find_char(chars.as_slice(), pos, to, ' ');
        let name = text.substring_char(pos, end);
        let capability = Capability::from(name);
        let ghost rest = chars@.subrange(pos as int, to as int);
        let ghost before = capability_views(capabilities@);
        let known = holds(&capabilities, &capability);
        if !known {
            capabilities.push(capability);
            assert(capability_views(capabilities@) =~= before.push(capability@));
        }
        proof {
            assert(done.push(name@).drop_last() =~= done);
            assert(done.push(name@).last() == name@);
            assert(capability_views(capabilities@) == capability_set(done.push(name@)));
            if end < to {
                assert(rest.take(end - pos) =~= name@);
                assert(rest.skip(end - pos + 1) =~= chars@.subrange(end + 1, to as int));
                assert(split_spaces(value) =~= done.push(name@) + split_spaces(
                    chars@.subrange(end + 1, to as int),
                ));
            } else {
                assert(rest =~= name@);
                assert(split_spaces(value) =~= done.push(name@));
            }
            done = done.push(name@);
        }
        if end >= to {
            break ;
        }
        pos = end + 1;
    }
    capabilities
}

/// No two lengths are both the length of the longest well-formed prefix.
proof fn lemma_valid_prefix(bytes: Seq<u8>, k: int)
    requires
        is_valid_up_to(bytes, k),
    ensures
        valid_prefix(bytes) == k,
{
    let chosen = valid_prefix(bytes);
    assert(is_valid_up_to(bytes, chosen));
    if chosen < k {
        assert(!valid_utf8(bytes.take(k)));
    }
    if k < chosen {
        assert(!valid_utf8(bytes.take(chosen)));
    }
}

/// Whether `range` is where `value` stands in `chars`, or both are absent.
spec fn located(chars: Seq<char>, range: Option<(usize, usize)>, value: Option<Seq<char>>) -> bool {
    match range {
        Some((from, to)) => from <= to <= chars.len() && value == Some(
            chars.subrange(from as int, to as int),
        ),
        None => value is None,
    }
}

/// Reads the greeting out of the first frame of a server.
///
/// The frame must be on the output channel and hold UTF-8. The result is
/// the encoding and the capabilities named in it, each capability once. A
/// greeting without an encoding, without capabilities, or without the
/// capability to run commands is refused, in that order.
pub fn parse_hello(chunk: Chunk) -> (r: Result<(String, Vec<Capability>), HelloError>)
    ensures
        match hello(chunk@) {
            Ok((encoding, capabilities)) => {
                &&& r is Ok
                &&& r->Ok_0.0@ == encoding
                &&& capability_views(r->Ok_0.1@) == capabilities
            },
            Err(e) => r is Err && r->Err_0 == e,
        },
{
    let bytes = match chunk {
        Chunk::Output(bytes) => bytes,
        other => {
            return Err(HelloError::InvalidChannel(other.channel()));
        },
    };
    let text = match decode_text(bytes.as_slice()) {
        Ok(text) => text,
        Err(e) => {
            proof {
                lemma_valid_prefix(bytes@, e.valid_up_to as int);
            }
            return Err(HelloError::DecodeError(e));
        },
    };
    proof {
        encode_utf8_decode_utf8(text@);
    }
    let chars = chars_of(text);
    let encoding_key = chars_of("encoding");
    let capabilities_key = chars_of("capabilities");
    let n = chars.len();
    let ghost mut done: Seq<Seq<char>> = seq![];
    let mut encoding: Option<(usize, usize)> = None;
    let mut capabilities: Option<(usize, usize)> = None;
    let mut pos: usize = 0;
    assert(chars@.skip(0) =~= chars@);
    assert(lines(chars@) =~= done + lines(chars@.skip(pos as int)));
    while pos < n
        invariant
            pos <= n == chars@.len(),
            encoding_key@ == "encoding"@,
            capabilities_key@ == "capabilities"@,
            lines(chars@) == done + lines(chars@.skip(pos as int)),
            located(chars@, encoding, lookup(done, "encoding"@)),
            located(chars@, capabilities, lookup(done, "capabilities"@)),
        decreases n - pos,
    {
        let ghost rest = chars@.skip(pos as int);
        assert(rest =~= chars@.subrange(pos as int, n as int));
        let end = find_char(chars.as_slice(), pos, n, '\n');
        let stop = if end < n && end > pos && chars[end - 1] == '\r' {
            end - 1
        } else {
            end
        };
        let ghost line = chars@.subrange(pos as int, stop as int);
        let at = find_separator(chars.as_slice(), pos, stop);
        if at < stop {
            assert(line.take(at - pos) =~= chars@.subrange(pos as int, at as int));
            assert(line.skip(at - pos + 2) =~= chars@.subrange(at + 2, stop as int));
            if range_is(chars.as_slice(), pos, at, encoding_key.as_slice()) {
                encoding = Some((at + 2, stop));
            }
            if range_is(chars.as_slice(), pos, at, capabilities_key.as_slice()) {
                capabilities = Some((at + 2, stop));
            }
        }
        proof {
            assert(done.push(line).drop_last() =~= done);
            assert(done.push(line).last() == line);
            if end < n {
                assert(rest.take(end - pos) =~= chars@.subrange(pos as int, end as int));
                assert(strip_cr(rest.take(end - pos)) =~= line);
                assert(rest.skip(end - pos + 1) =~= chars@.skip(end + 1));
                assert(lines(chars@) =~= done.push(line) + lines(chars@.skip(end + 1)));
            } else {
                assert(rest =~= line);
                assert(lines(chars@.skip(n as int)) =~= Seq::<Seq<char>>::empty());
                assert(lines(chars@) =~= done.push(line) + lines(chars@.skip(n as int)));
            }
            done = done.push(line);
        }
        pos = if end < n {
            end + 1
        } else {
            n
        };
    }
    assert(lines(chars@.skip(n as int)) =~= Seq::<Seq<char>>::empty());
    assert(lines(chars@) =~= done);
    let encoding = match encoding {
        Some((from, to)) => String::from_str(text.substring_char(from, to)),
        None => {
            return Err(HelloError::NoEncoding);
        },
    };
    let capabilities = match capabilities {
        Some((from, to)) => parse_capabilities(text, &chars, from, to),
        None => {
            return Err(HelloError::NoCapabilities);
        },
    };
    if holds(&capabilities, &Capability::RunCommand) {
        Ok((encoding, capabilities))
    } else {
        Err(HelloError::MissingRunCommand)
    }
}

} // verus!
