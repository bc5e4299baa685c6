//! The frame reader: one tag byte, then either a length and that many bytes
//! or one 32-bit integer, all big-endian.
//!
//! [`FrameReader`] holds the decisions of reading one frame and leaves the
//! reading to its caller, so that it serves a pipe as well as a buffer.
//! [`read_chunk_from`] runs it over a [`ByteStream`].

use crate::channel::{channel_of_tag, Channel, InvalidChannelError};
use crate::chunk::{Chunk, ChunkView};
use crate::error::{IoError, ReadChunkError};
use crate::stream::{is_eof, ByteStream};
use crate::wire::{be_bytes, be_u32, lemma_be_bytes_then_be_u32, read_u32_be};
use vstd::prelude::*;

verus! {

/// The frame on `channel` whose payload is `payload`.
pub open spec fn bytes_chunk(channel: Channel, payload: Seq<u8>) -> ChunkView
    recommends
        channel.carries_bytes(),
{
    match channel {
        Channel::Output => ChunkView::Output(payload),
        Channel::Error => ChunkView::Error(payload),
        _ => ChunkView::Debug(payload),
    }
}

/// The frame on `channel` whose integer is `value`.
pub open spec fn int_chunk(channel: Channel, value: u32) -> ChunkView
    recommends
        !channel.carries_bytes(),
{
    match channel {
        Channel::Result => ChunkView::Result(value),
        Channel::Input => ChunkView::Input(value),
        _ => ChunkView::LineInput(value),
    }
}

/// Why a byte sequence does not start with a whole frame.
pub ghost enum FrameFault {
    /// There is no tag byte.
    MissingTag,
    /// The tag byte names no channel.
    InvalidTag(u8),
    /// The four bytes of a payload's length are not all there.
    ShortLength,
    /// The payload, or the four bytes of the integer, are not all there.
    ShortData,
}

/// The frame that `bytes` starts with and the number of bytes it takes, or
/// the reason why there is none.
pub open spec fn decode_frame(bytes: Seq<u8>) -> Result<(ChunkView, nat), FrameFault> {
    if bytes.len() < 1 {
        Err(FrameFault::MissingTag)
    } else {
        match channel_of_tag(bytes[0]) {
            None => Err(FrameFault::InvalidTag(bytes[0])),
            Some(channel) => {
                let word = be_u32(bytes.subrange(1, 5));
                if channel.carries_bytes() {
                    if bytes.len() < 5 {
                        Err(FrameFault::ShortLength)
                    } else if bytes.len() < 5 + word {
                        Err(FrameFault::ShortData)
                    } else {
                        Ok((bytes_chunk(channel, bytes.subrange(5, 5 + word)), (5 + word) as nat))
                    }
                } else {
                    if bytes.len() < 5 {
                        Err(FrameFault::ShortData)
                    } else {
                        Ok((int_chunk(channel, word), 5nat))
                    }
                }
            },
        }
    }
}

/// The bytes of a frame: the tag of its channel, then the length and the
/// payload, or the integer.
pub open spec fn frame_bytes(chunk: ChunkView) -> Seq<u8> {
    match chunk {
        ChunkView::Output(payload) => seq![chunk.channel().spec_tag()] + be_bytes(
            payload.len() as u32,
        ) + payload,
        ChunkView::Error(payload) => seq![chunk.channel().spec_tag()] + be_bytes(
            payload.len() as u32,
        ) + payload,
        ChunkView::Debug(payload) => seq![chunk.channel().spec_tag()] + be_bytes(
            payload.len() as u32,
        ) + payload,
        ChunkView::Result(value) => seq![chunk.channel().spec_tag()] + be_bytes(value),
        ChunkView::Input(value) => seq![chunk.channel().spec_tag()] + be_bytes(value),
        ChunkView::LineInput(value) => seq![chunk.channel().spec_tag()] + be_bytes(value),
    }
}

/// Whether the payload of a frame is short enough for its length field.
pub open spec fn fits_frame(chunk: ChunkView) -> bool {
    match chunk {
        ChunkView::Output(payload) => payload.len() <= u32::MAX,
        ChunkView::Error(payload) => payload.len() <= u32::MAX,
        ChunkView::Debug(payload) => payload.len() <= u32::MAX,
        _ => true,
    }
}

/// The bytes of a frame decode to that frame and to no more of the bytes,
/// whatever follows them.
pub proof fn lemma_decode_frame_bytes(chunk: ChunkView, rest: Seq<u8>)
    requires
        fits_frame(chunk),
    ensures
        decode_frame(frame_bytes(chunk) + rest) == Ok::<(ChunkView, nat), FrameFault>(
            (chunk, frame_bytes(chunk).len()),
        ),
{
    let bytes = frame_bytes(chunk) + rest;
    let word = match chunk {
        ChunkView::Output(payload) => payload.len() as u32,
        ChunkView::Error(payload) => payload.len() as u32,
        ChunkView::Debug(payload) => payload.len() as u32,
        ChunkView::Result(value) => value,
        ChunkView::Input(value) => value,
        ChunkView::LineInput(value) => value,
    };
    lemma_be_bytes_then_be_u32(word);
    assert(bytes[0] == chunk.channel().spec_tag());
    assert(bytes.subrange(1, 5) =~= be_bytes(word));
    match chunk {
        ChunkView::Output(payload) => {
            assert(bytes.subrange(5, 5 + word) =~= payload);
        },
        ChunkView::Error(payload) => {
            assert(bytes.subrange(5, 5 + word) =~= payload);
        },
        ChunkView::Debug(payload) => {
            assert(bytes.subrange(5, 5 + word) =~= payload);
        },
        _ => {},
    }
}

/// How far the reading of one frame has come.
#[derive(Clone, Copy, Debug, PartialEq, Eq, Structural)]
pub enum Stage {
    /// Nothing was read yet; the tag byte is next.
    Tag,
    /// The tag named this channel; its four-byte word is next.
    Word(Channel),
    /// The length of the payload is known; the payload is next.
    Data(Channel, u32),
}

/// The state of reading one frame. It says how many bytes to read next and
/// takes what the read gave.
#[derive(Debug)]
pub struct FrameReader {
    stage: Stage,
}

/// What a [`FrameReader`] makes of the bytes it was given.
#[derive(Debug)]
pub enum Progress {
    /// The frame is not complete: read again for this reader.
    More(FrameReader),
    /// The frame is complete.
    Done(Chunk),
    /// The frame cannot be read.
    Failed(ReadChunkError),
}

impl FrameReader {
    #[verifier::type_invariant]
    spec fn well_formed(self) -> bool {
        self.stage matches Stage::Data(channel, _) ==> channel.carries_bytes()
    }

    /// The stage that this reader is at.
    pub closed spec fn stage(self) -> Stage {
        self.stage
    }

    /// The number of bytes that the next read has to deliver: one for the
    /// tag, four for the word, the announced length for the payload.
    pub open spec fn spec_wanted(self) -> nat {
        match self.stage() {
            Stage::Tag => 1,
            Stage::Word(_) => 4,
            Stage::Data(_, len) => len as nat,
        }
    }

    /// A reader at the start of a frame.
    pub fn new() -> (reader: FrameReader)
        ensures
            reader.stage() == Stage::Tag,
    {
        FrameReader { stage: Stage::Tag }
    }

    /// The number of bytes to read next, all of them or none.
    pub fn wanted(&self) -> (n: usize)
        ensures
            n == self.spec_wanted(),
    {
        match self.stage {
            Stage::Tag => 1,
            Stage::Word(_) => 4,
            Stage::Data(_, len) => len as usize,
        }
    }

    /// Takes the outcome of the read that [`FrameReader::wanted`] asked for.
    ///
    /// A failed read ends the frame with the error of the stage it failed
    /// at: the tag, the length of a payload, or the data, which the integer
    /// of a frame without payload counts as. A tag that names no channel
    /// ends it too. Otherwise the reader moves on, or the frame is complete.
    pub fn supply(self, input: Result<Vec<u8>, IoError>) -> (p: Progress)
        requires
            input is Ok ==> input->Ok_0@.len() == self.spec_wanted(),
        ensures
            match (self.stage(), input) {
                (Stage::Tag, Err(e)) => p == Progress::Failed(ReadChunkError::ReadChannel(e)),
                (Stage::Tag, Ok(bytes)) => match channel_of_tag(bytes@[0]) {
                    Some(channel) => p matches Progress::More(next) && next.stage() == Stage::Word(
                        channel,
                    ),
                    None => p == Progress::Failed(
                        ReadChunkError::InvalidChannel(
                            InvalidChannelError { channel: bytes@[0] as char },
                        ),
                    ),
                },
                (Stage::Word(channel), Err(e)) => p == Progress::Failed(
                    if channel.carries_bytes() {
                        ReadChunkError::ReadLength(e)
                    } else {
                        ReadChunkError::ReadData(e)
                    },
                ),
                (Stage::Word(channel), Ok(bytes)) => if channel.carries_bytes() {
                    p matches Progress::More(next) && next.stage() == Stage::Data(
                        channel,
                        be_u32(bytes@),
                    )
                } else {
                    p matches Progress::Done(chunk) && chunk@ == int_chunk(channel, be_u32(bytes@))
                },
                (Stage::Data(_, _), Err(e)) => p == Progress::Failed(ReadChunkError::ReadData(e)),
                (Stage::Data(channel, _), Ok(bytes)) => p matches Progress::Done(chunk) && chunk@
                    == bytes_chunk(channel, bytes@),
            },
    {
        proof {
            use_type_invariant(&self);
        }
        match self.stage {
            Stage::Tag => match input {
                Err(e) => Progress::Failed(ReadChunkError::ReadChannel(e)),
                Ok(bytes) => match Channel::try_from(bytes[0]) {
                    Ok(channel) => Progress::More(FrameReader { stage: Stage::Word(channel) }),
                    Err(e) => Progress::Failed(ReadChunkError::InvalidChannel(e)),
                },
            },
            Stage::Word(channel) => match input {
                Err(e) => match channel {
                    Channel::Output | Channel::Error | Channel::Debug => Progress::Failed(
                        ReadChunkError::ReadLength(e),
                    ),
                    _ => Progress::Failed(ReadChunkError::ReadData(e)),
                },
                Ok(bytes) => {
                    let word = read_u32_be(bytes.as_slice());
                    match channel {
                        Channel::Output | Channel::Error | Channel::Debug => Progress::More(
                            FrameReader { stage: Stage::Data(channel, word) },
                        ),
                        Channel::Result => Progress::Done(Chunk::Result(word)),
                        Channel::Input => Progress::Done(Chunk::Input(word)),
                        Channel::LineInput => Progress::Done(Chunk::LineInput(word)),
                    }
                },
            },
            Stage::Data(channel, _) => match input {
                Err(e) => Progress::Failed(ReadChunkError::ReadData(e)),
                Ok(bytes) => match channel {
                    Channel::Output => Progress::Done(Chunk::Output(bytes)),
                    Channel::Error => Progress::Done(Chunk::Error(bytes)),
                    _ => Progress::Done(Chunk::Debug(bytes)),
                },
            },
        }
    }
}

/// What reading the frame that `bytes` starts with comes to: the frame, or
/// the reason why there is none.
pub open spec fn frame_outcome(bytes: Seq<u8>) -> Result<ChunkView, FrameFault> {
    match decode_frame(bytes) {
        Ok((chunk, _)) => Ok(chunk),
        Err(fault) => Err(fault),
    }
}

/// Whether `r` reports `outcome`: the same frame, or the error of the
/// stage at which the bytes ran out, or the refusal of the tag.
pub open spec fn reports(
    r: Result<Chunk, ReadChunkError>,
    outcome: Result<ChunkView, FrameFault>,
) -> bool {
    match outcome {
        Ok(chunk) => r is Ok && r->Ok_0@ == chunk,
        Err(FrameFault::MissingTag) => r matches Err(ReadChunkError::ReadChannel(e)) && is_eof(e),
        Err(FrameFault::InvalidTag(tag)) => r == Err::<Chunk, ReadChunkError>(
            ReadChunkError::InvalidChannel(InvalidChannelError { channel: tag as char }),
        ),
        Err(FrameFault::ShortLength) => r matches Err(ReadChunkError::ReadLength(e)) && is_eof(e),
        Err(FrameFault::ShortData) => r matches Err(ReadChunkError::ReadData(e)) && is_eof(e),
    }
}

/// Whether `r` is what reading the frame that `bytes` starts with gives.
pub open spec fn reads_as(bytes: Seq<u8>, r: Result<Chunk, ReadChunkError>) -> bool {
    reports(r, frame_outcome(bytes))
}

/// What is left of `bytes` once the frame at their start was read: the
/// bytes behind the frame, the bytes behind a tag that names no channel,
/// and nothing where the bytes ran out.
pub open spec fn left_after_frame(bytes: Seq<u8>) -> Seq<u8> {
    match decode_frame(bytes) {
        Ok((_, used)) => bytes.skip(used as int),
        Err(FrameFault::InvalidTag(_)) => bytes.skip(1),
        Err(_) => Seq::empty(),
    }
}

/// Whether a reader that started on `bytes` and has come to `stage` has
/// left `rest` unread.
spec fn read_up_to(bytes: Seq<u8>, stage: Stage, rest: Seq<u8>) -> bool {
    match stage {
        Stage::Tag => rest == bytes,
        Stage::Word(channel) => {
            &&& bytes.len() >= 1
            &&& channel_of_tag(bytes[0]) == Some(channel)
            &&& rest == bytes.skip(1)
        },
        Stage::Data(channel, len) => {
            &&& bytes.len() >= 5
            &&& channel_of_tag(bytes[0]) == Some(channel)
            &&& channel.carries_bytes()
            &&& len == be_u32(bytes.subrange(1, 5))
            &&& rest == bytes.skip(5)
        },
    }
}

/// The number of reads that a frame may still take at `stage`.
spec fn reads_left(stage: Stage) -> nat {
    match stage {
        Stage::Tag => 3,
        Stage::Word(_) => 2,
        Stage::Data(_, _) => 1,
    }
}

/// Reads one frame from `stream` in exact reads: the tag, the word and,
/// where the channel carries one, the payload.
pub fn read_chunk_from(stream: &mut ByteStream) -> (r: Result<Chunk, ReadChunkError>)
    ensures
        reads_as(old(stream).remaining(), r),
        final(stream).remaining() == left_after_frame(old(stream).remaining()),
{
    let ghost bytes = stream.remaining();
    let mut reader = FrameReader::new();
    loop
        invariant
            bytes == old(stream).remaining(),
            read_up_to(bytes, reader.stage(), stream.remaining()),
        decreases reads_left(reader.stage()),
    {
        let ghost rest = stream.remaining();
        let input = stream.read_exact(reader.wanted());
        proof {
            match reader.stage() {
                Stage::Tag => {
                    assert(bytes.len() >= 1 ==> bytes.take(1)[0] == bytes[0]);
                },
                Stage::Word(_) => {
                    assert(bytes.len() >= 5 ==> rest.take(4) == bytes.subrange(1, 5));
                    assert(bytes.len() >= 5 ==> rest.skip(4) == bytes.skip(5));
                },
                Stage::Data(_, len) => {
                    assert(bytes.len() >= 5 + len ==> rest.take(len as int) == bytes.subrange(
                        5,
                        5 + len,
                    ));
                    assert(bytes.len() >= 5 + len ==> rest.skip(len as int) == bytes.skip(5 + len));
                },
            }
        }
        match reader.supply(input) {
            Progress::More(next) => {
                reader = next;
            },
            Progress::Done(chunk) => {
                return Ok(chunk);
            },
            Progress::Failed(e) => {
                return Err(e);
            },
        }
    }
}

} // verus!
