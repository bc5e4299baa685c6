//! One frame of the wire protocol, as a value.

use crate::channel::Channel;
use vstd::prelude::*;

verus! {

/// A frame read from the server. `Output`, `Error` and `Debug` carry raw
/// bytes, which need not be text. `Result` carries the exit status of the
/// command; `Input` and `LineInput` carry the number of bytes that the
/// server asks for from standard input.
#[derive(Clone, Debug, PartialEq, Eq)]
pub enum Chunk {
    Output(Vec<u8>),
    Error(Vec<u8>),
    Debug(Vec<u8>),
    Result(u32),
    Input(u32),
    LineInput(u32),
}

/// What a [`Chunk`] holds, as a mathematical value.
pub ghost enum ChunkView {
    Output(Seq<u8>),
    Error(Seq<u8>),
    Debug(Seq<u8>),
    Result(u32),
    Input(u32),
    LineInput(u32),
}

impl ChunkView {
    /// The channel that the frame arrived on.
    pub open spec fn channel(self) -> Channel {
        match self {
            ChunkView::Output(_) => Channel::Output,
            ChunkView::Error(_) => Channel::Error,
            ChunkView::Debug(_) => Channel::Debug,
            ChunkView::Result(_) => Channel::Result,
            ChunkView::Input(_) => Channel::Input,
            ChunkView::LineInput(_) => Channel::LineInput,
        }
    }
}

impl View for Chunk {
    type V = ChunkView;

    open spec fn view(&self) -> ChunkView {
        match self {
            Chunk::Output(bytes) => ChunkView::Output(bytes@),
            Chunk::Error(bytes) => ChunkView::Error(bytes@),
            Chunk::Debug(bytes) => ChunkView::Debug(bytes@),
            Chunk::Result(code) => ChunkView::Result(*code),
            Chunk::Input(count) => ChunkView::Input(*count),
            Chunk::LineInput(count) => ChunkView::LineInput(*count),
        }
    }
}

impl Chunk {
    /// The channel that this frame arrived on.
    pub fn channel(&self) -> (c: Channel)
        ensures
            c == self@.channel(),
    {
        match self {
            Chunk::Output(..) => Channel::Output,
            Chunk::Error(..) => Channel::Error,
            Chunk::Debug(..) => Channel::Debug,
            Chunk::Result(..) => Channel::Result,
            Chunk::Input(..) => Channel::Input,
            Chunk::LineInput(..) => Channel::LineInput,
        }
    }
}

} // verus!
