//! The response to one command: the frames up to and including the first
//! result frame or the first error.

use crate::chunk::{Chunk, ChunkView};
use crate::error::ReadChunkError;
use crate::frame::{
    decode_frame, frame_outcome, left_after_frame, read_chunk_from, reads_as, reports, FrameFault,
};
use crate::stream::ByteStream;
use vstd::prelude::*;

verus! {

/// Whether a response ends with this item: an error ends it, and so does a
/// result frame.
pub open spec fn ends_response(item: Result<ChunkView, FrameFault>) -> bool {
    match item {
        Ok(chunk) => chunk is Result,
        Err(_) => true,
    }
}

/// Whether what was read ends a response: an error or a result frame.
pub open spec fn is_last(item: Result<Chunk, ReadChunkError>) -> bool {
    match item {
        Ok(chunk) => chunk@ is Result,
        Err(_) => true,
    }
}

/// The items of the response that `bytes` start with: one for each frame,
/// up to and including the first result frame or the first that cannot be
/// read.
pub open spec fn response(bytes: Seq<u8>) -> Seq<Result<ChunkView, FrameFault>>
    decreases bytes.len(),
{
    match decode_frame(bytes) {
        Ok((chunk, used)) => if chunk is Result {
            seq![Ok(chunk)]
        } else {
            seq![Ok(chunk)] + response(bytes.skip(used as int))
        },
        Err(fault) => seq![Err(fault)],
    }
}

/// What is left of `bytes` once the response at their start was read.
pub open spec fn left_after_response(bytes: Seq<u8>) -> Seq<u8>
    decreases bytes.len(),
{
    match decode_frame(bytes) {
        Ok((chunk, used)) => if chunk is Result {
            bytes.skip(used as int)
        } else {
            left_after_response(bytes.skip(used as int))
        },
        Err(_) => left_after_frame(bytes),
    }
}

/// A response has at least one item, its last item ends it, and no item
/// before the last does: each of those is a frame other than a result.
pub proof fn lemma_response_ends_once(bytes: Seq<u8>)
    ensures
        response(bytes).len() >= 1,
        ends_response(response(bytes).last()),
        forall|i: int| 0 <= i < response(bytes).len() - 1 ==> !ends_response(response(bytes)[i]),
    decreases bytes.len(),
{
    match decode_frame(bytes) {
        Ok((chunk, used)) => {
            if !(chunk is Result) {
                let rest = bytes.skip(used as int);
                lemma_response_ends_once(rest);
                let all = response(bytes);
                assert(all == seq![Ok::<ChunkView, FrameFault>(chunk)] + response(rest));
                assert(all.last() == response(rest).last());
                assert forall|i: int| 0 <= i < all.len() - 1 implies !ends_response(all[i]) by {
                    if i > 0 {
                        assert(all[i] == response(rest)[i - 1]);
                    }
                }
            }
        },
        Err(_) => {},
    }
}

/// The response to one command, as far as it has been read.
#[derive(Debug)]
pub struct CommandIterator {
    finished: bool,
}

impl CommandIterator {
    /// Whether the response has ended.
    pub closed spec fn finished(self) -> bool {
        self.finished
    }

    /// A response of which nothing has been read.
    pub fn new() -> (it: CommandIterator)
        ensures
            !it.finished(),
    {
        CommandIterator { finished: false }
    }

    /// Whether the response has ended. Nothing is to be read for it then.
    pub fn is_finished(&self) -> (finished: bool)
        ensures
            finished == self.finished(),
    {
        self.finished
    }

    /// Takes note of what was read for this response. A result frame ends
    /// the response, and so does a frame that could not be read.
    pub fn record(&mut self, item: &Result<Chunk, ReadChunkError>)
        ensures
            final(self).finished() == (old(self).finished() || is_last(*item)),
    {
        match item {
            Ok(Chunk::Result(_)) => {
                self.finished = true;
            },
            Ok(_) => {},
            Err(_) => {
                self.finished = true;
            },
        }
    }

    /// The next item of the response, read from `stream`. Once the response
    /// has ended there is none, and the stream is left as it is.
    pub fn next(&mut self, stream: &mut ByteStream) -> (item: Option<
        Result<Chunk, ReadChunkError>,
    >)
        ensures
            old(self).finished() ==> {
                &&& item is None
                &&& final(self).finished()
                &&& final(stream).remaining() == old(stream).remaining()
            },
            !old(self).finished() ==> {
                &&& item is Some
                &&& reads_as(old(stream).remaining(), item->Some_0)
                &&& final(self).finished() == is_last(item->Some_0)
                &&& final(stream).remaining() == left_after_frame(old(stream).remaining())
            },
    {
        if self.finished {
            return None;
        }
        let item = read_chunk_from(stream);
        self.record(&item);
        Some(item)
    }

    /// The items of the response that are still to come, read from
    /// `stream`. What follows the response in the stream stays there.
    pub fn collect(&mut self, stream: &mut ByteStream) -> (items: Vec<
        Result<Chunk, ReadChunkError>,
    >)
        ensures
            final(self).finished(),
            old(self).finished() ==> {
                &&& items@.len() == 0
                &&& final(stream).remaining() == old(stream).remaining()
            },
            !old(self).finished() ==> {
                &&& items@.len() == response(old(stream).remaining()).len()
                &&& forall|i: int|
                    0 <= i < items@.len() ==> reports(
                        #[trigger] items@[i],
                        response(old(stream).remaining())[i],
                    )
                &&& final(stream).remaining() == left_after_response(old(stream).remaining())
            },
    {
        let ghost bytes = stream.remaining();
        let mut items: Vec<Result<Chunk, ReadChunkError>> = Vec::new();
        if self.finished {
            return items;
        }
        loop
            invariant_except_break
                !self.finished(),
                response(bytes) == response(bytes).take(items@.len() as int) + response(
                    stream.remaining(),
                ),
                left_after_response(bytes) == left_after_response(stream.remaining()),
            invariant
                bytes == old(stream).remaining(),
                items@.len() <= response(bytes).len(),
                forall|i: int|
                    0 <= i < items@.len() ==> reports(#[trigger] items@[i], response(bytes)[i]),
            ensures
                self.finished(),
                items@.len() == response(bytes).len(),
                stream.remaining() == left_after_response(bytes),
            decreases stream.remaining().len(),
        {
            let ghost rest = stream.remaining();
            let ghost done = items@.len() as int;
            let item = read_chunk_from(stream);
            self.record(&item);
            proof {
                assert(response(bytes)[done] == response(rest)[0]);
                assert(response(rest)[0] == frame_outcome(rest));
                if !is_last(item) {
                    let used = decode_frame(rest)->Ok_0.1;
                    assert(response(rest) == seq![frame_outcome(rest)] + response(
                        rest.skip(used as int),
                    ));
                    assert(response(bytes) =~= response(bytes).take(done + 1) + response(
                        stream.remaining(),
                    ));
                } else {
                    assert(response(rest) == seq![frame_outcome(rest)]);
                    assert(response(bytes).len() == done + 1);
                }
            }
            let last = self.finished;
            items.push(item);
            if last {
                break ;
            }
        }
        items
    }
}

} // verus!
