//! A byte stream held in memory, read in exact lengths as a pipe is.

use crate::error::{IoError, IoErrorKind};
use vstd::prelude::*;
use vstd::string::StringExecFns;

verus! {

/// Bytes that a server has sent, with the place up to which they were read.
#[derive(Debug)]
pub struct ByteStream {
    bytes: Vec<u8>,
    pos: usize,
}

/// The text of the failure when a stream ends too early.
pub open spec fn eof_detail() -> Seq<char> {
    "failed to fill whole buffer"@
}

/// Whether `e` reports that a stream ended too early.
pub open spec fn is_eof(e: IoError) -> bool {
    e.kind == IoErrorKind::UnexpectedEof && e.detail@ == eof_detail()
}

impl ByteStream {
    #[verifier::type_invariant]
    spec fn well_formed(self) -> bool {
        self.pos <= self.bytes@.len()
    }

    /// The bytes that have not been read yet.
    pub closed spec fn remaining(self) -> Seq<u8> {
        self.bytes@.skip(self.pos as int)
    }

    /// A stream that will deliver `bytes`, first to last.
    pub fn new(bytes: Vec<u8>) -> (stream: ByteStream)
        ensures
            stream.remaining() == bytes@,
    {
        ByteStream { bytes, pos: 0 }
    }

    /// The number of bytes that have not been read yet.
    pub fn remaining_len(&self) -> (n: usize)
        ensures
            n == self.remaining().len(),
    {
        proof {
            use_type_invariant(self);
        }
        self.bytes.len() - self.pos
    }

    /// Reads exactly `n` bytes. Where fewer are left, the read fails, and
    /// what was left is gone.
    pub fn read_exact(&mut self, n: usize) -> (r: Result<Vec<u8>, IoError>)
        ensures
            n <= old(self).remaining().len() ==> {
                &&& r is Ok
                &&& r->Ok_0@ == old(self).remaining().take(n as int)
                &&& final(self).remaining() == old(self).remaining().skip(n as int)
            },
            n > old(self).remaining().len() ==> {
                &&& r is Err
                &&& is_eof(r->Err_0)
                &&& final(self).remaining() == Seq::<u8>::empty()
            },
    {
        proof {
            use_type_invariant(&*self);
        }
        let len = self.bytes.len();
        let start = self.pos;
        if n > len - start {
            self.pos = len;
            return Err(
                IoError {
                    kind: IoErrorKind::UnexpectedEof,
                    detail: String::from_str("failed to fill whole buffer"),
                },
            );
        }
        let mut out: Vec<u8> = Vec::with_capacity(n);
        let mut i: usize = 0;
        while i < n
            invariant
                i <= n,
                start + n <= len,
                len == self.bytes@.len(),
                self.pos == start,
                self.bytes@ == old(self).bytes@,
                out@ == self.bytes@.subrange(start as int, start + i),
            decreases n - i,
        {
            out.push(self.bytes[start + i]);
            i += 1;
        }
        self.pos = start + n;
        assert(out@ == old(self).remaining().take(n as int));
        assert(self.remaining() == old(self).remaining().skip(n as int));
        Ok(out)
    }
}

} // verus!
