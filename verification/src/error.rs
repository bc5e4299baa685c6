//! What can go wrong while talking to the command server.

use crate::channel::{Channel, InvalidChannelError};
use vstd::prelude::*;

verus! {

/// Why a read or a write on a pipe failed, as far as the protocol cares.
#[derive(Clone, Copy, Debug, PartialEq, Eq, Structural)]
pub enum IoErrorKind {
    /// The stream ended before the bytes asked for had arrived.
    UnexpectedEof,
    /// Any other failure of the pipe.
    Other,
}

/// A failed read or write, with the text that the operating system or the
/// stream gave for it.
#[derive(Debug, PartialEq, Eq)]
pub struct IoError {
    pub kind: IoErrorKind,
    pub detail: String,
}

/// A frame that could not be read, by the stage that failed.
#[derive(Debug, PartialEq, Eq)]
pub enum ReadChunkError {
    /// The tag byte did not arrive.
    ReadChannel(IoError),
    /// The length of a payload did not arrive.
    ReadLength(IoError),
    /// The payload, or the integer of a frame without a length, did not
    /// arrive.
    ReadData(IoError),
    /// The tag byte names no channel.
    InvalidChannel(InvalidChannelError),
}

/// Why the bytes of a greeting are not text: the number of leading bytes
/// that are still well-formed UTF-8.
#[derive(Clone, Copy, Debug, PartialEq, Eq, Structural)]
pub struct DecodeError {
    pub valid_up_to: usize,
}

/// A greeting that cannot open a connection.
#[derive(Debug, PartialEq, Eq)]
pub enum HelloError {
    /// The first frame could not be read.
    ReadChunk(ReadChunkError),
    /// The first frame arrived on another channel than output.
    InvalidChannel(Channel),
    /// The greeting is not UTF-8.
    DecodeError(DecodeError),
    /// The greeting names no encoding.
    NoEncoding,
    /// The greeting names no capabilities.
    NoCapabilities,
    /// The server cannot run commands.
    MissingRunCommand,
}

/// A connection that could not be made.
#[derive(Debug, PartialEq, Eq)]
pub enum ConnectionError {
    /// The server process could not be started.
    Io(IoError),
    /// The started process has no standard input to write to.
    NoStdin,
    /// The started process has no standard output to read from.
    NoStdout,
    /// The greeting was refused.
    Hello(HelloError),
}

} // verus!
