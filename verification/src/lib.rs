//! Client-side protocol engine for the Mercurial command server.
//!
//! The command server is a long-lived `hg serve --cmdserver pipe` process
//! that exchanges framed messages over its standard input and output. This
//! crate holds the protocol itself: the wire format of frames, the handshake,
//! the encoding of commands and the rules that end a response. It performs no
//! I/O; a caller moves the bytes and reports what it read.

pub mod capabilities;
pub mod channel;
pub mod chunk;
pub mod command;
pub mod connection;
pub mod error;
pub mod frame;
pub mod hello;
pub mod response;
pub mod stream;
pub mod text;
pub mod wire;

pub use capabilities::Capability;
pub use channel::{Channel, InvalidChannelError};
pub use chunk::Chunk;
pub use connection::{Connection, ConnectionBuilder};
pub use error::{ConnectionError, HelloError, ReadChunkError};
pub use response::CommandIterator;
