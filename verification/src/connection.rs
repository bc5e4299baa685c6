//! A connection to a command server: what the greeting negotiated, and how
//! to start the server in the first place.

use crate::capabilities::{capability_views, Capability, CapabilityView};
use crate::chunk::Chunk;
use crate::command::{argument_bytes, command_frame, encode_command, sendable};
use crate::error::{ConnectionError, HelloError, ReadChunkError};
use crate::frame::{left_after_frame, read_chunk_from, reads_as};
use crate::hello::{hello, lemma_capability_set, lines, lookup, parse_hello, split_spaces};
use crate::response::CommandIterator;
use crate::stream::ByteStream;
use vstd::prelude::*;
use vstd::string::StringExecFns;
use vstd::utf8::decode_utf8;

verus! {

/// How to start a command server: the program, its arguments, what to add
/// to its environment, and the directory to start it in, if not the
/// caller's own. Its standard input and output are to be pipes.
#[derive(Debug, PartialEq, Eq)]
pub struct Launch {
    pub program: String,
    pub args: Vec<String>,
    pub envs: Vec<(String, String)>,
    pub current_dir: Option<String>,
}

/// The choices that a caller has before it connects.
#[derive(Clone, Debug)]
pub struct ConnectionBuilder {
    hg: Option<String>,
    pwd: Option<String>,
}

/// The text of an optional string.
pub open spec fn text_of(s: Option<String>) -> Option<Seq<char>> {
    match s {
        Some(s) => Some(s@),
        None => None,
    }
}

/// The arguments that put the program into command server mode on its
/// standard input and output.
pub open spec fn server_args() -> Seq<Seq<char>> {
    seq!["serve"@, "--cmdserver"@, "pipe"@]
}

/// The additions to the environment: plain output, UTF-8, and no lossy
/// conversion.
pub open spec fn server_envs() -> Seq<(Seq<char>, Seq<char>)> {
    seq![("HGPLAIN"@, "True"@), ("HGENCODING"@, "UTF-8"@), ("HGENCODINGMODE"@, "strict"@)]
}

impl Launch {
    /// The program to start.
    pub open spec fn spec_program(self) -> Seq<char> {
        self.program@
    }

    /// The arguments to start it with.
    pub open spec fn spec_args(self) -> Seq<Seq<char>> {
        self.args@.map_values(|s: String| s@)
    }

    /// The variables to add to its environment, each with its value.
    pub open spec fn spec_envs(self) -> Seq<(Seq<char>, Seq<char>)> {
        self.envs@.map_values(|kv: (String, String)| (kv.0@, kv.1@))
    }

    /// The directory to start it in, if not the caller's own.
    pub open spec fn spec_current_dir(self) -> Option<Seq<char>> {
        text_of(self.current_dir)
    }
}

impl Default for ConnectionBuilder {
    fn default() -> (builder: ConnectionBuilder)
        ensures
            builder.hg() is None,
            builder.pwd() is None,
    {
        ConnectionBuilder::new()
    }
}

/// Tells whether a started server can be talked to. It needs a pipe to its
/// standard input and one from its standard output; the one to its input
/// is missed first.
pub fn require_pipes(has_stdin: bool, has_stdout: bool) -> (r: Result<(), ConnectionError>)
    ensures
        r == if !has_stdin {
            Err::<(), ConnectionError>(ConnectionError::NoStdin)
        } else if !has_stdout {
            Err(ConnectionError::NoStdout)
        } else {
            Ok(())
        },
{
    if !has_stdin {
        Err(ConnectionError::NoStdin)
    } else if !has_stdout {
        Err(ConnectionError::NoStdout)
    } else {
        Ok(())
    }
}

impl ConnectionBuilder {
    /// The program to start, where one was chosen.
    pub closed spec fn hg(self) -> Option<Seq<char>> {
        text_of(self.hg)
    }

    /// The directory to start it in, where one was chosen.
    pub closed spec fn pwd(self) -> Option<Seq<char>> {
        text_of(self.pwd)
    }

    /// A builder with nothing chosen: the program is `hg`, found on the
    /// search path, and the directory is the caller's own.
    pub fn new() -> (builder: ConnectionBuilder)
        ensures
            builder.hg() is None,
            builder.pwd() is None,
    {
        ConnectionBuilder { hg: None, pwd: None }
    }

    /// Chooses the program to start.
    pub fn with_hg(&mut self, path: &str) -> (builder: &mut ConnectionBuilder)
        ensures
            builder.hg() == Some(path@),
            builder.pwd() == old(self).pwd(),
            *final(self) == *final(builder),
    {
        self.hg = Some(String::from_str(path));
        self
    }

    /// Chooses the directory to start the program in.
    pub fn with_pwd(&mut self, path: &str) -> (builder: &mut ConnectionBuilder)
        ensures
            builder.pwd() == Some(path@),
            builder.hg() == old(self).hg(),
            *final(self) == *final(builder),
    {
        self.pwd = Some(String::from_str(path));
        self
    }

    /// How to start the server for this builder.
    pub fn launch(&self) -> (launch: Launch)
        ensures
            launch.spec_program() == match self.hg() {
                Some(path) => path,
                None => "hg"@,
            },
            launch.spec_args() == server_args(),
            launch.spec_envs() == server_envs(),
            launch.spec_current_dir() == self.pwd(),
    {
        let program = match &self.hg {
            Some(path) => path.clone(),
            None => String::from_str("hg"),
        };
        let mut args: Vec<String> = Vec::new();
        args.push(String::from_str("serve"));
        args.push(String::from_str("--cmdserver"));
        args.push(String::from_str("pipe"));
        let mut envs: Vec<(String, String)> = Vec::new();
        envs.push((String::from_str("HGPLAIN"), String::from_str("True")));
        envs.push((String::from_str("HGENCODING"), String::from_str("UTF-8")));
        envs.push((String::from_str("HGENCODINGMODE"), String::from_str("strict")));
        let current_dir = match &self.pwd {
            Some(path) => Some(path.clone()),
            None => None,
        };
        let launch = Launch { program, args, envs, current_dir };
        assert(launch.spec_args() =~= server_args());
        assert(launch.spec_envs() =~= server_envs());
        launch
    }

    /// Opens the connection on the first frame that the started server
    /// sent, or on the failure to read it.
    pub fn connect(&self, first: Result<Chunk, ReadChunkError>) -> (r: Result<
        Connection,
        ConnectionError,
    >)
        ensures
            opens(first, r),
    {
        Connection::new(first)
    }
}

/// A connection whose greeting was accepted. Its server can run commands.
#[derive(Debug)]
pub struct Connection {
    encoding: String,
    capabilities: Vec<Capability>,
}

/// Whether `r` is what opening a connection on `first` comes to: the
/// connection that the greeting negotiates, or the reason why the frame
/// could not be read or was refused as a greeting.
pub open spec fn opens(
    first: Result<Chunk, ReadChunkError>,
    r: Result<Connection, ConnectionError>,
) -> bool {
    match first {
        Err(e) => r is Err && r->Err_0 == ConnectionError::Hello(HelloError::ReadChunk(e)),
        Ok(chunk) => match hello(chunk@) {
            Ok((encoding, capabilities)) => {
                &&& r is Ok
                &&& r->Ok_0.spec_encoding() == encoding
                &&& r->Ok_0.spec_capabilities() == capabilities
            },
            Err(e) => r is Err && r->Err_0 == ConnectionError::Hello(e),
        },
    }
}

impl Connection {
    #[verifier::type_invariant]
    spec fn well_formed(self) -> bool {
        &&& capability_views(self.capabilities@).contains(CapabilityView::RunCommand)
        &&& capability_views(self.capabilities@).no_duplicates()
    }

    /// The encoding that the greeting named.
    pub closed spec fn spec_encoding(self) -> Seq<char> {
        self.encoding@
    }

    /// The capabilities that the greeting named, each once, in the order
    /// in which they first occurred.
    pub closed spec fn spec_capabilities(self) -> Seq<CapabilityView> {
        capability_views(self.capabilities@)
    }

    /// Opens the connection on the first frame that a server sent, or on
    /// the failure to read it. The frame must be a greeting that names an
    /// encoding and, among its capabilities, the one to run commands.
    pub fn new(first: Result<Chunk, ReadChunkError>) -> (r: Result<Connection, ConnectionError>)
        ensures
            opens(first, r),
    {
        let chunk = match first {
            Ok(chunk) => chunk,
            Err(e) => {
                return Err(ConnectionError::Hello(HelloError::ReadChunk(e)));
            },
        };
        match parse_hello(chunk) {
            Ok((encoding, capabilities)) => {
                proof {
                    let text = decode_utf8(chunk@->Output_0);
                    let value = lookup(lines(text), "capabilities"@)->Some_0;
                    lemma_capability_set(split_spaces(value), CapabilityView::RunCommand);
                }
                Ok(Connection { encoding, capabilities })
            },
            Err(e) => Err(ConnectionError::Hello(e)),
        }
    }

    /// The capabilities of the server, each once. The one to run commands
    /// is among them.
    pub fn capabilities(&self) -> (capabilities: &Vec<Capability>)
        ensures
            capability_views(capabilities@) == self.spec_capabilities(),
            self.spec_capabilities().contains(CapabilityView::RunCommand),
            self.spec_capabilities().no_duplicates(),
    {
        proof {
            use_type_invariant(self);
        }
        &self.capabilities
    }

    /// The encoding of the server.
    pub fn encoding(&self) -> (encoding: &str)
        ensures
            encoding@ == self.spec_encoding(),
    {
        self.encoding.as_str()
    }

    /// Reads one frame of this connection from `stream`.
    pub fn read_chunk(&mut self, stream: &mut ByteStream) -> (r: Result<Chunk, ReadChunkError>)
        ensures
            reads_as(old(stream).remaining(), r),
            final(stream).remaining() == left_after_frame(old(stream).remaining()),
            *final(self) == *old(self),
    {
        read_chunk_from(stream)
    }

    /// Starts a command: returns the frame to write to the server and the
    /// response to read afterwards, of which nothing has been read yet.
    pub fn run_command(&mut self, command: &[&str]) -> (r: (Vec<u8>, CommandIterator))
        requires
            sendable(argument_bytes(command@)),
        ensures
            r.0@ == command_frame(argument_bytes(command@)),
            !r.1.finished(),
            *final(self) == *old(self),
    {
        (encode_command(command), CommandIterator::new())
    }
}

} // verus!
