use hg_cmdserver::capabilities::Capability;
use hg_cmdserver::channel::Channel;
use hg_cmdserver::chunk::Chunk;
use hg_cmdserver::connection::{require_pipes, Connection, ConnectionBuilder, Launch};
use hg_cmdserver::error::{ConnectionError, HelloError, IoError, IoErrorKind, ReadChunkError};
use hg_cmdserver::frame::read_chunk_from;
use hg_cmdserver::stream::ByteStream;

const GREETING: &str = "capabilities: getencoding runcommand\nencoding: UTF-8\npid: 4711";

fn frame(tag: u8, payload: &[u8]) -> Vec<u8> {
    let mut bytes = vec![tag];
    bytes.extend_from_slice(&(payload.len() as u32).to_be_bytes());
    bytes.extend_from_slice(payload);
    bytes
}

fn result(code: u32) -> Vec<u8> {
    let mut bytes = vec![b'r'];
    bytes.extend_from_slice(&code.to_be_bytes());
    bytes
}

fn connect(server: &mut ByteStream) -> Result<Connection, ConnectionError> {
    Connection::new(read_chunk_from(server))
}

#[test]
fn connection_hello() {
    let mut server = ByteStream::new(frame(b'o', GREETING.as_bytes()));
    let conn = connect(&mut server).unwrap();
    assert_eq!(conn.encoding(), "UTF-8");
    assert!(conn.capabilities().contains(&Capability::RunCommand));
}

#[test]
fn lib_hello() {
    let mut server = ByteStream::new(frame(
        b'o',
        b"capabilities: runcommand getencoding\nencoding: UTF-8\n",
    ));
    let conn = connect(&mut server).unwrap();
    assert_eq!(conn.encoding(), "UTF-8");
    assert!(conn.capabilities().contains(&Capability::RunCommand));
    assert_eq!(conn.capabilities(), &vec![Capability::RunCommand, Capability::GetEncoding]);
}

#[test]
fn runcommand_init() {
    let mut bytes = frame(b'o', GREETING.as_bytes());
    bytes.extend(result(0));
    let mut server = ByteStream::new(bytes);
    let mut conn = connect(&mut server).unwrap();

    let (request, mut response) = conn.run_command(&["init"]);
    assert_eq!(request, b"runcommand\n\0\0\0\x04init".to_vec());
    let chunk = response.collect(&mut server).into_iter().collect::<Result<Vec<_>, _>>().unwrap();

    assert_eq!(chunk, vec![Chunk::Result(0)]);
}

#[test]
fn connection_runcommand_status() {
    let path = "/";
    let err_msg = format!("abort: no repository found in '{}' (.hg not found)!\n", path)
        .bytes()
        .collect::<Vec<_>>();
    let mut bytes = frame(b'o', GREETING.as_bytes());
    bytes.extend(frame(b'e', &err_msg));
    bytes.extend(result(255));
    let mut server = ByteStream::new(bytes);

    let mut conn = ConnectionBuilder::new()
        .with_pwd(path)
        .connect(read_chunk_from(&mut server))
        .unwrap();

    let (request, mut response) = conn.run_command(&["status"]);
    assert_eq!(request, b"runcommand\n\0\0\0\x06status".to_vec());
    let chunks = response.collect(&mut server).into_iter().collect::<Result<Vec<_>, _>>().unwrap();

    assert_eq!(chunks, &[Chunk::Error(err_msg), Chunk::Result(255)]);
}

#[test]
fn lib_runcommand_status() {
    let mut bytes = frame(b'o', GREETING.as_bytes());
    bytes.extend(result(4));
    let mut server = ByteStream::new(bytes);
    let mut conn = connect(&mut server).unwrap();

    let (_request, _response) = conn.run_command(&["init"]);
    let chunk = conn.read_chunk(&mut server).unwrap();

    assert_eq!(chunk, Chunk::Result(4));
}

#[test]
fn connection_needs_the_capability_to_run_commands() {
    let mut server = ByteStream::new(frame(b'o', b"capabilities: getencoding\nencoding: UTF-8"));
    assert_eq!(
        connect(&mut server).err(),
        Some(ConnectionError::Hello(HelloError::MissingRunCommand))
    );
}

#[test]
fn connection_needs_both_fields() {
    let mut server = ByteStream::new(frame(b'o', b"capabilities: runcommand"));
    assert_eq!(connect(&mut server).err(), Some(ConnectionError::Hello(HelloError::NoEncoding)));
    let mut server = ByteStream::new(frame(b'o', b"encoding: UTF-8"));
    assert_eq!(
        connect(&mut server).err(),
        Some(ConnectionError::Hello(HelloError::NoCapabilities))
    );
}

#[test]
fn connection_needs_a_greeting_on_the_output_channel() {
    let mut server = ByteStream::new(frame(b'e', GREETING.as_bytes()));
    assert_eq!(
        connect(&mut server).err(),
        Some(ConnectionError::Hello(HelloError::InvalidChannel(Channel::Error)))
    );
    let mut server = ByteStream::new(result(0));
    assert_eq!(
        connect(&mut server).err(),
        Some(ConnectionError::Hello(HelloError::InvalidChannel(Channel::Result)))
    );
}

#[test]
fn connection_reports_the_failed_read_of_the_greeting() {
    let mut server = ByteStream::new(vec![]);
    let eof = IoError {
        kind: IoErrorKind::UnexpectedEof,
        detail: String::from("failed to fill whole buffer"),
    };
    assert_eq!(
        connect(&mut server).err(),
        Some(ConnectionError::Hello(HelloError::ReadChunk(ReadChunkError::ReadChannel(eof))))
    );
    let broken = || IoError { kind: IoErrorKind::Other, detail: String::from("broken pipe") };
    assert_eq!(
        Connection::new(Err(ReadChunkError::ReadData(broken()))).err(),
        Some(ConnectionError::Hello(HelloError::ReadChunk(ReadChunkError::ReadData(broken()))))
    );
}

#[test]
fn builder_starts_hg_as_a_command_server() {
    let launch = ConnectionBuilder::new().launch();
    assert_eq!(
        launch,
        Launch {
            program: String::from("hg"),
            args: vec![String::from("serve"), String::from("--cmdserver"), String::from("pipe")],
            envs: vec![
                (String::from("HGPLAIN"), String::from("True")),
                (String::from("HGENCODING"), String::from("UTF-8")),
                (String::from("HGENCODINGMODE"), String::from("strict")),
            ],
            current_dir: None,
        }
    );
}

#[test]
fn builder_takes_program_and_directory() {
    let mut builder = ConnectionBuilder::new();
    builder.with_hg("/opt/hg/bin/hg").with_pwd("/srv/repo");
    let launch = builder.launch();
    assert_eq!(launch.program, "/opt/hg/bin/hg");
    assert_eq!(launch.current_dir, Some(String::from("/srv/repo")));
    assert_eq!(launch.args, ConnectionBuilder::new().launch().args);
    assert_eq!(launch.envs, ConnectionBuilder::new().launch().envs);
    builder.with_hg("hg2");
    assert_eq!(builder.launch().program, "hg2");
    assert_eq!(builder.launch().current_dir, Some(String::from("/srv/repo")));
}

#[test]
fn second_command_follows_the_first_response() {
    let mut bytes = frame(b'o', GREETING.as_bytes());
    bytes.extend(frame(b'o', b"one"));
    bytes.extend(result(0));
    bytes.extend(frame(b'o', b"two"));
    bytes.extend(result(1));
    let mut server = ByteStream::new(bytes);
    let mut conn = connect(&mut server).unwrap();
    let (_, mut first) = conn.run_command(&["log"]);
    assert_eq!(
        first.collect(&mut server),
        vec![Ok(Chunk::Output(b"one".to_vec())), Ok(Chunk::Result(0))]
    );
    let (_, mut second) = conn.run_command(&["log", "-l", "1"]);
    assert_eq!(
        second.collect(&mut server),
        vec![Ok(Chunk::Output(b"two".to_vec())), Ok(Chunk::Result(1))]
    );
    assert_eq!(server.remaining_len(), 0);
}

#[test]
fn missing_pipe_is_an_error_and_stdin_is_missed_first() {
    assert_eq!(require_pipes(true, true), Ok(()));
    assert_eq!(require_pipes(false, true), Err(ConnectionError::NoStdin));
    assert_eq!(require_pipes(true, false), Err(ConnectionError::NoStdout));
    assert_eq!(require_pipes(false, false), Err(ConnectionError::NoStdin));
}

#[test]
fn default_builder_has_nothing_chosen() {
    assert_eq!(ConnectionBuilder::default().launch(), ConnectionBuilder::new().launch());
    let mut builder = ConnectionBuilder::new();
    builder.with_pwd("/tmp");
    let copy = builder.clone();
    assert_eq!(copy.launch(), builder.launch());
}
