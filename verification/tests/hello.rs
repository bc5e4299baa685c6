use hg_cmdserver::capabilities::Capability;
use hg_cmdserver::channel::Channel;
use hg_cmdserver::chunk::Chunk;
use hg_cmdserver::error::{DecodeError, HelloError};
use hg_cmdserver::hello::parse_hello;

fn greeting(text: &str) -> Chunk {
    Chunk::Output(text.as_bytes().to_vec())
}

fn unknown(name: &str) -> Capability {
    Capability::Unknown(String::from(name))
}

#[test]
fn greeting_names_encoding_and_capabilities() {
    let hello = greeting("capabilities: runcommand getencoding\nencoding: UTF-8\n");
    assert_eq!(
        parse_hello(hello),
        Ok((String::from("UTF-8"), vec![Capability::RunCommand, Capability::GetEncoding]))
    );
}

#[test]
fn greeting_without_encoding_is_refused() {
    assert_eq!(
        parse_hello(greeting("capabilities: runcommand getencoding\n")),
        Err(HelloError::NoEncoding)
    );
}

#[test]
fn greeting_without_capabilities_is_refused() {
    assert_eq!(parse_hello(greeting("encoding: UTF-8\n")), Err(HelloError::NoCapabilities));
}

#[test]
fn empty_greeting_lacks_the_encoding_first() {
    assert_eq!(parse_hello(greeting("")), Err(HelloError::NoEncoding));
    assert_eq!(parse_hello(greeting("\n\n")), Err(HelloError::NoEncoding));
}

#[test]
fn greeting_without_runcommand_is_refused() {
    assert_eq!(
        parse_hello(greeting("capabilities: getencoding\nencoding: UTF-8\n")),
        Err(HelloError::MissingRunCommand)
    );
    assert_eq!(
        parse_hello(greeting("capabilities: \nencoding: UTF-8\n")),
        Err(HelloError::MissingRunCommand)
    );
    assert_eq!(
        parse_hello(greeting("capabilities: RunCommand runcommands\nencoding: UTF-8\n")),
        Err(HelloError::MissingRunCommand)
    );
}

#[test]
fn unknown_token_keeps_its_text() {
    assert_eq!(Capability::from("frobnicate"), unknown("frobnicate"));
    assert_eq!(Capability::from("runcommand"), Capability::RunCommand);
    assert_eq!(Capability::from("getencoding"), Capability::GetEncoding);
    assert_eq!(Capability::from(""), unknown(""));
    assert_eq!(Capability::from("RUNCOMMAND"), unknown("RUNCOMMAND"));
    assert_eq!(Capability::from("runcommand "), unknown("runcommand "));
    assert_eq!(Capability::from("h\u{e9}llo"), unknown("h\u{e9}llo"));
}

#[test]
fn capabilities_are_told_apart() {
    assert!(Capability::RunCommand.same(&Capability::RunCommand));
    assert!(!Capability::RunCommand.same(&Capability::GetEncoding));
    assert!(unknown("a").same(&unknown("a")));
    assert!(!unknown("a").same(&unknown("b")));
    assert!(!unknown("runcommand").same(&Capability::RunCommand));
}

#[test]
fn unknown_capabilities_are_kept_in_order() {
    let hello = greeting("capabilities: frobnicate runcommand unbundle\nencoding: ascii\n");
    assert_eq!(
        parse_hello(hello),
        Ok((
            String::from("ascii"),
            vec![unknown("frobnicate"), Capability::RunCommand, unknown("unbundle")]
        ))
    );
}

#[test]
fn repeated_capability_counts_once() {
    let hello = greeting("encoding: UTF-8\ncapabilities: runcommand x runcommand x y");
    assert_eq!(
        parse_hello(hello),
        Ok((String::from("UTF-8"), vec![Capability::RunCommand, unknown("x"), unknown("y")]))
    );
}

#[test]
fn doubled_space_names_the_empty_capability() {
    let hello = greeting("encoding: UTF-8\ncapabilities: runcommand  getencoding ");
    assert_eq!(
        parse_hello(hello),
        Ok((
            String::from("UTF-8"),
            vec![Capability::RunCommand, unknown(""), Capability::GetEncoding]
        ))
    );
}

#[test]
fn unknown_keys_and_plain_lines_are_passed_over() {
    let hello = greeting(
        "welcome\ncapabilities: getencoding runcommand\nencoding: UTF-8\npgid: 4711\npid: 4712",
    );
    assert_eq!(
        parse_hello(hello),
        Ok((String::from("UTF-8"), vec![Capability::GetEncoding, Capability::RunCommand]))
    );
}

#[test]
fn last_line_of_a_key_counts() {
    let hello = greeting(
        "encoding: latin-1\ncapabilities: getencoding\nencoding: UTF-8\ncapabilities: runcommand\n",
    );
    assert_eq!(parse_hello(hello), Ok((String::from("UTF-8"), vec![Capability::RunCommand])));
}

#[test]
fn key_ends_at_the_first_separator() {
    let hello = greeting("encoding: a: b\ncapabilities: runcommand\n");
    assert_eq!(parse_hello(hello), Ok((String::from("a: b"), vec![Capability::RunCommand])));
    assert_eq!(
        parse_hello(greeting("x: encoding: UTF-8\ncapabilities: runcommand\n")),
        Err(HelloError::NoEncoding)
    );
}

#[test]
fn colon_without_space_is_no_separator() {
    assert_eq!(
        parse_hello(greeting("encoding:UTF-8\ncapabilities: runcommand\n")),
        Err(HelloError::NoEncoding)
    );
    assert_eq!(
        parse_hello(greeting("encoding: UTF-8\ncapabilities:")),
        Err(HelloError::NoCapabilities)
    );
}

#[test]
fn key_must_match_exactly() {
    assert_eq!(
        parse_hello(greeting(" encoding: UTF-8\ncapabilities: runcommand\n")),
        Err(HelloError::NoEncoding)
    );
    assert_eq!(
        parse_hello(greeting("encoding: UTF-8\nCapabilities: runcommand\n")),
        Err(HelloError::NoCapabilities)
    );
}

#[test]
fn carriage_return_before_line_feed_belongs_to_the_line_ending() {
    let hello = greeting("capabilities: runcommand\r\nencoding: UTF-8\r\n");
    assert_eq!(parse_hello(hello), Ok((String::from("UTF-8"), vec![Capability::RunCommand])));
}

#[test]
fn carriage_return_at_the_very_end_stays() {
    let hello = greeting("capabilities: runcommand\nencoding: UTF-8\r");
    assert_eq!(parse_hello(hello), Ok((String::from("UTF-8\r"), vec![Capability::RunCommand])));
}

#[test]
fn empty_encoding_is_an_encoding() {
    let hello = greeting("encoding: \ncapabilities: runcommand\n");
    assert_eq!(parse_hello(hello), Ok((String::new(), vec![Capability::RunCommand])));
}

#[test]
fn text_beyond_ascii_is_kept() {
    let hello = greeting("encoding: caf\u{e9} \u{4e2d}\u{6587}\ncapabilities: runcommand \u{1f980}\n");
    assert_eq!(
        parse_hello(hello),
        Ok((
            String::from("caf\u{e9} \u{4e2d}\u{6587}"),
            vec![Capability::RunCommand, unknown("\u{1f980}")]
        ))
    );
}

#[test]
fn greeting_on_another_channel_is_refused() {
    let text = b"capabilities: runcommand\nencoding: UTF-8\n".to_vec();
    assert_eq!(
        parse_hello(Chunk::Error(text.clone())),
        Err(HelloError::InvalidChannel(Channel::Error))
    );
    assert_eq!(parse_hello(Chunk::Debug(text)), Err(HelloError::InvalidChannel(Channel::Debug)));
    assert_eq!(parse_hello(Chunk::Result(0)), Err(HelloError::InvalidChannel(Channel::Result)));
    assert_eq!(parse_hello(Chunk::Input(1)), Err(HelloError::InvalidChannel(Channel::Input)));
    assert_eq!(
        parse_hello(Chunk::LineInput(1)),
        Err(HelloError::InvalidChannel(Channel::LineInput))
    );
}

#[test]
fn greeting_that_is_not_utf8_is_refused() {
    let mut bytes = b"encoding: ".to_vec();
    bytes.push(0xff);
    bytes.extend_from_slice(b"\ncapabilities: runcommand\n");
    assert_eq!(
        parse_hello(Chunk::Output(bytes)),
        Err(HelloError::DecodeError(DecodeError { valid_up_to: 10 }))
    );
    assert_eq!(
        parse_hello(Chunk::Output(vec![0xc3])),
        Err(HelloError::DecodeError(DecodeError { valid_up_to: 0 }))
    );
    assert_eq!(
        parse_hello(Chunk::Output(vec![b'a', 0xed, 0xa0, 0x80])),
        Err(HelloError::DecodeError(DecodeError { valid_up_to: 1 }))
    );
}
