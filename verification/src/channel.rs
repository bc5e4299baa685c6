//! The channels that multiplex one byte stream into frames of several kinds.

use vstd::prelude::*;

verus! {

/// The kind of a frame, sent as its first byte.
#[derive(Clone, Copy, Debug, PartialEq, Eq, Hash, Structural)]
pub enum Channel {
    Output,
    Error,
    Debug,
    Result,
    Input,
    LineInput,
}

/// A first byte that names no channel, kept as the character it stands for.
#[derive(Clone, Copy, Debug, PartialEq, Eq, Structural)]
pub struct InvalidChannelError {
    pub channel: char,
}

/// The tag byte `o` of the output channel.
pub const TAG_OUTPUT: u8 = 0x6f;

/// The tag byte `e` of the error channel.
pub const TAG_ERROR: u8 = 0x65;

/// The tag byte `d` of the debug channel.
pub const TAG_DEBUG: u8 = 0x64;

/// The tag byte `r` of the result channel.
pub const TAG_RESULT: u8 = 0x72;

/// The tag byte `I` of the input channel.
pub const TAG_INPUT: u8 = 0x49;

/// The tag byte `L` of the line input channel.
pub const TAG_LINE_INPUT: u8 = 0x4c;

/// The channel that a tag byte names, if it names one.
pub open spec fn channel_of_tag(tag: u8) -> Option<Channel> {
    if tag == TAG_OUTPUT {
        Some(Channel::Output)
    } else if tag == TAG_ERROR {
        Some(Channel::Error)
    } else if tag == TAG_DEBUG {
        Some(Channel::Debug)
    } else if tag == TAG_RESULT {
        Some(Channel::Result)
    } else if tag == TAG_INPUT {
        Some(Channel::Input)
    } else if tag == TAG_LINE_INPUT {
        Some(Channel::LineInput)
    } else {
        None
    }
}

impl Channel {
    /// The byte that announces a frame on this channel: `o`, `e`, `d`, `r`,
    /// `I` or `L`.
    pub open spec fn spec_tag(self) -> u8 {
        match self {
            Channel::Output => TAG_OUTPUT,
            Channel::Error => TAG_ERROR,
            Channel::Debug => TAG_DEBUG,
            Channel::Result => TAG_RESULT,
            Channel::Input => TAG_INPUT,
            Channel::LineInput => TAG_LINE_INPUT,
        }
    }

    /// Whether a frame on this channel carries a length and that many bytes.
    /// The other channels carry one 32-bit integer.
    pub open spec fn carries_bytes(self) -> bool {
        self == Channel::Output || self == Channel::Error || self == Channel::Debug
    }

    /// The lower-case name of the channel, as it is shown to people.
    pub open spec fn spec_name(self) -> Seq<char> {
        match self {
            Channel::Output => "output"@,
            Channel::Error => "error"@,
            Channel::Debug => "debug"@,
            Channel::Result => "result"@,
            Channel::Input => "input"@,
            Channel::LineInput => "line input"@,
        }
    }

    /// Resolves a tag byte. Every byte other than the six tags is refused,
    /// and the refusal names the byte as a character.
    pub fn try_from(c: u8) -> (r: Result<Channel, InvalidChannelError>)
        ensures
            r == match channel_of_tag(c) {
                Some(channel) => Ok::<Channel, InvalidChannelError>(channel),
                None => Err(InvalidChannelError { channel: c as char }),
            },
    {
        if c == TAG_OUTPUT {
            Ok(Channel::Output)
        } else if c == TAG_ERROR {
            Ok(Channel::Error)
        } else if c == TAG_DEBUG {
            Ok(Channel::Debug)
        } else if c == TAG_RESULT {
            Ok(Channel::Result)
        } else if c == TAG_INPUT {
            Ok(Channel::Input)
        } else if c == TAG_LINE_INPUT {
            Ok(Channel::LineInput)
        } else {
            Err(InvalidChannelError { channel: c as char })
        }
    }

    /// The tag byte of this channel.
    pub fn tag(&self) -> (t: u8)
        ensures
            t == self.spec_tag(),
    {
        match self {
            Channel::Output => TAG_OUTPUT,
            Channel::Error => TAG_ERROR,
            Channel::Debug => TAG_DEBUG,
            Channel::Result => TAG_RESULT,
            Channel::Input => TAG_INPUT,
            Channel::LineInput => TAG_LINE_INPUT,
        }
    }

    /// The name of this channel for messages.
    pub fn name(&self) -> (s: &'static str)
        ensures
            s@ == self.spec_name(),
    {
        match self {
            Channel::Output => "output",
            Channel::Error => "error",
            Channel::Debug => "debug",
            Channel::Result => "result",
            Channel::Input => "input",
            Channel::LineInput => "line input",
        }
    }
}

/// A channel's tag resolves to that channel, and a byte resolves to a
/// channel only if it is that channel's tag.
pub proof fn lemma_tag_round_trip(channel: Channel, tag: u8)
    ensures
        channel_of_tag(channel.spec_tag()) == Some(channel),
        channel_of_tag(tag) == Some(channel) <==> tag == channel.spec_tag(),
{
}

} // verus!
