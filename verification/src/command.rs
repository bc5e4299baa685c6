//! Commands: the frame that asks the server to run one.
//!
//! A command is the literal `runcommand` and a line feed, the length of the
//! argument block as a big-endian 32-bit integer, and the argument block:
//! the arguments with one NUL byte between each two of them.

use crate::wire::{be_bytes, write_u32_be};
use vstd::prelude::*;
use vstd::string::StringSliceAdditionalSpecFns;

verus! {

/// The bytes of `runcommand` and a line feed, which open a command.
pub open spec fn command_header() -> Seq<u8> {
    seq![0x72u8, 0x75u8, 0x6eu8, 0x63u8, 0x6fu8, 0x6du8, 0x6du8, 0x61u8, 0x6eu8, 0x64u8, 0x0au8]
}

/// The bytes of each argument of a command.
pub open spec fn argument_bytes(command: Seq<&str>) -> Seq<Seq<u8>> {
    command.map_values(|argument: &str| argument.spec_bytes())
}

/// The arguments one after the other, with a NUL byte between each two and
/// none at the end.
pub open spec fn joined(arguments: Seq<Seq<u8>>) -> Seq<u8>
    decreases arguments.len(),
{
    if arguments.len() == 0 {
        seq![]
    } else if arguments.len() == 1 {
        arguments[0]
    } else {
        joined(arguments.drop_last()) + seq![0u8] + arguments.last()
    }
}

/// The sum of the lengths of the arguments.
pub open spec fn total_len(arguments: Seq<Seq<u8>>) -> nat
    decreases arguments.len(),
{
    if arguments.len() == 0 {
        0
    } else {
        total_len(arguments.drop_last()) + arguments.last().len()
    }
}

/// The length of the argument block: the lengths of the arguments and one
/// separator less than there are arguments.
pub open spec fn block_len(arguments: Seq<Seq<u8>>) -> int {
    total_len(arguments) + arguments.len() - 1
}

/// Whether a command can be sent: it has an argument, and the length of
/// its argument block fits the 32 bits of the length field.
pub open spec fn sendable(arguments: Seq<Seq<u8>>) -> bool {
    arguments.len() >= 1 && block_len(arguments) <= u32::MAX
}

/// The frame that asks the server to run the command `arguments`.
pub open spec fn command_frame(arguments: Seq<Seq<u8>>) -> Seq<u8> {
    command_header() + be_bytes(block_len(arguments) as u32) + joined(arguments)
}

/// The argument block of a command is as long as `block_len` says.
pub proof fn lemma_joined_len(arguments: Seq<Seq<u8>>)
    requires
        arguments.len() >= 1,
    ensures
        joined(arguments).len() == block_len(arguments),
    decreases arguments.len(),
{
    if arguments.len() == 1 {
        assert(arguments.drop_last().len() == 0);
        assert(total_len(arguments.drop_last()) == 0);
    } else {
        lemma_joined_len(arguments.drop_last());
    }
}

/// The length of the argument block of `command`, where the command can be
/// sent.
pub fn command_len(command: &[&str]) -> (len: Option<u32>)
    ensures
        len == if sendable(argument_bytes(command@)) {
            Some(block_len(argument_bytes(command@)) as u32)
        } else {
            None
        },
{
    let ghost arguments = argument_bytes(command@);
    if command.len() == 0 {
        return None;
    }
    let mut len: u64 = 0;
    let mut i: usize = 0;
    assert(arguments.take(0) =~= Seq::<Seq<u8>>::empty());
    while i < command.len()
        invariant
            i <= command@.len(),
            arguments == argument_bytes(command@),
            len == total_len(arguments.take(i as int)) + i,
            len <= u32::MAX as u64 + 1,
        decreases command@.len() - i,
    {
        let argument = command[i].as_bytes().len();
        proof {
            let upto = arguments.take(i + 1);
            assert(upto.drop_last() =~= arguments.take(i as int));
            assert(upto.last() == command@[i as int].spec_bytes());
            assert(total_len(upto) == total_len(arguments.take(i as int)) + argument);
            lemma_total_len_grows(arguments, i + 1);
        }
        if argument as u64 > u32::MAX as u64 || len + argument as u64 > u32::MAX as u64 {
            return None;
        }
        len = len + argument as u64 + 1;
        i += 1;
    }
    assert(arguments.take(i as int) =~= arguments);
    Some((len - 1) as u32)
}

/// The lengths of the first arguments sum to no more than those of all.
proof fn lemma_total_len_grows(arguments: Seq<Seq<u8>>, n: int)
    requires
        0 <= n <= arguments.len(),
    ensures
        total_len(arguments.take(n)) <= total_len(arguments),
    decreases arguments.len() - n,
{
    if n < arguments.len() {
        let upto = arguments.take(n + 1);
        assert(upto.drop_last() =~= arguments.take(n));
        lemma_total_len_grows(arguments, n + 1);
    } else {
        assert(arguments.take(n) =~= arguments);
    }
}

/// Appends `bytes` to `out`.
fn append(out: &mut Vec<u8>, bytes: &[u8])
    ensures
        final(out)@ == old(out)@ + bytes@,
{
    let mut i: usize = 0;
    while i < bytes.len()
        invariant
            i <= bytes@.len(),
            out@ == old(out)@ + bytes@.take(i as int),
        decreases bytes@.len() - i,
    {
        out.push(bytes[i]);
        i += 1;
    }
    assert(bytes@.take(i as int) =~= bytes@);
}

/// The frame to write to the server for `command`.
pub fn encode_command(command: &[&str]) -> (frame: Vec<u8>)
    requires
        sendable(argument_bytes(command@)),
    ensures
        frame@ == command_frame(argument_bytes(command@)),
{
    let ghost arguments = argument_bytes(command@);
    let len = command_len(command).unwrap();
    let mut frame: Vec<u8> = Vec::new();
    frame.push(0x72);
    frame.push(0x75);
    frame.push(0x6e);
    frame.push(0x63);
    frame.push(0x6f);
    frame.push(0x6d);
    frame.push(0x6d);
    frame.push(0x61);
    frame.push(0x6e);
    frame.push(0x64);
    frame.push(0x0a);
    assert(frame@ =~= command_header());
    let field = write_u32_be(len);
    self::append(&mut frame, field.as_slice());
    let ghost prefix = frame@;
    let mut i: usize = 0;
    assert(arguments.take(0) =~= Seq::<Seq<u8>>::empty());
    while i < command.len()
        invariant
            i <= command@.len(),
            arguments == argument_bytes(command@),
            frame@ == prefix + joined(arguments.take(i as int)),
        decreases command@.len() - i,
    {
        proof {
            let upto = arguments.take(i + 1);
            assert(upto.drop_last() =~= arguments.take(i as int));
            assert(upto.last() == command@[i as int].spec_bytes());
            if i == 0 {
                assert(upto[0] == upto.last());
            }
        }
        if i > 0 {
            frame.push(0);
        }
        self::append(&mut frame, command[i].as_bytes());
        i += 1;
    }
    assert(arguments.take(i as int) =~= arguments);
    frame
}

} // verus!
