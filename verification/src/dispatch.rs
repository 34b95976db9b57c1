//! Which frames may overlap: the classification of a compound chain.

use vstd::prelude::*;

use crate::wire::{read_u16, read_u32};

verus! {

/// Length of an SMB2 message header.
pub const SMB2_HEADER_LEN: usize = 64;

/// Offset of the command code in a message header.
pub const COMMAND_OFFSET: usize = 12;

/// Offset of `NextCommand` in a message header: the distance from this header
/// to the next one of the compound chain, or zero in the last one.
pub const NEXT_COMMAND_OFFSET: usize = 20;

pub const NEGOTIATE: u16 = 0x0000;

pub const SESSION_SETUP: u16 = 0x0001;

pub const LOGOFF: u16 = 0x0002;

pub const TREE_CONNECT: u16 = 0x0003;

pub const TREE_DISCONNECT: u16 = 0x0004;

/// Whether a command sets a connection, session or tree up or tears it down.
pub open spec fn is_setup_command(command: u16) -> bool {
    command == NEGOTIATE || command == SESSION_SETUP || command == LOGOFF || command == TREE_CONNECT
        || command == TREE_DISCONNECT
}

/// The command code of the message header at offset `at`.
pub open spec fn command_at(frame: Seq<u8>, at: int) -> u16 {
    crate::wire::le16_at(frame, at + COMMAND_OFFSET)
}

/// The `NextCommand` field of the message header at offset `at`.
pub open spec fn next_command_at(frame: Seq<u8>, at: int) -> u32 {
    crate::wire::le32_at(frame, at + NEXT_COMMAND_OFFSET)
}

/// The offsets of the message headers of the compound chain from `at` on. The
/// chain ends with a header whose `NextCommand` is zero, or where the frame
/// has no room for a whole header.
pub open spec fn chain_from(frame: Seq<u8>, at: int) -> Seq<int>
    decreases vstd::math::max(frame.len() - at, 0),
{
    if at + SMB2_HEADER_LEN > frame.len() {
        Seq::empty()
    } else if next_command_at(frame, at) == 0 {
        seq![at]
    } else {
        seq![at] + chain_from(frame, at + next_command_at(frame, at))
    }
}

/// Whether some header of the compound chain from `at` on has a setup command.
pub open spec fn chain_has_setup(frame: Seq<u8>, at: int) -> bool {
    exists|i: int|
        0 <= i < chain_from(frame, at).len() && is_setup_command(
            command_at(frame, #[trigger] chain_from(frame, at)[i]),
        )
}

/// Whether a frame is a barrier: whether NEGOTIATE, SESSION_SETUP, LOGOFF,
/// TREE_CONNECT or TREE_DISCONNECT is anywhere in its compound chain.
pub open spec fn must_be_serialized(frame: Seq<u8>) -> bool {
    chain_has_setup(frame, 0)
}

/// Tells whether a command is a setup command.
pub fn command_is_setup(command: u16) -> (r: bool)
    ensures
        r == is_setup_command(command),
{
    command == NEGOTIATE || command == SESSION_SETUP || command == LOGOFF || command == TREE_CONNECT
        || command == TREE_DISCONNECT
}

/// Tells whether a frame must run alone.
pub fn frame_must_be_serialized(frame: &[u8]) -> (r: bool)
    ensures
        r == must_be_serialized(frame@),
{
    let len: usize = frame.len();
    let mut at: usize = 0;
    while len >= SMB2_HEADER_LEN && at <= len - SMB2_HEADER_LEN
        invariant
            len == frame@.len(),
            chain_has_setup(frame@, at as int) == must_be_serialized(frame@),
        decreases len - at,
    {
        let ghost rest = chain_from(frame@, at as int);
        assert(rest[0] == at);
        if command_is_setup(read_u16(frame, at + COMMAND_OFFSET)) {
            return true;
        }
        let next: usize = read_u32(frame, at + NEXT_COMMAND_OFFSET) as usize;
        if next == 0 {
            return false;
        }
        proof {
            setup_is_further_on(frame@, at as int);
        }
        if next > len - at {
            return false;
        }
        at = at + next;
    }
    false
}

/// A chain whose first command is no setup command has one exactly if the
/// rest of it has.
proof fn setup_is_further_on(frame: Seq<u8>, at: int)
    requires
        0 <= at,
        at + SMB2_HEADER_LEN <= frame.len(),
        next_command_at(frame, at) != 0,
        !is_setup_command(command_at(frame, at)),
    ensures
        chain_has_setup(frame, at) == chain_has_setup(frame, at + next_command_at(frame, at)),
{
    let all = chain_from(frame, at);
    let rest = chain_from(frame, at + next_command_at(frame, at));
    assert(all == seq![at] + rest);
    if chain_has_setup(frame, at) {
        let i = choose|i: int|
            0 <= i < all.len() && is_setup_command(command_at(frame, #[trigger] all[i]));
        assert(all[0] == at);
        assert(rest[i - 1] == all[i]);
    }
    if exists|i: int|
        0 <= i < rest.len() && is_setup_command(command_at(frame, #[trigger] rest[i])) {
        let i = choose|i: int|
            0 <= i < rest.len() && is_setup_command(command_at(frame, #[trigger] rest[i]));
        assert(all[i + 1] == rest[i]);
    }
}

/// The commands that set up or tear down are those with the five lowest codes:
/// NEGOTIATE, SESSION_SETUP, LOGOFF, TREE_CONNECT and TREE_DISCONNECT.
pub proof fn law_setup_commands(command: u16, r: bool)
    requires
        call_ensures(command_is_setup, (command,), r),
    ensures
        r <==> 0 <= command <= 4,
{
}

/// How the classification of a frame relates to that of what follows its first
/// message: a frame must run alone exactly if it holds a whole message header
/// and either the command of that header sets up or tears down, or another
/// message follows within the frame and the frame from there on must run alone.
/// It does not matter where in the chain a message stands.
pub proof fn law_every_message_counts_alike(frame: &[u8], further: &[u8], r: bool, later: bool)
    requires
        call_ensures(frame_must_be_serialized, (frame,), r),
        frame@.len() >= 64 ==> 0 < crate::wire::le32_at(frame@, 20) <= frame@.len() ==> further@
            == frame@.skip(crate::wire::le32_at(frame@, 20) as int),
        call_ensures(frame_must_be_serialized, (further,), later),
    ensures
        r <==> {
            &&& frame@.len() >= 64
            &&& {
                ||| 0 <= crate::wire::le16_at(frame@, 12) <= 4
                ||| 0 < crate::wire::le32_at(frame@, 20) <= frame@.len() && later
            }
        },
{
    let next = next_command_at(frame@, 0);
    if frame@.len() >= SMB2_HEADER_LEN {
        setup_is_here_or_further_on(frame@, 0);
        if 0 < next <= frame@.len() {
            setup_from_there_on(frame@, next as int, 0);
        }
    }
}

/// A compound frame must run alone exactly if the command of one of its
/// messages, at whatever place, sets up or tears down. The frame is made of its
/// messages one after the other; each begins with a whole header that gives
/// the message's length as the distance to the next one, or zero in the last.
pub proof fn law_compound_frames(messages: Seq<Seq<u8>>, frame: &[u8], r: bool)
    requires
        messages.len() > 0,
        forall|i: int|
            0 <= i < messages.len() ==> {
                let m = #[trigger] messages[i];
                &&& m.len() >= 64
                &&& crate::wire::le32_at(m, 20) == if i == messages.len() - 1 {
                    0
                } else {
                    m.len() as int
                }
            },
        frame@ == messages.flatten(),
        call_ensures(frame_must_be_serialized, (frame,), r),
    ensures
        r <==> exists|i: int|
            0 <= i < messages.len() && 0 <= crate::wire::le16_at(#[trigger] messages[i], 12) <= 4,
{
    compound_has_setup(messages);
}

proof fn compound_has_setup(messages: Seq<Seq<u8>>)
    requires
        messages.len() > 0,
        forall|i: int|
            0 <= i < messages.len() ==> {
                let m = #[trigger] messages[i];
                &&& m.len() >= 64
                &&& crate::wire::le32_at(m, 20) == if i == messages.len() - 1 {
                    0
                } else {
                    m.len() as int
                }
            },
    ensures
        must_be_serialized(messages.flatten()) <==> exists|i: int|
            0 <= i < messages.len() && 0 <= crate::wire::le16_at(#[trigger] messages[i], 12) <= 4,
    decreases messages.len(),
{
    let first = messages[0];
    let others = messages.drop_first();
    let frame = messages.flatten();
    assert(frame == first + others.flatten());
    assert(command_at(frame, 0) == crate::wire::le16_at(first, 12));
    assert(next_command_at(frame, 0) == crate::wire::le32_at(first, 20));
    setup_is_here_or_further_on(frame, 0);
    if messages.len() > 1 {
        assert forall|i: int| 0 <= i < others.len() implies {
            let m = #[trigger] others[i];
            &&& m.len() >= 64
            &&& crate::wire::le32_at(m, 20) == if i == others.len() - 1 {
                0
            } else {
                m.len() as int
            }
        } by {
            assert(others[i] == messages[i + 1]);
        }
        compound_has_setup(others);
        setup_from_there_on(frame, first.len() as int, 0);
        assert(frame.skip(first.len() as int) =~= others.flatten());
        if exists|i: int|
            0 <= i < others.len() && 0 <= crate::wire::le16_at(#[trigger] others[i], 12) <= 4 {
            let i = choose|i: int|
                0 <= i < others.len() && 0 <= crate::wire::le16_at(#[trigger] others[i], 12) <= 4;
            assert(messages[i + 1] == others[i]);
        }
        if exists|i: int|
            0 <= i < messages.len() && 0 <= crate::wire::le16_at(#[trigger] messages[i], 12) <= 4 {
            let i = choose|i: int|
                0 <= i < messages.len() && 0 <= crate::wire::le16_at(#[trigger] messages[i], 12)
                    <= 4;
            if i > 0 {
                assert(others[i - 1] == messages[i]);
            }
        }
    }
}

/// A chain has a setup command in its first message, or behind it.
proof fn setup_is_here_or_further_on(frame: Seq<u8>, at: int)
    requires
        0 <= at,
        at + SMB2_HEADER_LEN <= frame.len(),
    ensures
        chain_has_setup(frame, at) <==> {
            ||| is_setup_command(command_at(frame, at))
            ||| next_command_at(frame, at) != 0 && chain_has_setup(
                frame,
                at + next_command_at(frame, at),
            )
        },
{
    let all = chain_from(frame, at);
    assert(all[0] == at);
    if !is_setup_command(command_at(frame, at)) {
        if next_command_at(frame, at) != 0 {
            setup_is_further_on(frame, at);
        }
    }
}

/// The chain from some place on is the chain of the frame from there on.
proof fn setup_from_there_on(frame: Seq<u8>, start: int, at: int)
    requires
        0 <= start <= frame.len(),
        0 <= at,
    ensures
        chain_has_setup(frame, start + at) == chain_has_setup(frame.skip(start), at),
    decreases vstd::math::max(frame.len() - start - at, 0),
{
    let part = frame.skip(start);
    if at + SMB2_HEADER_LEN <= part.len() {
        assert(part =~= frame.subrange(start, frame.len() as int));
        crate::wire::integers_in_part(frame, start, frame.len() as int, at + COMMAND_OFFSET);
        crate::wire::integers_in_part(frame, start, frame.len() as int, at + NEXT_COMMAND_OFFSET);
        setup_is_here_or_further_on(frame, start + at);
        setup_is_here_or_further_on(part, at);
        if next_command_at(part, at) != 0 {
            setup_from_there_on(frame, start, at + next_command_at(part, at));
        }
    }
}

} // verus!
