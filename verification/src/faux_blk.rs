//! The block-protocol flag bits and their decoding.
//!
//! A descriptor's 16-bit flag word carries, on the way in, a direction class
//! (read or write) and a command (open, write-contents, close); on the way
//! back the device overwrites it with a reply overlay.  The bit positions
//! are fixed: both endpoints interpret the same word without translation.

use vstd::prelude::*;

verus! {

pub const FILE_READ: u16 = 1u16 << 1;

pub const FILE_WRITE: u16 = 1u16 << 2;

pub const FILE_OPEN_FLAG: u16 = 1u16 << 3;

pub const FILE_CLOSE_FLAG: u16 = 1u16 << 4;

pub const FILE_WRITE_CONTENTS_FLAG: u16 = 1u16 << 5;

pub const FILE_STATE_FLAG: u16 = 1u16 << 6;

pub const STATE_OPEN: u16 = 1u16 << 3;

pub const STATE_CLOSED: u16 = 1u16 << 4;

pub const STATE_SUCCESS: u16 = 1u16 << 5;

pub const STATE_FAIL: u16 = 1u16 << 6;

/// The command a request descriptor asks the device to execute.
#[derive(Clone, Copy, PartialEq, Eq, Structural, Debug)]
pub enum FileCommand {
    Open,
    WriteContents,
    ReadContents,
    Close,
    Unknown,
}

/// The direction class of a request flag word: whether it travels in the
/// read direction.  An open in the write direction may start the file
/// afresh; an open in the read direction must keep its contents, or the
/// write-then-read round trip breaks.
pub open spec fn is_read_direction_spec(flags: u16) -> bool {
    flags & FILE_READ != 0
}

pub fn is_read_direction(flags: u16) -> (read_direction: bool)
    ensures
        read_direction == is_read_direction_spec(flags),
{
    flags & FILE_READ != 0
}

/// How the device reads a request flag word, evaluated in order with the
/// first match winning: open, write-direction contents, read-direction
/// contents, close; anything else is unknown.
pub open spec fn decode_flags_spec(flags: u16) -> FileCommand {
    if flags & FILE_OPEN_FLAG != 0 {
        FileCommand::Open
    } else if flags & FILE_WRITE_CONTENTS_FLAG != 0 && flags & FILE_WRITE != 0 {
        FileCommand::WriteContents
    } else if flags & FILE_WRITE_CONTENTS_FLAG != 0 && flags & FILE_READ != 0 {
        FileCommand::ReadContents
    } else if flags & FILE_CLOSE_FLAG != 0 {
        FileCommand::Close
    } else {
        FileCommand::Unknown
    }
}

pub fn decode_flags(flags: u16) -> (command: FileCommand)
    ensures
        command == decode_flags_spec(flags),
{
    if flags & FILE_OPEN_FLAG != 0 {
        FileCommand::Open
    } else if flags & FILE_WRITE_CONTENTS_FLAG != 0 && flags & FILE_WRITE != 0 {
        FileCommand::WriteContents
    } else if flags & FILE_WRITE_CONTENTS_FLAG != 0 && flags & FILE_READ != 0 {
        FileCommand::ReadContents
    } else if flags & FILE_CLOSE_FLAG != 0 {
        FileCommand::Close
    } else {
        FileCommand::Unknown
    }
}

/// The reply overlay the device writes back over the request flags.  A
/// successful read keeps the read bit so the guest can tell a filled read
/// buffer apart from other replies; a failure carries the state bit without
/// the success bit; an unknown command leaves the flags unchanged.
pub open spec fn reply_flags_spec(command: FileCommand, success: bool, request_flags: u16) -> u16 {
    match command {
        FileCommand::Open => if success {
            FILE_STATE_FLAG | STATE_SUCCESS
        } else {
            FILE_STATE_FLAG
        },
        FileCommand::WriteContents => if success {
            FILE_STATE_FLAG | STATE_SUCCESS
        } else {
            FILE_STATE_FLAG
        },
        FileCommand::ReadContents => if success {
            FILE_READ | STATE_SUCCESS
        } else {
            FILE_STATE_FLAG
        },
        FileCommand::Close => if success {
            FILE_STATE_FLAG | STATE_SUCCESS
        } else {
            FILE_STATE_FLAG
        },
        FileCommand::Unknown => request_flags,
    }
}

pub fn reply_flags(command: FileCommand, success: bool, request_flags: u16) -> (reply: u16)
    ensures
        reply == reply_flags_spec(command, success, request_flags),
{
    match command {
        FileCommand::Open => if success {
            FILE_STATE_FLAG | STATE_SUCCESS
        } else {
            FILE_STATE_FLAG
        },
        FileCommand::WriteContents => if success {
            FILE_STATE_FLAG | STATE_SUCCESS
        } else {
            FILE_STATE_FLAG
        },
        FileCommand::ReadContents => if success {
            FILE_READ | STATE_SUCCESS
        } else {
            FILE_STATE_FLAG
        },
        FileCommand::Close => if success {
            FILE_STATE_FLAG | STATE_SUCCESS
        } else {
            FILE_STATE_FLAG
        },
        FileCommand::Unknown => request_flags,
    }
}

} // verus!
