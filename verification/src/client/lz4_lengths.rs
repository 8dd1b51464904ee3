//! The lengths in a block of LZ4.
//!
//! A block is a row of sequences. A sequence begins with a token, whose two halves are the
//! lengths of its literals and of the match behind them; a half of 15 is followed by bytes that
//! are added to it, up to the first that is not 0xFF. A match names an offset in two bytes, and
//! copies what was written so far before. The decoder adds such bytes up in 32 bits, and the
//! lengths in a machine word. What is said here is whether it can.

use vstd::prelude::*;

verus! {

/// A length in a block.
pub enum Length {
    /// The length, and the place behind it
    Given(int, int),
    /// The block ends within it
    Cut,
    /// It cannot be added up
    TooLong,
}

/// How many bytes 0xFF stand in a row from a place on.
pub open spec fn run_at(block: Seq<u8>, at: int) -> nat
    decreases block.len() - at,
{
    if at < 0 || at >= block.len() || block[at] != 0xFF {
        0
    } else {
        1 + run_at(block, at + 1)
    }
}

/// The length that begins as `start` and goes on at a place.
pub open spec fn long_length(block: Seq<u8>, at: int, start: int) -> Length {
    let run = run_at(block, at);
    if 255 * run > u32::MAX {
        Length::TooLong
    } else if at + run >= block.len() {
        Length::Cut
    } else {
        let more = 255 * run + block[at + run];
        if more > u32::MAX || start + more > usize::MAX {
            Length::TooLong
        } else {
            Length::Given(start + more, at + run + 1)
        }
    }
}

/// The length of which half a token is given, counted from `least` on.
pub open spec fn length_at(block: Seq<u8>, at: int, half: int, least: int) -> Length {
    if half < 15 {
        Length::Given(least + half, at)
    } else {
        long_length(block, at, least + half)
    }
}

/// Whether the lengths can be added up that a decoder meets from a place on, where `written`
/// bytes of its output are filled and it has room for `room`. It stops at the end of the block
/// and at its first fault: a sequence that the block or the room does not hold, or an offset of
/// zero or to before the output.
pub open spec fn adds_up(block: Seq<u8>, at: int, written: int, room: int) -> bool
    decreases block.len() - at,
{
    if at < 0 || at >= block.len() {
        true
    } else {
        let token = block[at] as int;
        match length_at(block, at + 1, token / 16, 0) {
            Length::TooLong => false,
            Length::Cut => true,
            Length::Given(literals, from) => {
                let next = from + literals;
                let filled = written + literals;
                if next + 2 > block.len() || filled > room {
                    true
                } else {
                    let offset = block[next] + 256 * block[next + 1];
                    if offset == 0 {
                        true
                    } else {
                        match length_at(block, next + 2, token % 16, 4) {
                            Length::TooLong => false,
                            Length::Cut => true,
                            Length::Given(copied, after) => {
                                if filled + copied > usize::MAX {
                                    false
                                } else if filled + copied > room || offset > filled {
                                    true
                                } else {
                                    adds_up(block, after, filled + copied, room)
                                }
                            },
                        }
                    }
                }
            },
        }
    }
}

/// A length that was read.
enum ReadLength {
    Given(usize, usize),
    Cut,
    TooLong,
}

/// Whether a length was read as it stands there.
spec fn read_as(r: ReadLength, l: Length) -> bool {
    match l {
        Length::Given(n, after) => r matches ReadLength::Given(m, a) && m == n && a == after,
        Length::Cut => r is Cut,
        Length::TooLong => r is TooLong,
    }
}

/// The length of which half a token is given, counted from `least` on.
fn read_length(block: &[u8], at: usize, half: u8, least: u8) -> (r: ReadLength)
    requires
        at <= block@.len(),
        half < 16,
        least < 16,
    ensures
        read_as(r, length_at(block@, at as int, half as int, least as int)),
{
    let start: u8 = least + half;
    if half < 15 {
        return ReadLength::Given(start as usize, at);
    }
    let len: usize = block.len();
    let mut more: u64 = 0;
    let mut i: usize = at;
    while i < len && block[i] == 0xFF
        invariant
            half == 15,
            at <= i <= len,
            len == block@.len(),
            more == 255 * (i - at),
            more <= u32::MAX,
            run_at(block@, at as int) == (i - at) + run_at(block@, i as int),
        decreases len - i,
    {
        more = more + 255;
        i = i + 1;
        if more > 0xFFFF_FFFF {
            return ReadLength::TooLong;
        }
    }
    assert(run_at(block@, i as int) == 0);
    if i >= len {
        return ReadLength::Cut;
    }
    more = more + block[i] as u64;
    if more > 0xFFFF_FFFF || more > (usize::MAX - start as usize) as u64 {
        return ReadLength::TooLong;
    }
    ReadLength::Given(start as usize + more as usize, i + 1)
}

/// Whether the lengths in a block can be added up by a decoder that has room for `room` bytes.
pub fn lengths_add_up(block: &[u8], room: usize) -> (r: bool)
    ensures
        r == adds_up(block@, 0, 0, room as int),
{
    let len: usize = block.len();
    let mut at: usize = 0;
    let mut written: usize = 0;
    while at < len
        invariant
            at <= len,
            len == block@.len(),
            written <= room,
            adds_up(block@, 0, 0, room as int) == adds_up(
                block@,
                at as int,
                written as int,
                room as int,
            ),
        decreases len - at,
    {
        let token: u8 = block[at];
        let (literals, from): (usize, usize) = match read_length(block, at + 1, token / 16, 0) {
            ReadLength::TooLong => {
                return false;
            },
            ReadLength::Cut => {
                return true;
            },
            ReadLength::Given(n, after) => (n, after),
        };
        if literals > len - from || len - from - literals < 2 || literals > room - written {
            return true;
        }
        let next: usize = from + literals;
        let filled: usize = written + literals;
        let offset: usize = block[next] as usize + 256 * block[next + 1] as usize;
        if offset == 0 {
            return true;
        }
        let (copied, after): (usize, usize) = match read_length(block, next + 2, token % 16, 4) {
            ReadLength::TooLong => {
                return false;
            },
            ReadLength::Cut => {
                return true;
            },
            ReadLength::Given(n, a) => (n, a),
        };
        if copied > usize::MAX - filled {
            return false;
        }
        if copied > room - filled || offset > filled {
            return true;
        }
        at = after;
        written = filled + copied;
    }
    true
}

} // verus!
