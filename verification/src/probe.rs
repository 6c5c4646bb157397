//! Whether a file is binary, by a look at its first bytes.
use vstd::prelude::*;

use crate::plumbing;
use crate::text::{terminator_len, CR, LF};

verus! {

/// How many bytes of a file are read to decide whether it is binary.
pub const PROBE_LIMIT: u64 = 8192;

/// Counts of the bytes of a text by kind.
#[derive(Clone, Copy, Debug, PartialEq, Eq, Structural)]
pub struct Stats {
    /// The amount of null bytes.
    pub null: usize,
    /// The amount of lone carriage returns.
    pub lone_cr: usize,
    /// The amount of lone line feeds.
    pub lone_lf: usize,
    /// The amount of carriage returns followed by a line feed.
    pub crlf: usize,
    /// The amount of printable bytes.
    pub printable: usize,
    /// The amount of bytes that are neither printable nor part of a line
    /// terminator or a lone carriage return.
    pub non_printable: usize,
}

/// How many positions of `s` have the property `p`, which is a property of the
/// text from that position on.
pub open spec fn count_positions(s: Seq<u8>, p: spec_fn(Seq<u8>) -> bool) -> nat
    decreases s.len(),
{
    if s.len() == 0 {
        0
    } else {
        (if p(s) {
            1nat
        } else {
            0nat
        }) + count_positions(s.skip(1), p)
    }
}

/// Backspace, tab, form feed, escape, and everything from the space on but
/// delete.
pub open spec fn is_printable(b: u8) -> bool {
    b == 8 || b == 9 || b == 12 || b == 27 || (b >= 32 && b != 127)
}

/// Null bytes.
pub open spec fn null_count(s: Seq<u8>) -> nat {
    count_positions(s, |t: Seq<u8>| t[0] == 0)
}

/// Line feeds, lone or not.
pub open spec fn lf_count(s: Seq<u8>) -> nat {
    count_positions(s, |t: Seq<u8>| t[0] == LF)
}

/// Carriage returns that a line feed follows.
pub open spec fn crlf_count(s: Seq<u8>) -> nat {
    count_positions(s, |t: Seq<u8>| terminator_len(t) == 2)
}

/// Carriage returns that no line feed follows.
pub open spec fn lone_cr_count(s: Seq<u8>) -> nat {
    count_positions(s, |t: Seq<u8>| t[0] == CR && terminator_len(t) == 0)
}

/// Bytes that can be printed.
pub open spec fn printable_count(s: Seq<u8>) -> nat {
    count_positions(s, |t: Seq<u8>| is_printable(t[0]))
}

/// Bytes that cannot be printed and are neither a carriage return nor a line
/// feed.
pub open spec fn non_printable_count(s: Seq<u8>) -> nat {
    count_positions(s, |t: Seq<u8>| t[0] != CR && t[0] != LF && !is_printable(t[0]))
}

/// A text is taken for binary if it holds a null byte or a lone carriage
/// return, or more bytes that cannot be printed than one for every 128 that can.
pub open spec fn looks_binary(s: Seq<u8>) -> bool {
    ||| lone_cr_count(s) > 0
    ||| null_count(s) > 0
    ||| printable_count(s) / 128 < non_printable_count(s)
}

/// The first bytes of a file, as far as they are probed.
pub open spec fn probe_window(content: Seq<u8>) -> Seq<u8> {
    if content.len() <= PROBE_LIMIT {
        content
    } else {
        content.take(PROBE_LIMIT as int)
    }
}

/// Whether the file with this content is taken for binary.
pub open spec fn probed_binary(content: Seq<u8>) -> bool {
    looks_binary(probe_window(content))
}

/// Decides by the first `PROBE_LIMIT` bytes of `content` whether the file is
/// binary. What follows them has no say.
pub fn is_binary(content: &[u8]) -> (res: bool)
    ensures
        res == probed_binary(content@),
{
    let limit: usize = PROBE_LIMIT as usize;
    let window: &[u8] = if content.len() <= limit {
        content
    } else {
        vstd::slice::slice_subrange(content, 0, limit)
    };
    proof {
        if content@.len() > limit {
            assert(window@ =~= probe_window(content@));
        }
    }
    plumbing::stats_is_binary(plumbing::stats_from_bytes(window))
}

} // verus!
