//! Stream identifiers: 128 random bits drawn at stream creation, shown
//! everywhere (logs, hook payloads, dump paths) in the canonical hyphenated
//! lowercase hex form.

use crate::text::{replace_all, spec_replaced};
use vstd::prelude::*;

verus! {

/// A 128-bit stream identifier, stored as its 16 raw bytes.
#[derive(Debug, Clone, Copy, PartialEq, Eq)]
pub struct StreamId {
    /// The identifier's bytes, most significant first.
    pub bytes: [u8; 16],
}

/// The lowercase hex digit for a value below 16.
pub open spec fn hex_digit(v: u8) -> char {
    if v == 0 {
        '0'
    } else if v == 1 {
        '1'
    } else if v == 2 {
        '2'
    } else if v == 3 {
        '3'
    } else if v == 4 {
        '4'
    } else if v == 5 {
        '5'
    } else if v == 6 {
        '6'
    } else if v == 7 {
        '7'
    } else if v == 8 {
        '8'
    } else if v == 9 {
        '9'
    } else if v == 10 {
        'a'
    } else if v == 11 {
        'b'
    } else if v == 12 {
        'c'
    } else if v == 13 {
        'd'
    } else if v == 14 {
        'e'
    } else {
        'f'
    }
}

/// Two lowercase hex digits for one byte.
pub open spec fn byte_hex(b: u8) -> Seq<char> {
    seq![hex_digit(b / 16), hex_digit(b % 16)]
}

/// The hex digits of `bytes[from..to]`, in order.
pub open spec fn hex_of_range(bytes: Seq<u8>, from: int, to: int) -> Seq<char>
    decreases to - from,
{
    if from >= to {
        Seq::empty()
    } else {
        byte_hex(bytes[from]) + hex_of_range(bytes, from + 1, to)
    }
}

/// The canonical hyphenated form: hex digits of the 16 bytes in groups of
/// 4, 2, 2, 2 and 6 bytes, separated by hyphens.
pub open spec fn hyphenated_spec(id: StreamId) -> Seq<char> {
    hex_of_range(id.bytes@, 0, 4) + seq!['-'] + hex_of_range(id.bytes@, 4, 6) + seq!['-']
        + hex_of_range(id.bytes@, 6, 8) + seq!['-'] + hex_of_range(id.bytes@, 8, 10) + seq!['-']
        + hex_of_range(id.bytes@, 10, 16)
}

/// The one-character string slice holding the lowercase hex digit of `v`.
fn hex_digit_str(v: u8) -> (r: &'static str)
    requires
        v < 16,
    ensures
        r@ == seq![hex_digit(v)],
{
    proof {
        reveal_strlit("0");
        reveal_strlit("1");
        reveal_strlit("2");
        reveal_strlit("3");
        reveal_strlit("4");
        reveal_strlit("5");
        reveal_strlit("6");
        reveal_strlit("7");
        reveal_strlit("8");
        reveal_strlit("9");
        reveal_strlit("a");
        reveal_strlit("b");
        reveal_strlit("c");
        reveal_strlit("d");
        reveal_strlit("e");
        reveal_strlit("f");
    }
    if v == 0 {
        "0"
    } else if v == 1 {
        "1"
    } else if v == 2 {
        "2"
    } else if v == 3 {
        "3"
    } else if v == 4 {
        "4"
    } else if v == 5 {
        "5"
    } else if v == 6 {
        "6"
    } else if v == 7 {
        "7"
    } else if v == 8 {
        "8"
    } else if v == 9 {
        "9"
    } else if v == 10 {
        "a"
    } else if v == 11 {
        "b"
    } else if v == 12 {
        "c"
    } else if v == 13 {
        "d"
    } else if v == 14 {
        "e"
    } else {
        "f"
    }
}

/// Appends the two hex digits of one byte.
fn push_byte_hex(out: &mut String, b: u8)
    ensures
        final(out)@ == old(out)@ + byte_hex(b),
{
    out.append(hex_digit_str(b / 16));
    out.append(hex_digit_str(b % 16));
    proof {
        assert(final(out)@ =~= old(out)@ + byte_hex(b));
    }
}

/// Appends the hex digits of `id.bytes[from..to]`.
fn push_hex_range(out: &mut String, id: &StreamId, from: usize, to: usize)
    requires
        from <= to <= 16,
    ensures
        final(out)@ == old(out)@ + hex_of_range(id.bytes@, from as int, to as int),
{
    let mut i = from;
    while i < to
        invariant
            from <= i <= to <= 16,
            out@ == old(out)@ + hex_of_range(id.bytes@, from as int, i as int),
        decreases to - i,
    {
        let b = id.bytes[i];
        push_byte_hex(out, b);
        proof {
            lemma_hex_of_range_snoc(id.bytes@, from as int, i as int);
            assert(out@ =~= old(out)@ + hex_of_range(id.bytes@, from as int, i + 1));
        }
        i += 1;
    }
}

/// Splitting the hex of `bytes[from..to+1]` after its last byte.
proof fn lemma_hex_of_range_snoc(bytes: Seq<u8>, from: int, to: int)
    requires
        from <= to,
        0 <= to < bytes.len(),
    ensures
        hex_of_range(bytes, from, to + 1) == hex_of_range(bytes, from, to) + byte_hex(bytes[to]),
    decreases to - from,
{
    if from == to {
        assert(hex_of_range(bytes, from + 1, to + 1) =~= Seq::<char>::empty());
        assert(hex_of_range(bytes, from, to + 1) =~= hex_of_range(bytes, from, to) + byte_hex(
            bytes[to],
        ));
    } else {
        lemma_hex_of_range_snoc(bytes, from + 1, to);
        assert(hex_of_range(bytes, from, to + 1) =~= hex_of_range(bytes, from, to) + byte_hex(
            bytes[to],
        ));
    }
}

impl StreamId {
    /// The canonical hyphenated lowercase hex form of this identifier.
    pub fn hyphenated(&self) -> (r: String)
        ensures
            r@ == hyphenated_spec(*self),
    {
        proof {
            reveal_strlit("-");
        }
        let mut out = String::new();
        push_hex_range(&mut out, self, 0, 4);
        out.append("-");
        push_hex_range(&mut out, self, 4, 6);
        out.append("-");
        push_hex_range(&mut out, self, 6, 8);
        out.append("-");
        push_hex_range(&mut out, self, 8, 10);
        out.append("-");
        push_hex_range(&mut out, self, 10, 16);
        proof {
            assert(out@ =~= hyphenated_spec(*self));
        }
        out
    }
}

/// Relies on `uuid::Uuid::new_v4` for the 128 random bits of a fresh stream
/// identifier; nothing is assumed about the drawn value.
#[verifier::external_body]
pub(crate) fn fresh_stream_id() -> StreamId {
    StreamId { bytes: *uuid::Uuid::new_v4().as_bytes() }
}

/// The dump file path for a stream: the configured template with every
/// literal `{uuid}` replaced by the stream id's hyphenated text, and nothing
/// else changed.
pub fn dump_path(template: &str, id: &StreamId) -> (r: String)
    ensures
        r@ == spec_replaced(template@, "{uuid}"@, hyphenated_spec(*id)),
{
    proof {
        reveal_strlit("{uuid}");
    }
    let h = id.hyphenated();
    replace_all(template, "{uuid}", h.as_str())
}

} // verus!
