//! A structured-text encoder for flat records: field names and string
//! values escaped as in the usual interchange format, numbers in
//! decimal, working over UTF-8 bytes. The publisher uses it to measure
//! a record's serialized size and to write dead-letter records.

use vstd::prelude::*;
use vstd::string::StringSliceAdditionalSpecFns;

verus! {

/// The bytes of a bare boolean (`true` or `false`).
pub open spec fn bool_text_bytes(b: bool) -> Seq<u8> {
    if b {
        seq![116u8, 114, 117, 101]
    } else {
        seq![102u8, 97, 108, 115, 101]
    }
}

/// The bytes of a bare `null`.
pub open spec fn null_text_bytes() -> Seq<u8> {
    seq![110u8, 117, 108, 108]
}

/// The lowercase hexadecimal digit for `d`.
pub open spec fn hex_digit_byte(d: nat) -> u8 {
    if d < 10 {
        (48 + d) as u8
    } else {
        (87 + (if d < 16 { d } else { 15 })) as u8
    }
}

/// How one byte of a string value is written: quote and backslash get
/// a backslash, the named control characters their short escapes, the
/// remaining control characters a `\u00XX` escape, and every other
/// byte stands as itself.
pub open spec fn escape_byte(b: u8) -> Seq<u8> {
    if b == 34 {
        seq![92u8, 34]
    } else if b == 92 {
        seq![92u8, 92]
    } else if b == 8 {
        seq![92u8, 98]
    } else if b == 9 {
        seq![92u8, 116]
    } else if b == 10 {
        seq![92u8, 110]
    } else if b == 12 {
        seq![92u8, 102]
    } else if b == 13 {
        seq![92u8, 114]
    } else if b < 32 {
        seq![92u8, 117, 48, 48, hex_digit_byte((b / 16) as nat), hex_digit_byte((b % 16) as nat)]
    } else {
        seq![b]
    }
}

/// The escaped form of a whole byte string.
pub open spec fn json_escaped(s: Seq<u8>) -> Seq<u8>
    decreases s.len(),
{
    if s.len() == 0 {
        Seq::empty()
    } else {
        json_escaped(s.drop_last()) + escape_byte(s.last())
    }
}

/// A quoted, escaped string value.
pub open spec fn json_string_bytes(s: Seq<u8>) -> Seq<u8> {
    seq![34u8] + json_escaped(s) + seq![34u8]
}

/// Appends the escaped form of one byte.
fn push_escaped_byte(out: &mut Vec<u8>, b: u8)
    ensures
        final(out)@ == old(out)@ + escape_byte(b),
{
    if b == 34 {
        out.push(92);
        out.push(34);
    } else if b == 92 {
        out.push(92);
        out.push(92);
    } else if b == 8 {
        out.push(92);
        out.push(98);
    } else if b == 9 {
        out.push(92);
        out.push(116);
    } else if b == 10 {
        out.push(92);
        out.push(110);
    } else if b == 12 {
        out.push(92);
        out.push(102);
    } else if b == 13 {
        out.push(92);
        out.push(114);
    } else if b < 32 {
        out.push(92);
        out.push(117);
        out.push(48);
        out.push(48);
        let hi = b / 16;
        let lo = b % 16;
        let hi_b: u8 = if hi < 10 {
            48 + hi
        } else {
            87 + hi
        };
        let lo_b: u8 = if lo < 10 {
            48 + lo
        } else {
            87 + lo
        };
        out.push(hi_b);
        out.push(lo_b);
    } else {
        out.push(b);
    }
    proof {
        assert(final(out)@ =~= old(out)@ + escape_byte(b));
    }
}

/// Appends the quoted, escaped form of `s`.
pub fn push_json_string(out: &mut Vec<u8>, s: &str)
    ensures
        final(out)@ == old(out)@ + json_string_bytes(s.spec_bytes()),
{
    out.push(34);
    let bytes = s.as_bytes();
    let n = bytes.len();
    let mut j: usize = 0;
    while j < n
        invariant
            j <= n,
            n == bytes@.len(),
            bytes@ == s.spec_bytes(),
            out@ == old(out)@ + seq![34u8] + json_escaped(bytes@.take(j as int)),
        decreases n - j,
    {
        let b = bytes[j];
        push_escaped_byte(out, b);
        j += 1;
        proof {
            assert(bytes@.take(j as int).drop_last() =~= bytes@.take(j as int - 1));
            assert(out@ =~= old(out)@ + seq![34u8] + json_escaped(bytes@.take(j as int)));
        }
    }
    out.push(34);
    proof {
        assert(bytes@.take(n as int) =~= bytes@);
        assert(final(out)@ =~= old(out)@ + json_string_bytes(s.spec_bytes()));
    }
}

/// Appends a bare boolean.
pub fn push_bool_text(out: &mut Vec<u8>, b: bool)
    ensures
        final(out)@ == old(out)@ + bool_text_bytes(b),
{
    if b {
        out.push(116);
        out.push(114);
        out.push(117);
        out.push(101);
    } else {
        out.push(102);
        out.push(97);
        out.push(108);
        out.push(115);
        out.push(101);
    }
    proof {
        assert(final(out)@ =~= old(out)@ + bool_text_bytes(b));
    }
}

/// Appends a bare `null`.
pub fn push_null_text(out: &mut Vec<u8>)
    ensures
        final(out)@ == old(out)@ + null_text_bytes(),
{
    out.push(110);
    out.push(117);
    out.push(108);
    out.push(108);
    proof {
        assert(final(out)@ =~= old(out)@ + null_text_bytes());
    }
}

} // verus!
