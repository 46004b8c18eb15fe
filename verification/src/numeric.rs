//! Decimal renderings of integers, as characters (for store keys) and
//! as bytes (for the metadata and record wire texts), with the parsing
//! direction and the injectivity facts the rest of the crate needs.

use vstd::prelude::*;

verus! {

/// The character for one decimal digit.
pub open spec fn dec_digit_char(d: nat) -> char {
    if d == 0 {
        '0'
    } else if d == 1 {
        '1'
    } else if d == 2 {
        '2'
    } else if d == 3 {
        '3'
    } else if d == 4 {
        '4'
    } else if d == 5 {
        '5'
    } else if d == 6 {
        '6'
    } else if d == 7 {
        '7'
    } else if d == 8 {
        '8'
    } else {
        '9'
    }
}

/// The ASCII byte for one decimal digit.
pub open spec fn dec_digit_byte(d: nat) -> u8 {
    (48 + (d % 10)) as u8
}

/// The usual decimal rendering of `n` as characters: no sign, no
/// leading zeros (`0` itself is rendered `"0"`).
pub open spec fn dec_chars(n: nat) -> Seq<char>
    decreases n,
{
    if n < 10 {
        seq![dec_digit_char(n)]
    } else {
        dec_chars(n / 10).push(dec_digit_char(n % 10))
    }
}

/// The usual decimal rendering of `n` as ASCII bytes.
pub open spec fn dec_bytes(n: nat) -> Seq<u8>
    decreases n,
{
    if n < 10 {
        seq![dec_digit_byte(n)]
    } else {
        dec_bytes(n / 10).push(dec_digit_byte(n % 10))
    }
}

/// Decimal rendering of a signed value: a leading `-` for negatives.
pub open spec fn dec_bytes_signed(n: int) -> Seq<u8> {
    if n < 0 {
        seq![45u8] + dec_bytes((-n) as nat)
    } else {
        dec_bytes(n as nat)
    }
}

/// A decimal rendering has at least one character, exactly one for a
/// single digit.
pub proof fn lemma_dec_chars_len(n: nat)
    ensures
        dec_chars(n).len() >= 1,
        n < 10 <==> dec_chars(n).len() == 1,
    decreases n,
{
    if n >= 10 {
        lemma_dec_chars_len(n / 10);
    }
}

/// Distinct numbers have distinct decimal renderings.
pub proof fn lemma_dec_chars_injective(a: nat, b: nat)
    ensures
        dec_chars(a) == dec_chars(b) ==> a == b,
    decreases a + b,
{
    if dec_chars(a) == dec_chars(b) {
        lemma_dec_chars_len(a);
        lemma_dec_chars_len(b);
        if a < 10 && b < 10 {
            assert(dec_chars(a)[0] == dec_digit_char(a));
            assert(dec_chars(b)[0] == dec_digit_char(b));
        } else if a >= 10 && b >= 10 {
            assert(dec_chars(a).last() == dec_digit_char(a % 10));
            assert(dec_chars(b).last() == dec_digit_char(b % 10));
            assert(dec_chars(a).drop_last() == dec_chars(a / 10));
            assert(dec_chars(b).drop_last() == dec_chars(b / 10));
            lemma_dec_chars_injective(a / 10, b / 10);
            assert(a == 10 * (a / 10) + a % 10);
            assert(b == 10 * (b / 10) + b % 10);
        }
    }
}

/// Appends one decimal digit character to `s`.
fn push_digit_char(s: &mut String, d: u64)
    requires
        d < 10,
    ensures
        final(s)@ == old(s)@ + seq![dec_digit_char(d as nat)],
{
    if d == 0 {
        s.append("0");
        proof {
            reveal_strlit("0");
            assert(final(s)@ =~= old(s)@ + seq![dec_digit_char(d as nat)]);
        }
    } else if d == 1 {
        s.append("1");
        proof {
            reveal_strlit("1");
            assert(final(s)@ =~= old(s)@ + seq![dec_digit_char(d as nat)]);
        }
    } else if d == 2 {
        s.append("2");
        proof {
            reveal_strlit("2");
            assert(final(s)@ =~= old(s)@ + seq![dec_digit_char(d as nat)]);
        }
    } else if d == 3 {
        s.append("3");
        proof {
            reveal_strlit("3");
            assert(final(s)@ =~= old(s)@ + seq![dec_digit_char(d as nat)]);
        }
    } else if d == 4 {
        s.append("4");
        proof {
            reveal_strlit("4");
            assert(final(s)@ =~= old(s)@ + seq![dec_digit_char(d as nat)]);
        }
    } else if d == 5 {
        s.append("5");
        proof {
            reveal_strlit("5");
            assert(final(s)@ =~= old(s)@ + seq![dec_digit_char(d as nat)]);
        }
    } else if d == 6 {
        s.append("6");
        proof {
            reveal_strlit("6");
            assert(final(s)@ =~= old(s)@ + seq![dec_digit_char(d as nat)]);
        }
    } else if d == 7 {
        s.append("7");
        proof {
            reveal_strlit("7");
            assert(final(s)@ =~= old(s)@ + seq![dec_digit_char(d as nat)]);
        }
    } else if d == 8 {
        s.append("8");
        proof {
            reveal_strlit("8");
            assert(final(s)@ =~= old(s)@ + seq![dec_digit_char(d as nat)]);
        }
    } else {
        s.append("9");
        proof {
            reveal_strlit("9");
            assert(final(s)@ =~= old(s)@ + seq![dec_digit_char(d as nat)]);
        }
    }
}

/// Appends the decimal rendering of `n` to `s`.
pub fn push_dec_chars(s: &mut String, n: u64)
    ensures
        final(s)@ == old(s)@ + dec_chars(n as nat),
    decreases n,
{
    if n >= 10 {
        push_dec_chars(s, n / 10);
    }
    push_digit_char(s, n % 10);
    proof {
        assert(final(s)@ =~= old(s)@ + dec_chars(n as nat));
    }
}

/// The decimal rendering of `n` as a fresh string.
pub fn dec_string(n: u64) -> (r: String)
    ensures
        r@ == dec_chars(n as nat),
{
    let mut s = String::new();
    push_dec_chars(&mut s, n);
    proof {
        assert(s@ =~= dec_chars(n as nat));
    }
    s
}

/// Appends the decimal rendering of `n` to `v` as ASCII bytes.
pub fn push_dec_bytes(v: &mut Vec<u8>, n: u64)
    ensures
        final(v)@ == old(v)@ + dec_bytes(n as nat),
    decreases n,
{
    if n >= 10 {
        push_dec_bytes(v, n / 10);
    }
    let d: u8 = (48 + (n % 10)) as u8;
    v.push(d);
    proof {
        assert(final(v)@ =~= old(v)@ + dec_bytes(n as nat));
    }
}

/// Appends the decimal rendering of signed `n`, `-` first if negative.
pub fn push_dec_bytes_signed(v: &mut Vec<u8>, n: i64)
    ensures
        final(v)@ == old(v)@ + dec_bytes_signed(n as int),
{
    if n < 0 {
        v.push(45);
        let mag: u64 = if n == i64::MIN {
            9223372036854775808u64
        } else {
            (-n) as u64
        };
        push_dec_bytes(v, mag);
        proof {
            assert(final(v)@ =~= old(v)@ + dec_bytes_signed(n as int));
        }
    } else {
        push_dec_bytes(v, n as u64);
    }
}

} // verus!
