//! Rendering of numbers as text: decimal for error messages and
//! one-time-password timestamps, lowercase hexadecimal as a specification
//! for the encoding the library relies on.

use vstd::prelude::*;

verus! {

/// The character for a single decimal digit.
pub open spec fn digit_char(d: nat) -> char {
    if d == 0 {
        '0'
    } else if d == 1 {
        '1'
    } else if d == 2 {
        '2'
    } else if d == 3 {
        '3'
    } else if d == 4 {
        '4'
    } else if d == 5 {
        '5'
    } else if d == 6 {
        '6'
    } else if d == 7 {
        '7'
    } else if d == 8 {
        '8'
    } else {
        '9'
    }
}

/// Decimal rendering of a natural number, most significant digit first,
/// with no leading zeros (a lone zero for 0).
pub open spec fn dec_of(n: nat) -> Seq<char>
    decreases n,
{
    if n < 10 {
        seq![digit_char(n)]
    } else {
        dec_of(n / 10) + seq![digit_char(n % 10)]
    }
}

fn digit_str(d: u64) -> (r: &'static str)
    requires
        d < 10,
    ensures
        r@ == seq![digit_char(d as nat)],
{
    if d == 0 {
        proof {
            reveal_strlit("0");
            assert("0"@ =~= seq![digit_char(0)]);
        }
        "0"
    } else if d == 1 {
        proof {
            reveal_strlit("1");
            assert("1"@ =~= seq![digit_char(1)]);
        }
        "1"
    } else if d == 2 {
        proof {
            reveal_strlit("2");
            assert("2"@ =~= seq![digit_char(2)]);
        }
        "2"
    } else if d == 3 {
        proof {
            reveal_strlit("3");
            assert("3"@ =~= seq![digit_char(3)]);
        }
        "3"
    } else if d == 4 {
        proof {
            reveal_strlit("4");
            assert("4"@ =~= seq![digit_char(4)]);
        }
        "4"
    } else if d == 5 {
        proof {
            reveal_strlit("5");
            assert("5"@ =~= seq![digit_char(5)]);
        }
        "5"
    } else if d == 6 {
        proof {
            reveal_strlit("6");
            assert("6"@ =~= seq![digit_char(6)]);
        }
        "6"
    } else if d == 7 {
        proof {
            reveal_strlit("7");
            assert("7"@ =~= seq![digit_char(7)]);
        }
        "7"
    } else if d == 8 {
        proof {
            reveal_strlit("8");
            assert("8"@ =~= seq![digit_char(8)]);
        }
        "8"
    } else {
        proof {
            reveal_strlit("9");
            assert("9"@ =~= seq![digit_char(9)]);
        }
        "9"
    }
}

/// Appends the decimal rendering of `n` to `s`.
pub fn push_decimal(s: &mut String, n: u64)
    ensures
        final(s)@ == old(s)@ + dec_of(n as nat),
    decreases n,
{
    if n >= 10 {
        push_decimal(s, n / 10);
        let d = digit_str(n % 10);
        s.append(d);
        proof {
            assert(s@ =~= old(s)@ + dec_of(n as nat));
        }
    } else {
        let d = digit_str(n);
        s.append(d);
        proof {
            assert(s@ =~= old(s)@ + dec_of(n as nat));
        }
    }
}

/// The bytes of an ASCII string, one byte per character.
pub open spec fn ascii_bytes(s: Seq<char>) -> Seq<u8> {
    Seq::new(s.len(), |i: int| s[i] as u8)
}

/// Appends the ASCII bytes of the decimal rendering of `n` to `v`.
pub fn push_decimal_ascii(v: &mut Vec<u8>, n: u64)
    ensures
        final(v)@ == old(v)@ + ascii_bytes(dec_of(n as nat)),
    decreases n,
{
    if n >= 10 {
        push_decimal_ascii(v, n / 10);
        v.push((n % 10) as u8 + 48);
        proof {
            assert(v@ =~= old(v)@ + ascii_bytes(dec_of(n as nat)));
        }
    } else {
        v.push(n as u8 + 48);
        proof {
            assert(v@ =~= old(v)@ + ascii_bytes(dec_of(n as nat)));
        }
    }
}

/// The character for a single hexadecimal digit, lowercase.
pub open spec fn hex_digit_char(d: nat) -> char {
    if d == 0 {
        '0'
    } else if d == 1 {
        '1'
    } else if d == 2 {
        '2'
    } else if d == 3 {
        '3'
    } else if d == 4 {
        '4'
    } else if d == 5 {
        '5'
    } else if d == 6 {
        '6'
    } else if d == 7 {
        '7'
    } else if d == 8 {
        '8'
    } else if d == 9 {
        '9'
    } else if d == 10 {
        'a'
    } else if d == 11 {
        'b'
    } else if d == 12 {
        'c'
    } else if d == 13 {
        'd'
    } else if d == 14 {
        'e'
    } else {
        'f'
    }
}

/// The lowercase hexadecimal rendering of a byte string: two digits per
/// byte, most significant first.
pub open spec fn hex_of(bs: Seq<u8>) -> Seq<char>
    decreases bs.len(),
{
    if bs.len() == 0 {
        Seq::empty()
    } else {
        seq![
            hex_digit_char((bs[0] as nat) / 16),
            hex_digit_char((bs[0] as nat) % 16),
        ] + hex_of(bs.drop_first())
    }
}

/// The hexadecimal rendering is two characters per byte.
pub proof fn lemma_hex_of_len(bs: Seq<u8>)
    ensures
        hex_of(bs).len() == 2 * bs.len(),
    decreases bs.len(),
{
    if bs.len() > 0 {
        lemma_hex_of_len(bs.drop_first());
    }
}

/// Relies on hex::encode: each byte becomes two lowercase hexadecimal
/// digits, most significant nibble first, so the result is ASCII.
#[verifier::external_body]
pub fn hex_encode(b: &[u8]) -> (r: String)
    ensures
        r@ == hex_of(b@),
        r.is_ascii(),
{
    hex::encode(b)
}

/// The decimal rendering of `n` as a fresh string.
pub fn decimal_string(n: u64) -> (r: String)
    ensures
        r@ == dec_of(n as nat),
{
    let mut s = String::new();
    push_decimal(&mut s, n);
    proof {
        assert(s@ =~= dec_of(n as nat));
    }
    s
}

} // verus!
