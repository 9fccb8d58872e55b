//! Hashing and text-rendering primitives for block contents: the SHA-256
//! digest (through the `sha2` crate), the current time (through `chrono`),
//! and verified decimal / hexadecimal rendering of numbers.

use sha2::Digest;
use vstd::prelude::*;

verus! {

use vstd::string::StringExecFns;

/// The SHA-256 digest of a character sequence: a fixed function of the input
/// alone, left unspecified here beyond its length.
pub uninterp spec fn sha256_of(s: Seq<char>) -> Seq<u8>;

/// Relies on `sha2::Sha256` (through its `Digest` trait): the digest is a pure
/// function of the input bytes — hence of the input characters — always 32
/// bytes long, deterministic and stable across processes, so that peers can
/// recompute it independently.
#[verifier::external_body]
pub(crate) fn sha256(s: &str) -> (r: Vec<u8>)
    ensures
        r@ == sha256_of(s@),
        r@.len() == 32,
{
    sha2::Sha256::digest(s.as_bytes()).to_vec()
}

/// Relies on `chrono::Utc::now` and `DateTime::timestamp_millis`: the current
/// wall-clock time in milliseconds since the epoch. Nothing can be promised of
/// its value.
#[verifier::external_body]
pub(crate) fn current_time_millis() -> i64 {
    chrono::Utc::now().timestamp_millis()
}

/// The character for one digit value, `0` through `F`.
pub open spec fn spec_digit_char(d: int) -> char {
    if d == 0 {
        '0'
    } else if d == 1 {
        '1'
    } else if d == 2 {
        '2'
    } else if d == 3 {
        '3'
    } else if d == 4 {
        '4'
    } else if d == 5 {
        '5'
    } else if d == 6 {
        '6'
    } else if d == 7 {
        '7'
    } else if d == 8 {
        '8'
    } else if d == 9 {
        '9'
    } else if d == 10 {
        'A'
    } else if d == 11 {
        'B'
    } else if d == 12 {
        'C'
    } else if d == 13 {
        'D'
    } else if d == 14 {
        'E'
    } else {
        'F'
    }
}

/// The decimal rendering of a natural number, most significant digit first.
pub open spec fn spec_dec_digits(n: nat) -> Seq<char>
    decreases n,
{
    if n < 10 {
        seq![spec_digit_char(n as int)]
    } else {
        spec_dec_digits(n / 10).push(spec_digit_char((n % 10) as int))
    }
}

/// The decimal rendering of an integer: a minus sign before the digits when
/// the number is negative.
pub open spec fn spec_int_digits(n: int) -> Seq<char> {
    if n < 0 {
        seq!['-'] + spec_dec_digits((-n) as nat)
    } else {
        spec_dec_digits(n as nat)
    }
}

/// The uppercase hexadecimal rendering of a byte sequence, two characters per
/// byte.
pub open spec fn spec_hex_upper(bytes: Seq<u8>) -> Seq<char> {
    Seq::new(
        bytes.len() * 2,
        |i: int|
            if i % 2 == 0 {
                spec_digit_char(bytes[i / 2] as int / 16)
            } else {
                spec_digit_char(bytes[i / 2] as int % 16)
            },
    )
}

/// The one-character string for a digit value below sixteen.
fn digit_str(d: u8) -> (r: &'static str)
    requires
        d < 16,
    ensures
        r@ == seq![spec_digit_char(d as int)],
{
    proof {
        reveal_strlit("0");
        reveal_strlit("1");
        reveal_strlit("2");
        reveal_strlit("3");
        reveal_strlit("4");
        reveal_strlit("5");
        reveal_strlit("6");
        reveal_strlit("7");
        reveal_strlit("8");
        reveal_strlit("9");
        reveal_strlit("A");
        reveal_strlit("B");
        reveal_strlit("C");
        reveal_strlit("D");
        reveal_strlit("E");
        reveal_strlit("F");
    }
    let r: &'static str = match d {
        0 => "0",
        1 => "1",
        2 => "2",
        3 => "3",
        4 => "4",
        5 => "5",
        6 => "6",
        7 => "7",
        8 => "8",
        9 => "9",
        10 => "A",
        11 => "B",
        12 => "C",
        13 => "D",
        14 => "E",
        _ => "F",
    };
    proof {
        assert(r@ =~= seq![spec_digit_char(d as int)]);
    }
    r
}

/// Appends the decimal rendering of `n` to `s`.
pub(crate) fn append_dec_u64(s: &mut String, n: u64)
    ensures
        final(s)@ == old(s)@ + spec_dec_digits(n as nat),
    decreases n,
{
    if n < 10 {
        s.append(digit_str(n as u8));
        proof {
            assert(s@ =~= old(s)@ + spec_dec_digits(n as nat));
        }
    } else {
        append_dec_u64(s, n / 10);
        s.append(digit_str((n % 10) as u8));
        proof {
            assert(s@ =~= old(s)@ + spec_dec_digits(n as nat));
        }
    }
}

/// Appends the decimal rendering of `n` to `s`, minus sign included.
pub(crate) fn append_dec_i64(s: &mut String, n: i64)
    ensures
        final(s)@ == old(s)@ + spec_int_digits(n as int),
{
    if n < 0 {
        s.append("-");
        let wide: i128 = -(n as i128);
        assert(0 < wide <= 0x8000_0000_0000_0000);
        let magnitude: u64 = wide as u64;
        append_dec_u64(s, magnitude);
        proof {
            reveal_strlit("-");
            assert(s@ =~= old(s)@ + spec_int_digits(n as int));
        }
    } else {
        append_dec_u64(s, n as u64);
    }
}

/// Renders a byte sequence as uppercase hexadecimal, two characters per byte.
pub(crate) fn to_hex_upper(bytes: &Vec<u8>) -> (r: String)
    ensures
        r@ == spec_hex_upper(bytes@),
{
    let mut out = String::new();
    let mut i: usize = 0;
    while i < bytes.len()
        invariant
            i <= bytes@.len(),
            out@ == spec_hex_upper(bytes@.subrange(0, i as int)),
        decreases bytes@.len() - i,
    {
        let b = bytes[i];
        out.append(digit_str(b / 16));
        out.append(digit_str(b % 16));
        proof {
            assert(out@ =~= spec_hex_upper(bytes@.subrange(0, i as int + 1)));
        }
        i += 1;
    }
    proof {
        assert(bytes@.subrange(0, bytes@.len() as int) =~= bytes@);
    }
    out
}

} // verus!
