//! Percent-encoding of slugs and query values.

use crate::text::{chars_of, string_of};
use vstd::prelude::*;
use vstd::utf8::encode_utf8;

verus! {

/// The upper-case hexadecimal digit for a value below sixteen.
pub open spec fn hex_digit(n: u8) -> char {
    if n < 10 {
        (48 + n) as u8 as char
    } else {
        (55 + n) as u8 as char
    }
}

/// `%` and the two hexadecimal digits of a byte.
pub open spec fn percent_byte(b: u8) -> Seq<char> {
    seq!['%', hex_digit(b / 16), hex_digit(b % 16)]
}

/// The bytes that stand for themselves in a path: ASCII letters and digits,
/// `-`, `.`, `_`, `~`, and the `/` between segments.
pub open spec fn is_path_safe(b: u8) -> bool {
    ||| 0x30 <= b <= 0x39
    ||| 0x41 <= b <= 0x5A
    ||| 0x61 <= b <= 0x7A
    ||| b == 0x2D
    ||| b == 0x2E
    ||| b == 0x5F
    ||| b == 0x7E
    ||| b == 0x2F
}

/// The bytes with every byte that is not path-safe percent-encoded.
pub open spec fn percent_encoded(bytes: Seq<u8>) -> Seq<char>
    decreases bytes.len(),
{
    if bytes.len() == 0 {
        Seq::empty()
    } else if is_path_safe(bytes.last()) {
        percent_encoded(bytes.drop_last()).push(bytes.last() as char)
    } else {
        percent_encoded(bytes.drop_last()) + percent_byte(bytes.last())
    }
}

/// A slug or category as it stands in an address: its UTF-8 bytes,
/// percent-encoded but for the path-safe ones.
pub open spec fn url_encoded(s: Seq<char>) -> Seq<char> {
    percent_encoded(encode_utf8(s))
}

/// The upper-case hexadecimal digit for a value below sixteen.
pub fn hex_digit_char(n: u8) -> (c: char)
    requires
        n < 16,
    ensures
        c == hex_digit(n),
{
    if n < 10 {
        (48 + n) as char
    } else {
        (55 + n) as char
    }
}

fn push_percent_byte(out: &mut Vec<char>, b: u8)
    ensures
        final(out)@ == old(out)@ + percent_byte(b),
{
    out.push('%');
    out.push(hex_digit_char(b / 16));
    out.push(hex_digit_char(b % 16));
    assert(out@ =~= old(out)@ + percent_byte(b));
}

/// Encodes a slug or category for use in an address.
pub fn encode_for_url(s: &str) -> (r: String)
    ensures
        r@ == url_encoded(s@),
{
    let bytes = s.as_bytes();
    let mut out: Vec<char> = Vec::new();
    let mut i: usize = 0;
    assert(bytes@.take(0) =~= Seq::<u8>::empty());
    while i < bytes.len()
        invariant
            i <= bytes.len(),
            bytes@ == encode_utf8(s@),
            out@ == percent_encoded(bytes@.take(i as int)),
        decreases bytes.len() - i,
    {
        assert(bytes@.take(i + 1).drop_last() =~= bytes@.take(i as int));
        let b = bytes[i];
        let safe = (0x30 <= b && b <= 0x39) || (0x41 <= b && b <= 0x5A) || (0x61 <= b && b
            <= 0x7A) || b == 0x2D || b == 0x2E || b == 0x5F || b == 0x7E || b == 0x2F;
        if safe {
            out.push(b as char);
        } else {
            push_percent_byte(&mut out, b);
        }
        i += 1;
    }
    assert(bytes@.take(bytes.len() as int) =~= bytes@);
    string_of(&out)
}

/// The value of a hexadecimal digit, upper or lower case.
pub open spec fn hex_value(c: char) -> Option<u8> {
    let n = c as u32;
    if 0x30 <= n <= 0x39 {
        Some((n - 0x30) as u8)
    } else if 0x41 <= n <= 0x46 {
        Some((n - 0x41 + 10) as u8)
    } else if 0x61 <= n <= 0x66 {
        Some((n - 0x61 + 10) as u8)
    } else {
        None
    }
}

/// The bytes that an encoded address stands for, from index `i` on: `%` with
/// two hexadecimal digits stands for one byte, every other byte for itself.
pub open spec fn percent_decoded_from(bytes: Seq<u8>, i: int) -> Seq<u8>
    decreases bytes.len() - i,
{
    if i < 0 || i >= bytes.len() {
        Seq::empty()
    } else if bytes[i] == 0x25 && i + 2 < bytes.len() && hex_value(bytes[i + 1] as char) is Some
        && hex_value(bytes[i + 2] as char) is Some {
        seq![
            (hex_value(bytes[i + 1] as char)->0 * 16 + hex_value(bytes[i + 2] as char)->0) as u8,
        ] + percent_decoded_from(bytes, i + 3)
    } else {
        seq![bytes[i]] + percent_decoded_from(bytes, i + 1)
    }
}

fn hex_value_of(b: u8) -> (r: Option<u8>)
    ensures
        r == hex_value(b as char),
        r matches Some(v) ==> v < 16,
{
    if 0x30 <= b && b <= 0x39 {
        Some(b - 0x30)
    } else if 0x41 <= b && b <= 0x46 {
        Some(b - 0x41 + 10)
    } else if 0x61 <= b && b <= 0x66 {
        Some(b - 0x61 + 10)
    } else {
        None
    }
}

/// Decodes the percent-encoding of an address into the bytes it stands for.
pub fn decode_from_url(s: &str) -> (r: Vec<u8>)
    ensures
        r@ == percent_decoded_from(encode_utf8(s@), 0),
{
    let bytes = s.as_bytes();
    let mut out: Vec<u8> = Vec::new();
    let mut i: usize = 0;
    while i < bytes.len()
        invariant
            i <= bytes.len(),
            bytes@ == encode_utf8(s@),
            out@ + percent_decoded_from(bytes@, i as int) == percent_decoded_from(bytes@, 0),
        decreases bytes.len() - i,
    {
        let ghost before = out@;
        let mut decoded: Option<u8> = None;
        if bytes[i] == 0x25 && bytes.len() - i > 2 {
            match (hex_value_of(bytes[i + 1]), hex_value_of(bytes[i + 2])) {
                (Some(hi), Some(lo)) => {
                    decoded = Some(hi * 16 + lo);
                },
                _ => {},
            }
        }
        match decoded {
            Some(b) => {
                out.push(b);
                i += 3;
                assert(before.push(b) + percent_decoded_from(bytes@, i as int) =~= before + (seq![b]
                    + percent_decoded_from(bytes@, i as int)));
            },
            None => {
                out.push(bytes[i]);
                i += 1;
                assert(before.push(bytes@[i - 1]) + percent_decoded_from(bytes@, i as int)
                    =~= before + (seq![bytes@[i - 1]] + percent_decoded_from(bytes@, i as int)));
            },
        }
    }
    assert(out@ + Seq::<u8>::empty() =~= out@);
    out
}

/// The characters that a query value may not hold as they are.
pub open spec fn is_reserved(c: char) -> bool {
    ||| c == ':'
    ||| c == '/'
    ||| c == '?'
    ||| c == '#'
    ||| c == '['
    ||| c == ']'
    ||| c == '@'
    ||| c == '!'
    ||| c == '$'
    ||| c == '&'
    ||| c == '\''
    ||| c == '('
    ||| c == ')'
    ||| c == '*'
    ||| c == '+'
    ||| c == ','
    ||| c == ';'
    ||| c == '='
    ||| c == '%'
}

/// `s` with its reserved characters percent-encoded.
pub open spec fn reserved_encoded(s: Seq<char>) -> Seq<char>
    decreases s.len(),
{
    if s.len() == 0 {
        Seq::empty()
    } else if is_reserved(s.last()) {
        reserved_encoded(s.drop_last()) + percent_byte(s.last() as u8)
    } else {
        reserved_encoded(s.drop_last()).push(s.last())
    }
}

/// Percent-encodes the reserved characters of a query value.
pub fn url_encode(s: &str) -> (r: String)
    ensures
        r@ == reserved_encoded(s@),
{
    let v = chars_of(s);
    let mut out: Vec<char> = Vec::new();
    let mut i: usize = 0;
    assert(v@.take(0) =~= Seq::<char>::empty());
    while i < v.len()
        invariant
            i <= v.len(),
            out@ == reserved_encoded(v@.take(i as int)),
        decreases v.len() - i,
    {
        assert(v@.take(i + 1).drop_last() =~= v@.take(i as int));
        let c = v[i];
        let reserved = c == ':' || c == '/' || c == '?' || c == '#' || c == '[' || c == ']' || c
            == '@' || c == '!' || c == '$' || c == '&' || c == '\'' || c == '(' || c == ')' || c
            == '*' || c == '+' || c == ',' || c == ';' || c == '=' || c == '%';
        if reserved {
            push_percent_byte(&mut out, c as u8);
        } else {
            out.push(c);
        }
        i += 1;
    }
    assert(v@.take(v.len() as int) =~= v@);
    string_of(&out)
}

} // verus!
