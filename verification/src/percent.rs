//! Percent escapes, and the bytes that a text stands for once they are decoded.
//!
//! The grammar of IRIs asks of an escape that two hexadecimal digits follow the
//! percent sign, whatever byte they give. A comparison decodes the escapes and
//! reads the bytes as UTF-8, which not every IRI allows.

use vstd::prelude::*;
use vstd::string::*;
use vstd::utf8::{encode_utf8, valid_utf8};

verus! {

/// The value of a hexadecimal digit in ASCII.
pub open spec fn hex_value(digit: u8) -> Option<u8> {
    if 0x30 <= digit <= 0x39 {
        Some((digit - 0x30) as u8)
    } else if 0x41 <= digit <= 0x46 {
        Some((digit - 0x37) as u8)
    } else if 0x61 <= digit <= 0x66 {
        Some((digit - 0x57) as u8)
    } else {
        None
    }
}

/// `bytes` behind `first`, where there are bytes.
pub open spec fn prepended(first: u8, bytes: Option<Seq<u8>>) -> Option<Seq<u8>> {
    match bytes {
        Some(rest) => Some(seq![first] + rest),
        None => None,
    }
}

/// The bytes from `from` on with each escape replaced by the byte that it
/// gives. There are none where a percent sign is not followed by two
/// hexadecimal digits.
pub open spec fn unescaped(bytes: Seq<u8>, from: int) -> Option<Seq<u8>>
    decreases bytes.len() - from,
{
    if from < 0 || from >= bytes.len() {
        Some(Seq::empty())
    } else if bytes[from] != 0x25 {
        prepended(bytes[from], unescaped(bytes, from + 1))
    } else if from + 2 < bytes.len() {
        match (hex_value(bytes[from + 1]), hex_value(bytes[from + 2])) {
            (Some(high), Some(low)) => prepended(
                (16 * high + low) as u8,
                unescaped(bytes, from + 3),
            ),
            _ => None,
        }
    } else {
        None
    }
}

/// Whether the escapes of `text` can be decoded: each is a percent sign and two
/// hexadecimal digits, and with each replaced by its byte the text is UTF-8.
pub open spec fn decodable(text: Seq<char>) -> bool {
    unescaped(encode_utf8(text), 0) matches Some(bytes) && valid_utf8(bytes)
}

/// Calls `std::str::from_utf8`, which accepts exactly the byte sequences that
/// are UTF-8.
#[verifier::external_body]
fn is_utf8(bytes: &[u8]) -> (valid: bool)
    ensures
        valid == valid_utf8(bytes@),
{
    std::str::from_utf8(bytes).is_ok()
}

/// The value of a hexadecimal digit in ASCII.
pub fn hex_digit(digit: u8) -> (value: Option<u8>)
    ensures
        value == hex_value(digit),
        value matches Some(below) ==> below < 16,
{
    if 0x30 <= digit && digit <= 0x39 {
        Some(digit - 0x30)
    } else if 0x41 <= digit && digit <= 0x46 {
        Some(digit - 0x37)
    } else if 0x61 <= digit && digit <= 0x66 {
        Some(digit - 0x57)
    } else {
        None
    }
}

/// Whether the escapes of `text` can be decoded.
pub fn is_decodable(text: &str) -> (can: bool)
    ensures
        can == decodable(text@),
{
    let bytes = text.as_bytes();
    let mut decoded: Vec<u8> = Vec::new();
    let mut at: usize = 0;
    while at < bytes.len()
        invariant
            at <= bytes.len(),
            bytes@ == encode_utf8(text@),
            unescaped(bytes@, 0) == match unescaped(bytes@, at as int) {
                Some(rest) => Some(decoded@ + rest),
                None => None,
            },
        decreases bytes.len() - at,
    {
        let byte = bytes[at];
        if byte != 0x25 {
            proof {
                assert forall|rest: Seq<u8>| decoded@ + (seq![byte] + rest) == decoded@.push(byte)
                    + rest by {
                    assert(decoded@ + (seq![byte] + rest) =~= decoded@.push(byte) + rest);
                }
            }
            decoded.push(byte);
            at = at + 1;
        } else if bytes.len() - at > 2 {
            match (hex_digit(bytes[at + 1]), hex_digit(bytes[at + 2])) {
                (Some(high), Some(low)) => {
                    let given: u8 = 16 * high + low;
                    proof {
                        assert forall|rest: Seq<u8>| decoded@ + (seq![given] + rest)
                            == decoded@.push(given) + rest by {
                            assert(decoded@ + (seq![given] + rest) =~= decoded@.push(given) + rest);
                        }
                    }
                    decoded.push(given);
                    at = at + 3;
                },
                _ => {
                    return false;
                },
            }
        } else {
            return false;
        }
    }
    proof {
        assert(decoded@ + Seq::<u8>::empty() == decoded@);
    }
    is_utf8(decoded.as_slice())
}

} // verus!
