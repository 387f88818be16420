//! Keys written as hexadecimal text, converted by the `hex` crate.
use vstd::prelude::*;

use hex::FromHexError;

verus! {

/// The `hex` crate's decoding error, carried opaque until it is mapped to `None`.
#[verifier::external_type_specification]
#[verifier::external_body]
pub struct ExFromHexError(FromHexError);

/// The value of a hexadecimal digit, either case.
pub open spec fn hex_val(c: char) -> Option<u8> {
    if '0' <= c && c <= '9' {
        Some((c as u32 - '0' as u32) as u8)
    } else if 'a' <= c && c <= 'f' {
        Some((c as u32 - 'a' as u32 + 10) as u8)
    } else if 'A' <= c && c <= 'F' {
        Some((c as u32 - 'A' as u32 + 10) as u8)
    } else {
        None
    }
}

/// `s` is an even number of hexadecimal digits.
pub open spec fn hex_decodable(s: Seq<char>) -> bool {
    s.len() % 2 == 0 && forall|i: int| 0 <= i < s.len() ==> (#[trigger] hex_val(s[i])) is Some
}

/// The bytes that the digit pairs of `s` stand for, high digit first.
pub open spec fn hex_decoded(s: Seq<char>) -> Seq<u8> {
    Seq::new(
        s.len() / 2,
        |i: int| (hex_val(s[2 * i])->Some_0 * 16 + hex_val(s[2 * i + 1])->Some_0) as u8,
    )
}

/// The lowercase digit for `n` (below 16).
pub open spec fn hex_digit(n: int) -> char {
    if n < 10 {
        ('0' as u32 + n) as char
    } else {
        ('a' as u32 + n - 10) as char
    }
}

/// Two lowercase digits per byte of `b`, high digit first.
pub open spec fn hex_encoded(b: Seq<u8>) -> Seq<char> {
    Seq::new(
        2 * b.len(),
        |i: int|
            if i % 2 == 0 {
                hex_digit(b[i / 2] as int / 16)
            } else {
                hex_digit(b[i / 2] as int % 16)
            },
    )
}

/// Relies on `hex::decode`: an even number of hexadecimal digits (either case) is
/// decoded pair by pair, high digit first; anything else is an error.
#[verifier::external_body]
fn decode_hex(s: &str) -> (r: Result<Vec<u8>, FromHexError>)
    ensures
        r is Ok <==> hex_decodable(s@),
        r matches Ok(v) ==> v@ == hex_decoded(s@),
{
    hex::decode(s)
}

/// Relies on `hex::encode`: two lowercase hexadecimal digits per byte.
#[verifier::external_body]
fn encode_hex(b: &[u8]) -> (r: String)
    ensures
        r@ == hex_encoded(b@),
{
    hex::encode(b)
}

/// The `N`-byte key that `hexstr` spells, or `None` when it is not `2 * N`
/// hexadecimal digits.
pub fn key_from_hex<const N: usize>(hexstr: &str) -> (r: Option<[u8; N]>)
    ensures
        r is Some <==> hex_decodable(hexstr@) && hexstr@.len() == 2 * N,
        r matches Some(k) ==> k@ == hex_decoded(hexstr@),
{
    match decode_hex(hexstr) {
        Ok(bytes) => {
            if bytes.len() == N {
                let k = crate::bytes::get_array::<N>(bytes.as_slice(), 0);
                assert(bytes@.subrange(0, N as int) =~= bytes@);
                Some(k)
            } else {
                None
            }
        },
        Err(_) => None,
    }
}

/// The key as lowercase hexadecimal digits, if there is a key.
pub fn key_to_hex<const N: usize>(key: Option<&[u8; N]>) -> (r: Option<String>)
    ensures
        key is None ==> r is None,
        key matches Some(k) ==> r matches Some(s) && s@ == hex_encoded(k@),
{
    match key {
        None => None,
        Some(k) => Some(encode_hex(k.as_slice())),
    }
}

} // verus!
