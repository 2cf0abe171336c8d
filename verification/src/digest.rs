//! SHA-256, as raw bytes and as the lower-case hexadecimal text used for
//! fingerprints and block hashes.

use rsa::sha2::{Digest, Sha256};
use vstd::prelude::*;

verus! {

/// The SHA-256 digest of a byte string.
pub uninterp spec fn sha256(data: Seq<u8>) -> Seq<u8>;

/// The sixteen hexadecimal digits, lower case.
pub open spec fn hex_digit(v: int) -> char {
    if v == 0 {
        '0'
    } else if v == 1 {
        '1'
    } else if v == 2 {
        '2'
    } else if v == 3 {
        '3'
    } else if v == 4 {
        '4'
    } else if v == 5 {
        '5'
    } else if v == 6 {
        '6'
    } else if v == 7 {
        '7'
    } else if v == 8 {
        '8'
    } else if v == 9 {
        '9'
    } else if v == 10 {
        'a'
    } else if v == 11 {
        'b'
    } else if v == 12 {
        'c'
    } else if v == 13 {
        'd'
    } else if v == 14 {
        'e'
    } else {
        'f'
    }
}

/// Two lower-case hexadecimal digits per byte, high nibble first.
pub open spec fn lower_hex(bytes: Seq<u8>) -> Seq<char> {
    Seq::new(
        2 * bytes.len(),
        |i: int|
            if i % 2 == 0 {
                hex_digit(bytes[i / 2] as int / 16)
            } else {
                hex_digit(bytes[i / 2] as int % 16)
            },
    )
}

/// The SHA-256 digest of a byte string in hexadecimal.
pub open spec fn sha256_hex(data: Seq<u8>) -> Seq<char> {
    lower_hex(sha256(data))
}

/// Calls `Sha256::digest` of the `sha2` crate and copies the digest out: an
/// array of 32 bytes.
#[verifier::external_body]
pub(crate) fn sha256_bytes(data: &[u8]) -> (res: Vec<u8>)
    ensures
        res@ == sha256(data@),
        res@.len() == 32,
{
    Sha256::digest(data).to_vec()
}

/// Calls `sha256::digest` on a byte slice, which hashes the bytes with
/// `Sha256::digest` and hex-encodes the result in lower case.
#[verifier::external_body]
pub(crate) fn sha256_text(data: &[u8]) -> (res: String)
    ensures
        res@ == sha256_hex(data@),
{
    sha256::digest(data)
}

} // verus!
