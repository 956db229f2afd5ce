//! SHA-256 digests and their hexadecimal text.

use sha2::Digest;
use vstd::prelude::*;

verus! {

/// The SHA-256 digest of a byte string, as the `sha2` crate computes it.
pub uninterp spec fn sha256_of(data: Seq<u8>) -> Seq<u8>;

/// The number of bytes in a SHA-256 digest.
pub const DIGEST_BYTES: usize = 32;

/// The number of characters in the hexadecimal text of a SHA-256 digest.
pub const DIGEST_HEX_CHARS: usize = 64;

/// The lower-case hexadecimal digit with value `n`, for `0 <= n < 16`.
pub open spec fn hex_digit(n: int) -> char {
    seq!['0', '1', '2', '3', '4', '5', '6', '7', '8', '9', 'a', 'b', 'c', 'd', 'e', 'f'][n]
}

/// The lower-case hexadecimal text of a byte string: two digits for each byte,
/// the high half first.
pub open spec fn hex_of(bytes: Seq<u8>) -> Seq<char> {
    Seq::new(
        2 * bytes.len(),
        |i: int|
            if i % 2 == 0 {
                hex_digit(bytes[i / 2] as int / 16)
            } else {
                hex_digit(bytes[i / 2] as int % 16)
            },
    )
}

/// The hexadecimal text of the SHA-256 digest of `data`.
pub open spec fn hash_hex_of(data: Seq<u8>) -> Seq<char> {
    hex_of(sha256_of(data))
}

/// Computes a SHA-256 digest with `sha2::Sha256::digest`.
///
/// The contract names the digest `sha256_of(data)` and states that it is 32
/// bytes long, the output size that the `sha2` crate fixes for SHA-256. What the
/// digest's bytes are is not stated.
#[verifier::external_body]
pub(crate) fn sha256(data: &Vec<u8>) -> (out: Vec<u8>)
    ensures
        out@ == sha256_of(data@),
        out@.len() == DIGEST_BYTES,
{
    sha2::Sha256::digest(data).to_vec()
}

/// Renders bytes as text with `hex::encode`.
///
/// The contract states the whole result: every byte becomes two lower-case
/// hexadecimal digits, the high half first, in the order of the bytes.
#[verifier::external_body]
pub(crate) fn hex_encode(bytes: &Vec<u8>) -> (text: String)
    ensures
        text@ == hex_of(bytes@),
{
    hex::encode(bytes)
}

/// The hexadecimal text of the SHA-256 digest of `data`: 64 characters.
pub fn hash_hex(data: &Vec<u8>) -> (text: String)
    ensures
        text@ == hash_hex_of(data@),
        text@.len() == DIGEST_HEX_CHARS,
{
    let raw = sha256(data);
    hex_encode(&raw)
}

} // verus!
