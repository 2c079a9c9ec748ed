//! Content hashing: a byte sequence is digested with SHA-256 and the
//! digest reported as lowercase hexadecimal text.
use vstd::prelude::*;

use sha2::Digest;

verus! {

/// The sixteen lowercase hexadecimal digits, in value order.
pub open spec fn hex_chars() -> Seq<char> {
    seq!['0', '1', '2', '3', '4', '5', '6', '7', '8', '9', 'a', 'b', 'c', 'd', 'e', 'f']
}

/// The lowercase hexadecimal encoding of a byte sequence: two digits per
/// byte, high nibble first.
pub open spec fn hex_lower_of(bs: Seq<u8>) -> Seq<char> {
    Seq::new(
        bs.len() * 2,
        |i: int|
            if i % 2 == 0 {
                hex_chars()[(bs[i / 2] >> 4) as int]
            } else {
                hex_chars()[(bs[i / 2] & 0xf) as int]
            },
    )
}

/// The SHA-256 digest of a byte sequence.
pub uninterp spec fn sha256_of(bs: Seq<u8>) -> Seq<u8>;

/// Relies on sha2::Sha256 (Digest::digest): the digest is a function of
/// the input bytes alone and is 32 bytes long.
#[verifier::external_body]
fn sha256_digest(b: &Vec<u8>) -> (r: Vec<u8>)
    ensures
        r@ == sha256_of(b@),
        r@.len() == 32,
{
    sha2::Sha256::digest(b.as_slice()).to_vec()
}

/// Relies on data_encoding::HEXLOWER.encode: each byte becomes two
/// lowercase hexadecimal digits, high nibble first.
#[verifier::external_body]
fn hex_lower_encode(b: &Vec<u8>) -> (r: String)
    ensures
        r@ == hex_lower_of(b@),
{
    data_encoding::HEXLOWER.encode(b.as_slice())
}

/// The lowercase hexadecimal text of already-computed digest bytes,
/// for callers that stream their own data through a digest.
pub fn digest_to_hex(digest: &Vec<u8>) -> (r: String)
    ensures
        r@ == hex_lower_of(digest@),
{
    hex_lower_encode(digest)
}

/// The lowercase hexadecimal SHA-256 digest of the given file contents.
/// The host application streams the file's bytes in; the digest of what
/// was read is reported.
pub fn get_file_hash(content: &Vec<u8>) -> (r: Result<String, String>)
    ensures
        r matches Ok(h) && h@ == hex_lower_of(sha256_of(content@)),
{
    let digest = sha256_digest(content);
    Ok(hex_lower_encode(&digest))
}

} // verus!
