//! SHA-256 checksums of downloaded archives, as lower-case hexadecimal text.

use vstd::prelude::*;
use sha2::Digest;

verus! {

/// The SHA-256 digest of `data` as computed by the `sha2` crate.
pub uninterp spec fn sha256_of(data: Seq<u8>) -> Seq<u8>;

/// The hexadecimal digit (lower case) for a value below 16.
pub open spec fn hex_digit(n: int) -> char {
    if n < 10 {
        (48 + n) as char
    } else {
        (87 + n) as char
    }
}

/// Lower-case hexadecimal text of `data`: two digits per byte, high nibble first.
pub open spec fn hex_lower(data: Seq<u8>) -> Seq<char>
    decreases data.len(),
{
    if data.len() == 0 {
        Seq::empty()
    } else {
        seq![hex_digit(data[0] as int / 16), hex_digit(data[0] as int % 16)] + hex_lower(data.drop_first())
    }
}

/// The checksum text recorded for a file with contents `data`.
pub open spec fn checksum_of(data: Seq<u8>) -> Seq<char> {
    hex_lower(sha256_of(data))
}

/// Calls `sha2::Sha256::digest`. Trusted: the result is the SHA-256 digest of
/// `data` (named `sha256_of`), 32 bytes long as the algorithm fixes.
#[verifier::external_body]
fn sha256_digest(data: &[u8]) -> (r: Vec<u8>)
    ensures
        r@ == sha256_of(data@),
        r@.len() == 32,
{
    sha2::Sha256::digest(data).to_vec()
}

/// Calls `hex::encode`. Trusted: the crate maps each byte to two lower-case
/// hexadecimal digits, high nibble first (`hex_lower`).
#[verifier::external_body]
fn hex_encode(data: &[u8]) -> (r: String)
    ensures
        r@ == hex_lower(data@),
{
    hex::encode(data)
}

/// The SHA-256 checksum of `data`, in lower-case hexadecimal.
pub fn hash(data: &[u8]) -> (r: String)
    ensures
        r@ == checksum_of(data@),
        r@.len() == 64,
{
    let digest = sha256_digest(data);
    let r = hex_encode(digest.as_slice());
    proof {
        lemma_hex_lower_len(digest@);
    }
    r
}

/// Hexadecimal text has two digits per byte.
pub proof fn lemma_hex_lower_len(data: Seq<u8>)
    ensures
        hex_lower(data).len() == 2 * data.len(),
    decreases data.len(),
{
    if data.len() > 0 {
        lemma_hex_lower_len(data.drop_first());
    }
}

} // verus!
