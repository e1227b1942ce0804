//! The hash that names every sticker's thumbnail: SHA-256 of the sticker's path,
//! written as lower-case hexadecimal.
use vstd::prelude::*;
use sha2::Digest;

verus! {

/// The SHA-256 digest of a byte sequence.
pub uninterp spec fn sha256(data: Seq<u8>) -> Seq<u8>;

/// The lower-case hexadecimal digit for a value below sixteen.
pub open spec fn hex_digit(v: u8) -> char {
    if v < 10 {
        (48 + v) as char
    } else {
        (87 + v) as char
    }
}

/// Two lower-case hexadecimal digits per byte, high nibble first.
pub open spec fn hex_lower(data: Seq<u8>) -> Seq<char>
    decreases data.len(),
{
    if data.len() == 0 {
        Seq::empty()
    } else {
        seq![hex_digit(data[0] >> 4u8), hex_digit(data[0] & 0x0fu8)] + hex_lower(data.drop_first())
    }
}

/// The thumbnail name of a sticker path: `hex(sha256(utf8(path)))`.
pub open spec fn path_digest(path: Seq<char>) -> Seq<char> {
    hex_lower(sha256(vstd::utf8::encode_utf8(path)))
}

/// `sha2::Sha256::digest`: the 32-byte SHA-256 digest of `data`.
#[verifier::external_body]
fn sha256_digest(data: &[u8]) -> (r: Vec<u8>)
    ensures
        r@ == sha256(data@),
        r@.len() == 32,
{
    sha2::Sha256::digest(data).to_vec()
}

/// `hex::encode`: each byte as two lower-case hexadecimal digits, high nibble first.
#[verifier::external_body]
fn hex_encode(data: &[u8]) -> (r: String)
    ensures
        r@ == hex_lower(data@),
{
    hex::encode(data)
}

/// The lower-case hexadecimal SHA-256 of a path's UTF-8 bytes; thumbnails are
/// stored under this name.
pub fn path_hash(path: &str) -> (r: String)
    ensures
        r@ == path_digest(path@),
        r@.len() == 64,
{
    let digest = sha256_digest(path.as_bytes());
    let r = hex_encode(digest.as_slice());
    proof {
        lemma_hex_len(digest@);
    }
    r
}

/// Hexadecimal text is twice as long as its bytes.
pub proof fn lemma_hex_len(data: Seq<u8>)
    ensures
        hex_lower(data).len() == 2 * data.len(),
    decreases data.len(),
{
    if data.len() > 0 {
        lemma_hex_len(data.drop_first());
    }
}

} // verus!
