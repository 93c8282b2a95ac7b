//! Fingerprints of byte strings: SHA-256 from `sha2`, written out in
//! hexadecimal by `hex`.

use vstd::prelude::*;
use sha2::Digest;

verus! {

/// The SHA-256 digest of `data`.
pub uninterp spec fn sha256(data: Seq<u8>) -> Seq<u8>;

/// The character of a hexadecimal digit, in lower case.
pub open spec fn hex_digit(d: nat) -> char {
    if d == 0 {
        '0'
    } else if d == 1 {
        '1'
    } else if d == 2 {
        '2'
    } else if d == 3 {
        '3'
    } else if d == 4 {
        '4'
    } else if d == 5 {
        '5'
    } else if d == 6 {
        '6'
    } else if d == 7 {
        '7'
    } else if d == 8 {
        '8'
    } else if d == 9 {
        '9'
    } else if d == 10 {
        'a'
    } else if d == 11 {
        'b'
    } else if d == 12 {
        'c'
    } else if d == 13 {
        'd'
    } else if d == 14 {
        'e'
    } else {
        'f'
    }
}

/// Two lower-case hexadecimal digits for each byte, high digit first.
pub open spec fn hex_text(data: Seq<u8>) -> Seq<char>
    decreases data.len(),
{
    if data.len() == 0 {
        Seq::empty()
    } else {
        hex_text(data.drop_last()).push(hex_digit((data.last() / 16) as nat)).push(
            hex_digit((data.last() % 16) as nat),
        )
    }
}

/// The number of bytes of a digest that go into a fingerprint.
pub const FINGERPRINT_BYTES: usize = 16;

/// The first `n` bytes of `data`; all of it where it is shorter.
pub open spec fn leading(data: Seq<u8>, n: int) -> Seq<u8> {
    if data.len() <= n {
        data
    } else {
        data.subrange(0, n)
    }
}

/// A digest written as a fingerprint: its first sixteen bytes in
/// hexadecimal.
pub open spec fn digest_text(digest: Seq<u8>) -> Seq<char> {
    hex_text(leading(digest, FINGERPRINT_BYTES as int))
}

/// The fingerprint of a text: the first sixteen bytes of the SHA-256 digest
/// of its UTF-8 encoding, in hexadecimal.
pub open spec fn fingerprint(text: Seq<char>) -> Seq<char> {
    digest_text(sha256(vstd::utf8::encode_utf8(text)))
}

/// Calls `sha2::Sha256::digest`. The contract names the digest and states
/// its length, which the crate fixes at 32 bytes.
#[verifier::external_body]
pub(crate) fn sha256_of(data: &[u8]) -> (r: Vec<u8>)
    ensures
        r@ == sha256(data@),
        r@.len() == 32,
{
    sha2::Sha256::digest(data).to_vec()
}

/// Calls `hex::encode`: each byte becomes two lower-case hexadecimal digits.
#[verifier::external_body]
pub(crate) fn hex_encode(data: &[u8]) -> (r: String)
    ensures
        r@ == hex_text(data@),
{
    hex::encode(data)
}

/// Writes a digest as a fingerprint.
pub fn digest_text_of(digest: Vec<u8>) -> (r: String)
    ensures
        r@ == digest_text(digest@),
{
    let mut head = digest;
    head.truncate(FINGERPRINT_BYTES);
    assert(head@ =~= leading(digest@, FINGERPRINT_BYTES as int));
    hex_encode(head.as_slice())
}

/// The fingerprint of `text`.
pub fn fingerprint_of(text: &str) -> (r: String)
    ensures
        r@ == fingerprint(text@),
{
    digest_text_of(sha256_of(text.as_bytes()))
}

} // verus!
