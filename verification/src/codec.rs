//! Hexadecimal encoding and the digests the library relies on.
//!
//! The hex helpers call the `hex` crate; the digests call `sha1` and `sha2`.
//! Digest values are named (`sha1_of`, `sha256_of`): only their length is stated.

use vstd::prelude::*;

verus! {

/// The hex digit for `n < 16`, lower case when `upper` is false.
pub open spec fn hex_digit(n: u8, upper: bool) -> char {
    if n < 10 {
        ((n + 48) as u8) as char
    } else if upper {
        ((n + 55) as u8) as char
    } else {
        ((n + 87) as u8) as char
    }
}

/// Two hex digits per byte, high nibble first.
pub open spec fn hex_of(s: Seq<u8>, upper: bool) -> Seq<char>
    decreases s.len(),
{
    if s.len() == 0 {
        seq![]
    } else {
        hex_of(s.drop_last(), upper) + seq![hex_digit(s.last() / 16, upper), hex_digit(s.last() % 16, upper)]
    }
}

pub proof fn lemma_hex_of_len(s: Seq<u8>, upper: bool)
    ensures
        hex_of(s, upper).len() == 2 * s.len(),
    decreases s.len(),
{
    if s.len() > 0 {
        lemma_hex_of_len(s.drop_last(), upper);
    }
}

/// The value of a hex digit character, if it is one (either case).
pub open spec fn hex_value(c: char) -> Option<u8> {
    if '0' <= c && c <= '9' {
        Some(((c as u32) - 48) as u8)
    } else if 'a' <= c && c <= 'f' {
        Some(((c as u32) - 87) as u8)
    } else if 'A' <= c && c <= 'F' {
        Some(((c as u32) - 55) as u8)
    } else {
        None
    }
}

pub open spec fn is_hex_char(c: char) -> bool {
    hex_value(c) is Some
}

/// `hex::decode`: pairs of hex digits, high nibble first; `None` for an odd
/// number of characters or any non-hex character.
pub open spec fn hex_decoded(s: Seq<char>) -> Option<Seq<u8>>
    decreases s.len(),
{
    if s.len() % 2 != 0 {
        None
    } else if s.len() == 0 {
        Some(seq![])
    } else {
        let hi = hex_value(s[s.len() - 2]);
        let lo = hex_value(s[s.len() - 1]);
        match (hex_decoded(s.subrange(0, s.len() - 2)), hi, lo) {
            (Some(prefix), Some(h), Some(l)) => Some(prefix.push((h * 16 + l) as u8)),
            _ => None,
        }
    }
}

/// `hex::encode`: lower-case hex of `data`.
#[verifier::external_body]
pub(crate) fn hex_encode(data: &[u8]) -> (r: String)
    ensures
        r@ == hex_of(data@, false),
{
    hex::encode(data)
}

/// `hex::encode_upper`: upper-case hex of `data`.
#[verifier::external_body]
pub(crate) fn hex_encode_upper(data: &[u8]) -> (r: Vec<u8>)
    ensures
        r@ == hex_of(data@, true).map_values(|c: char| c as u8),
{
    hex::encode_upper(data).into_bytes()
}

/// `hex::decode`: the bytes that `s` spells in hex, `None` where `hex::decode` errs.
#[verifier::external_body]
pub(crate) fn hex_decode(s: &str) -> (r: Option<Vec<u8>>)
    ensures
        match r {
            Some(v) => hex_decoded(s@) == Some(v@),
            None => hex_decoded(s@) is None,
        },
{
    hex::decode(s).ok()
}

/// The SHA-1 digest of a byte string.
pub uninterp spec fn sha1_of(data: Seq<u8>) -> Seq<u8>;

/// The SHA-256 digest of a byte string.
pub uninterp spec fn sha256_of(data: Seq<u8>) -> Seq<u8>;

/// `sha1::Sha1::digest`: the SHA-1 digest of `data`, 20 bytes.
#[verifier::external_body]
pub(crate) fn sha1_digest(data: &[u8]) -> (r: Vec<u8>)
    ensures
        r@ == sha1_of(data@),
        r@.len() == 20,
{
    <sha1::Sha1 as sha1::Digest>::digest(data).to_vec()
}

/// `sha2::Sha256::digest`: the SHA-256 digest of `data`, 32 bytes.
#[verifier::external_body]
pub(crate) fn sha256_digest(data: &[u8]) -> (r: Vec<u8>)
    ensures
        r@ == sha256_of(data@),
        r@.len() == 32,
{
    <sha2::Sha256 as sha2::Digest>::digest(data).to_vec()
}

} // verus!
