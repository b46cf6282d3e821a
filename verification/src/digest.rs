//! Content-derived identifiers: a SHA-256 digest written out in lower-case
//! hexadecimal.

use sha2::{Digest, Sha256};
use vstd::prelude::*;

verus! {

/// The SHA-256 digest of a message.
pub uninterp spec fn sha256(data: Seq<u8>) -> Seq<u8>;

/// Calls `sha2::Sha256::digest`, the one-shot form of the hasher: the bytes
/// returned are the SHA-256 digest of `data`.
#[verifier::external_body]
fn sha256_digest(data: &Vec<u8>) -> (res: Vec<u8>)
    ensures
        res@ == sha256(data@),
{
    Sha256::digest(data.as_slice()).to_vec()
}

/// `String::push` appends one character to the end of the string.
pub assume_specification[ String::push ](s: &mut String, ch: char)
    ensures
        final(s)@ == old(s)@.push(ch),
;

/// The lower-case hexadecimal digit of a value below sixteen.
pub open spec fn hex_digit(nibble: u8) -> char
    recommends
        nibble < 16,
{
    if nibble < 10 {
        (0x30 + nibble) as char
    } else {
        (0x57 + nibble) as char
    }
}

/// The character at position `i` of the hexadecimal rendering of `bytes`:
/// two digits per byte, the high half first.
pub open spec fn hex_char_at(bytes: Seq<u8>, i: int) -> char {
    if i % 2 == 0 {
        hex_digit(bytes[i / 2] / 16)
    } else {
        hex_digit(bytes[i / 2] % 16)
    }
}

/// The hexadecimal rendering of a byte string.
pub open spec fn hex_string(bytes: Seq<u8>) -> Seq<char> {
    Seq::new(2 * bytes.len(), |i: int| hex_char_at(bytes, i))
}

fn hex_digit_of(nibble: u8) -> (res: char)
    requires
        nibble < 16,
    ensures
        res == hex_digit(nibble),
{
    if nibble < 10 {
        (0x30 + nibble) as char
    } else {
        (0x57 + nibble) as char
    }
}

/// Writes `bytes` in lower-case hexadecimal.
pub fn to_hex(bytes: &Vec<u8>) -> (res: String)
    ensures
        res@ == hex_string(bytes@),
{
    let mut out = String::new();
    let mut i: usize = 0;
    while i < bytes.len()
        invariant
            i <= bytes.len(),
            out@.len() == 2 * i,
            forall|k: int| 0 <= k < 2 * i ==> out@[k] == hex_char_at(bytes@, k),
        decreases bytes.len() - i,
    {
        let b = bytes[i];
        out.push(hex_digit_of(b / 16));
        out.push(hex_digit_of(b % 16));
        i += 1;
    }
    assert(out@ =~= hex_string(bytes@));
    out
}

/// The identifier of a message: its SHA-256 digest in hexadecimal.
pub open spec fn spec_content_id(data: Seq<u8>) -> Seq<char> {
    hex_string(sha256(data))
}

/// Computes the identifier of a message.
pub fn content_id(data: &Vec<u8>) -> (res: String)
    ensures
        res@ == spec_content_id(data@),
{
    let digest = sha256_digest(data);
    to_hex(&digest)
}

} // verus!
