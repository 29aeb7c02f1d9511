//! The database encryption key: its length and the pragma that hands it to
//! SQLCipher.

use vstd::prelude::*;
use crate::db::error::DatabaseError;
use crate::text::concat_strs;

verus! {

/// The lowercase hexadecimal digit for `d < 16`.
pub open spec fn hex_lower(d: u8) -> char {
    if d < 10 {
        ((d + 48) as u8) as char
    } else {
        ((d + 87) as u8) as char
    }
}

/// Bytes written as lowercase hexadecimal, two digits per byte.
pub open spec fn hex_text(bytes: Seq<u8>) -> Seq<char>
    decreases bytes.len(),
{
    if bytes.len() == 0 {
        Seq::empty()
    } else {
        hex_text(bytes.drop_last()) + seq![hex_lower(bytes.last() / 16), hex_lower(bytes.last() % 16)]
    }
}

/// Writes bytes as lowercase hexadecimal (hex's `encode`, which writes the
/// high then the low nibble of each byte with `0123456789abcdef`).
#[verifier::external_body]
fn hex_encode(bytes: &[u8]) -> (r: String)
    ensures
        r@ == hex_text(bytes@),
{
    hex::encode(bytes)
}

/// The length an encryption key must have, in bytes.
pub const KEY_LEN: usize = 32;

/// Checks the key's length: 32 bytes, else an invalid key error.
pub fn check_key(key: &Vec<u8>) -> (r: Result<(), DatabaseError>)
    ensures
        key@.len() == 32 ==> r is Ok,
        key@.len() != 32 ==> r matches Err(DatabaseError::InvalidKey),
{
    if key.len() != KEY_LEN {
        return Err(DatabaseError::InvalidKey);
    }
    Ok(())
}

/// The value of SQLCipher's `key` pragma for a raw key: `"x'<hex>'"`.
pub fn key_pragma(key: &Vec<u8>) -> (r: String)
    ensures
        r@ == "\"x'"@ + hex_text(key@) + "'\""@,
{
    let h = hex_encode(key.as_slice());
    let a = concat_strs("\"x'", h.as_str());
    concat_strs(a.as_str(), "'\"")
}

} // verus!
