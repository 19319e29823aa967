//! The digest the audit chain and the API keys rest on.

use vstd::prelude::*;

verus! {

/// The lower-case hex SHA-256 digest of a text's UTF-8 bytes. The digest
/// is a function of the characters alone; its value is not spelled out
/// here, the sha2 crate computes it.
pub uninterp spec fn sha256_hex_of(s: Seq<char>) -> Seq<char>;

/// Relies on sha2's `Sha256` (one `digest` call) and hex's `encode`: the
/// lower-case hex form of the 32-byte SHA-256 digest of the input's UTF-8
/// bytes, 64 hex characters long, the same for equal inputs everywhere.
#[verifier::external_body]
pub fn sha256_hex(s: &str) -> (r: String)
    ensures
        r@ == sha256_hex_of(s@),
        r@.len() == 64,
{
    hex::encode(<sha2::Sha256 as sha2::Digest>::digest(s.as_bytes()))
}

} // verus!
