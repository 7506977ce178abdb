//! The outside services the ledger relies on: SHA-256 and the system clock.
use sha2::{Digest, Sha256};
use vstd::prelude::*;

verus! {

/// The lowercase hexadecimal SHA-256 digest of the UTF-8 encoding of `s`.
pub uninterp spec fn sha256_hex(s: Seq<char>) -> Seq<char>;

/// Relies on sha2's `Sha256::digest` over the UTF-8 bytes of `s`, written out
/// with `{:x}` (generic-array's `LowerHex`): the 32 digest bytes as two
/// lowercase hex digits each, so 64 characters.
#[verifier::external_body]
pub(crate) fn sha256_hex_of(s: &str) -> (r: String)
    ensures
        r@ == sha256_hex(s@),
        r@.len() == 64,
{
    format!("{:x}", Sha256::digest(s.as_bytes()))
}

/// Relies on std's `SystemTime::now` measured from `UNIX_EPOCH`: whole seconds
/// since the epoch. Nothing is promised of the value. A clock set before the
/// epoch is a broken host, and the process stops there.
#[verifier::external_body]
pub(crate) fn now_secs() -> (r: u64) {
    std::time::SystemTime::now()
        .duration_since(std::time::UNIX_EPOCH)
        .expect("system clock is set before the Unix epoch")
        .as_secs()
}

} // verus!
