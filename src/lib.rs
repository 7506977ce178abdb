//! A small proof-of-work ledger: signed value transfers wait in a pool, are
//! gathered into hash-linked blocks mined by nonce search, and balances are
//! computed by replaying the whole history.
use vstd::prelude::*;

pub mod decimal;
pub mod hashing;
pub mod transaction;
pub mod block;
pub mod blockchain;
pub mod ledger;

verus! {

} // verus!
