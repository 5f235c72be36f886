//! A cross-chain token ledger: external-chain block records are ingested in
//! strict sequence, the value locked in their transactions is minted as a
//! wrapped supply, and account holders move or redeem balances under
//! nonce-versioned, append-only state histories.
use vstd::prelude::*;

pub mod ethereum;
pub mod state;
pub mod store;
pub mod token;

verus! {

/// A 256-bit hash value, as the host ledger stores it.
pub type H256 = [u8; 32];

} // verus!
