//! Versions of the wrapped-token supply: every mint or burn appends a new
//! `Token` under the next token nonce; earlier versions are never rewritten.
use crate::H256;
use vstd::prelude::*;

verus! {

/// One immutable version of the global token supply, keyed by its nonce.
#[derive(Clone, Copy)]
pub struct Token {
    /// Identifier of the token; derived once from the label "ethereum".
    pub id: H256,
    /// Supply-version counter; the baseline written at initialization is 0.
    pub nonce: u64,
    /// Deposit counter carried unchanged from version to version.
    pub deposit: u64,
    /// Total wrapped value currently outstanding.
    pub issued: u64,
}

impl Token {
    pub fn new(token_id: H256, nonce: u64, deposit: u64, issued: u64) -> (r: Self)
        ensures
            r.id == token_id,
            r.nonce == nonce,
            r.deposit == deposit,
            r.issued == issued,
    {
        let new_token = Token { id: token_id, nonce, deposit, issued };
        new_token
    }
}

} // verus!
