//! Per-account balance snapshots: each mutation that touches an owner appends
//! a new `State` under the owner's next nonce; earlier snapshots are never
//! rewritten.
use crate::H256;
use vstd::prelude::*;

verus! {

/// One immutable balance snapshot of an account, keyed by `(owner, nonce)`.
#[derive(Clone, Copy)]
pub struct State {
    /// Per-owner version counter; the owner's first snapshot carries nonce 1.
    pub nonce: u64,
    /// Identifier of the wrapped token this balance is held in.
    pub token: H256,
    /// The account that holds the balance.
    pub owner: u64,
    /// The balance recorded by this snapshot.
    pub amount: u64,
}

impl State {
    pub fn new(nonce: u64, token_id: H256, owner: u64, amount: u64) -> (r: Self)
        ensures
            r.nonce == nonce,
            r.token == token_id,
            r.owner == owner,
            r.amount == amount,
    {
        let new_state = State { nonce, token: token_id, owner, amount };
        new_state
    }
}

} // verus!
