use eth_bridge::ethereum::BlockData;
use eth_bridge::ethereum::Error;
use eth_bridge::ethereum::EthereumData;
use eth_bridge::ethereum::EthereumHeader;
use eth_bridge::ethereum::EthereumTx;
use eth_bridge::ethereum::Event;
use eth_bridge::ethereum::Ledger;
use eth_bridge::H256;

const A: u64 = 1;
const B: u64 = 2;

fn header(number: u64) -> EthereumHeader<H256, u64, u64> {
    EthereumHeader {
        hash: [0u8; 32],
        parent_hash: [0u8; 32],
        uncles_hash: [0u8; 32],
        author: Vec::new(),
        state_root: [0u8; 32],
        transactions_root: [0u8; 32],
        receipts_root: [0u8; 32],
        number,
        gas_used: 0,
        gas_limit: 0,
        extra_data: Vec::new(),
        logs_bloom: Vec::new(),
        timestamp: 0,
        difficulty: Vec::new(),
        mix_hash: [0u8; 32],
        nonce: Vec::new(),
    }
}

fn tx(value: u64) -> EthereumTx<H256, u64, u64> {
    EthereumTx {
        hash: [0u8; 32],
        nonce: 0,
        block_hash: [0u8; 32],
        block_number: 0,
        transactions_index: 0,
        from: Vec::new(),
        to: Vec::new(),
        value,
        gas_price: 0,
        gas: 0,
        input: Vec::new(),
    }
}

fn block(number: u64, values: &[u64]) -> BlockData {
    EthereumData { header: header(number), txs: values.iter().map(|v| tx(*v)).collect() }
}

/// A ledger after init at block 100, a mint of 5 + 7 to A at block 101, an
/// unlock of 4 by A and a remittance of 3 from A to B.
fn settled_ledger() -> Ledger {
    let mut l = Ledger::new();
    assert_eq!(l.init(block(100, &[])), Ok(()));
    assert_eq!(l.record_header(A, block(101, &[5, 7])), Ok(()));
    assert_eq!(l.unlock(A, 4), Ok(()));
    assert_eq!(l.remittance(A, B, 3), Ok(()));
    l
}

#[test]
fn init_writes_the_baseline() {
    let mut l = Ledger::new();
    assert!(!l.already());
    assert_eq!(l.init(block(100, &[])), Ok(()));
    assert!(l.already());
    assert_eq!(l.db_nonce(), 0);
    assert_eq!(l.last_token_nonce(), 0);
    let t = l.token_of_nonce(0).unwrap();
    assert_eq!(t.nonce, 0);
    assert_eq!(t.deposit, 0);
    assert_eq!(t.issued, 0);
    assert_eq!(l.nonce_of_data(), 100);
    assert_eq!(l.data_of_token(100).unwrap().header.number, 100);
    assert!(l.data_of_token(99).is_none());
    assert!(l.data_of_token(101).is_none());
    assert_eq!(l.emitted_events().as_slice(), &[Event::TokenUpdate(100)]);
    assert!(l.nonce_of_state(A).is_none());
}

#[test]
fn init_succeeds_exactly_once() {
    let mut l = Ledger::new();
    assert_eq!(l.init(block(100, &[])), Ok(()));
    assert_eq!(l.init(block(200, &[])), Err(Error::AlreadyInitialized));
    assert_eq!(l.nonce_of_data(), 100);
    assert_eq!(l.emitted_events().len(), 1);
}

#[test]
fn record_header_mints_to_the_submitter() {
    let mut l = Ledger::new();
    assert_eq!(l.init(block(100, &[])), Ok(()));
    assert_eq!(l.record_header(A, block(101, &[5, 7])), Ok(()));
    assert_eq!(l.db_nonce(), 1);
    assert_eq!(l.last_token_nonce(), 1);
    let t = l.token_of_nonce(1).unwrap();
    assert_eq!(t.nonce, 1);
    assert_eq!(t.issued, 12);
    assert_eq!(l.nonce_of_state(A), Some(1));
    let s = l.states_of_owner((A, 1)).unwrap();
    assert_eq!(s.owner, A);
    assert_eq!(s.nonce, 1);
    assert_eq!(s.amount, 12);
    assert_eq!(l.nonce_of_data(), 101);
    assert_eq!(l.data_of_token(101).unwrap().txs.len(), 2);
    assert_eq!(
        l.emitted_events().as_slice(),
        &[Event::TokenUpdate(100), Event::TokenUpdate(101), Event::Mint(A, 12)],
    );
}

#[test]
fn record_header_requires_the_next_block_number() {
    let mut l = Ledger::new();
    assert_eq!(l.init(block(100, &[])), Ok(()));
    assert_eq!(l.record_header(A, block(100, &[1])), Err(Error::InvalidBlockSequence));
    assert_eq!(l.record_header(A, block(103, &[1])), Err(Error::InvalidBlockSequence));
    assert_eq!(l.nonce_of_data(), 100);
    assert!(l.nonce_of_state(A).is_none());
    assert_eq!(l.emitted_events().len(), 1);
    assert_eq!(l.record_header(A, block(101, &[1])), Ok(()));
}

#[test]
fn operations_before_init_are_rejected() {
    let mut l = Ledger::new();
    assert_eq!(l.record_header(A, block(100, &[])), Err(Error::NotInitialized));
    assert_eq!(l.unlock(A, 1), Err(Error::NotInitialized));
    assert_eq!(l.remittance(A, B, 1), Err(Error::NotInitialized));
    assert!(!l.already());
    assert_eq!(l.emitted_events().len(), 0);
}

#[test]
fn unlock_burns_issued_supply() {
    let mut l = Ledger::new();
    assert_eq!(l.init(block(100, &[])), Ok(()));
    assert_eq!(l.record_header(A, block(101, &[5, 7])), Ok(()));
    assert_eq!(l.unlock(A, 4), Ok(()));
    assert_eq!(l.db_nonce(), 2);
    assert_eq!(l.last_token_nonce(), 2);
    let t = l.token_of_nonce(2).unwrap();
    assert_eq!(t.nonce, 2);
    assert_eq!(t.issued, 8);
    assert_eq!(l.nonce_of_state(A), Some(2));
    assert_eq!(l.states_of_owner((A, 2)).unwrap().amount, 8);
    assert_eq!(l.emitted_events().last(), Some(&Event::Burn(A, 8)));
}

#[test]
fn remittance_moves_value_and_keeps_issued() {
    let l = settled_ledger();
    assert_eq!(l.db_nonce(), 3);
    assert_eq!(l.nonce_of_state(A), Some(3));
    assert_eq!(l.states_of_owner((A, 3)).unwrap().amount, 5);
    assert_eq!(l.nonce_of_state(B), Some(1));
    assert_eq!(l.states_of_owner((B, 1)).unwrap().amount, 3);
    assert_eq!(l.last_token_nonce(), 2);
    assert_eq!(l.token_of_nonce(2).unwrap().issued, 8);
    assert_eq!(l.emitted_events().last(), Some(&Event::Remit(A, 5, B, 3)));
}

#[test]
fn self_remittance_is_an_explicit_no_op() {
    let mut l = settled_ledger();
    let events_before = l.emitted_events().len();
    assert_eq!(l.remittance(A, A, 5), Ok(()));
    assert_eq!(l.db_nonce(), 3);
    assert_eq!(l.nonce_of_state(A), Some(3));
    assert_eq!(l.states_of_owner((A, 3)).unwrap().amount, 5);
    assert_eq!(l.emitted_events().len(), events_before);
}

#[test]
fn self_remittance_still_requires_balance() {
    let mut l = settled_ledger();
    assert_eq!(l.remittance(A, A, 6), Err(Error::InsufficientBalance));
    assert_eq!(l.remittance(B, B, 4), Err(Error::InsufficientBalance));
}

#[test]
fn insufficient_balance_leaves_state_unchanged() {
    let mut l = settled_ledger();
    let events_before = l.emitted_events().len();
    assert_eq!(l.unlock(A, 6), Err(Error::InsufficientBalance));
    assert_eq!(l.remittance(A, B, 6), Err(Error::InsufficientBalance));
    assert_eq!(l.db_nonce(), 3);
    assert_eq!(l.nonce_of_state(A), Some(3));
    assert_eq!(l.states_of_owner((A, 3)).unwrap().amount, 5);
    assert_eq!(l.states_of_owner((B, 1)).unwrap().amount, 3);
    assert_eq!(l.last_token_nonce(), 2);
    assert_eq!(l.emitted_events().len(), events_before);
}

#[test]
fn missing_prior_state_is_rejected() {
    let mut l = settled_ledger();
    assert_eq!(l.unlock(77, 1), Err(Error::MissingPriorState));
    assert_eq!(l.remittance(77, A, 1), Err(Error::MissingPriorState));
}

#[test]
fn prior_snapshots_stay_retrievable_unchanged() {
    let l = settled_ledger();
    assert_eq!(l.states_of_owner((A, 1)).unwrap().amount, 12);
    assert_eq!(l.states_of_owner((A, 2)).unwrap().amount, 8);
    assert_eq!(l.states_of_owner((A, 3)).unwrap().amount, 5);
    assert_eq!(l.states_of_owner((B, 1)).unwrap().amount, 3);
    assert!(l.states_of_owner((A, 0)).is_none());
    assert!(l.states_of_owner((A, 4)).is_none());
    assert_eq!(l.token_of_nonce(0).unwrap().issued, 0);
    assert_eq!(l.token_of_nonce(1).unwrap().issued, 12);
    assert_eq!(l.token_of_nonce(2).unwrap().issued, 8);
    assert!(l.token_of_nonce(3).is_none());
}

#[test]
fn remittance_to_a_fresh_account_starts_its_history_at_one() {
    let mut l = Ledger::new();
    assert_eq!(l.init(block(100, &[])), Ok(()));
    assert_eq!(l.record_header(A, block(101, &[9])), Ok(()));
    assert_eq!(l.remittance(A, B, 9), Ok(()));
    assert_eq!(l.nonce_of_state(B), Some(1));
    assert_eq!(l.states_of_owner((B, 1)).unwrap().amount, 9);
    assert_eq!(l.states_of_owner((A, 2)).unwrap().amount, 0);
}

#[test]
fn locked_value_saturates_on_overflow() {
    let mut l = Ledger::new();
    assert_eq!(l.init(block(100, &[])), Ok(()));
    assert_eq!(l.record_header(A, block(101, &[u64::MAX, 1, 2])), Ok(()));
    assert_eq!(l.token_of_nonce(1).unwrap().issued, u64::MAX);
    assert_eq!(l.states_of_owner((A, 1)).unwrap().amount, u64::MAX);
}
