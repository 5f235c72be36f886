use eth_bridge::ethereum::BlockData;
use eth_bridge::ethereum::EthereumData;
use eth_bridge::ethereum::EthereumHeader;
use eth_bridge::ethereum::Ledger;
use eth_bridge::H256;
use parity_codec::Encode;

fn bare_block(number: u64) -> BlockData {
    let header: EthereumHeader<H256, u64, u64> = EthereumHeader {
        hash: [0u8; 32],
        parent_hash: [0u8; 32],
        uncles_hash: [0u8; 32],
        author: Vec::new(),
        state_root: [0u8; 32],
        transactions_root: [0u8; 32],
        receipts_root: [0u8; 32],
        number,
        gas_used: 0,
        gas_limit: 0,
        extra_data: Vec::new(),
        logs_bloom: Vec::new(),
        timestamp: 0,
        difficulty: Vec::new(),
        mix_hash: [0u8; 32],
        nonce: Vec::new(),
    };
    EthereumData { header, txs: Vec::new() }
}

#[test]
fn label_wire_form_is_the_length_prefixed_bytes() {
    let encoded = ("ethereum").encode();
    assert_eq!(
        encoded,
        vec![0x20, b'e', b't', b'h', b'e', b'r', b'e', b'u', b'm'],
    );
}

#[test]
fn token_id_is_the_blake2b_digest_of_the_encoded_label() {
    let mut l = Ledger::new();
    assert_eq!(l.init(bare_block(100)), Ok(()));
    let id = l.token_of_nonce(0).unwrap().id;
    let digest = blake2_rfc::blake2b::blake2b(32, &[], &("ethereum").encode());
    assert_eq!(id.as_slice(), digest.as_bytes());
    assert_ne!(id, [0u8; 32]);
}

#[test]
fn snapshots_carry_the_token_id() {
    let mut l = Ledger::new();
    assert_eq!(l.init(bare_block(100)), Ok(()));
    let mut data = bare_block(101);
    data.txs.push(eth_bridge::ethereum::EthereumTx {
        hash: [0u8; 32],
        nonce: 0,
        block_hash: [0u8; 32],
        block_number: 0,
        transactions_index: 0,
        from: Vec::new(),
        to: Vec::new(),
        value: 3,
        gas_price: 0,
        gas: 0,
        input: Vec::new(),
    });
    assert_eq!(l.record_header(9, data), Ok(()));
    let id = l.token_of_nonce(0).unwrap().id;
    assert_eq!(l.token_of_nonce(1).unwrap().id, id);
    assert_eq!(l.states_of_owner((9, 1)).unwrap().token, id);
}
