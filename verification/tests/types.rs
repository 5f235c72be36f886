use eth_bridge::state::State;
use eth_bridge::token::Token;

#[test]
fn state_new_records_its_fields() {
    let s = State::new(3, [7u8; 32], 42, 100);
    assert_eq!(s.nonce, 3);
    assert_eq!(s.token, [7u8; 32]);
    assert_eq!(s.owner, 42);
    assert_eq!(s.amount, 100);
}

#[test]
fn token_new_records_its_fields() {
    let t = Token::new([9u8; 32], 5, 2, 11);
    assert_eq!(t.id, [9u8; 32]);
    assert_eq!(t.nonce, 5);
    assert_eq!(t.deposit, 2);
    assert_eq!(t.issued, 11);
}
