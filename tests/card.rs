use blackjack_table::card::{Card, Suit, Value};
use std::str::FromStr;

#[test]
fn card_test_parse_card() {
    let card = Card::from_str("SA").unwrap();
    assert_eq!(card.suit, Suit::Spade);
    assert_eq!(card.value, Value::Ace);

    let card = Card::from_str("H10").unwrap();
    assert_eq!(card.suit, Suit::Heart);
    assert_eq!(card.value, Value::Ten);
}

#[test]
fn test_parse_card() {
    let card = Card::from_str("SA").unwrap();
    assert_eq!(card.suit, Suit::Spade);
    assert_eq!(card.value, Value::Ace);

    let card = Card::from_str("H10").unwrap();
    assert_eq!(card.suit, Suit::Heart);
    assert_eq!(card.value, Value::Ten);
}
