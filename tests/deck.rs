use blackjack_table::card::{Card, Suit, Value};
use blackjack_table::deck::Deck;

#[test]
fn new_deck_has_52_distinct_standard_cards() {
    let mut deck = Deck::new();
    assert_eq!(deck.len(), 52);
    let mut seen: Vec<Card> = Vec::new();
    while let Some(card) = deck.draw() {
        assert!(card.suit != Suit::Hidden && card.value != Value::Hidden);
        assert!(!seen.contains(&card));
        seen.push(card);
    }
    assert_eq!(seen.len(), 52);
    assert!(deck.draw().is_none());
}

#[test]
fn shuffled_deck_draws_distinct_cards_then_runs_out() {
    let mut deck = Deck::new();
    deck.shuffle();
    assert_eq!(deck.len(), 52);
    let mut seen: Vec<Card> = Vec::new();
    for _ in 0..52 {
        let card = deck.draw().unwrap();
        assert!(!seen.contains(&card));
        seen.push(card);
    }
    assert_eq!(deck.len(), 0);
    assert!(deck.draw().is_none());
}

#[test]
fn from_cards_draws_from_the_end() {
    let cards = vec![
        Card::new(Suit::Spade, Value::Two),
        Card::new(Suit::Heart, Value::Three),
    ];
    let mut deck = Deck::from_cards(cards).unwrap();
    assert_eq!(deck.draw(), Some(Card::new(Suit::Heart, Value::Three)));
    assert_eq!(deck.draw(), Some(Card::new(Suit::Spade, Value::Two)));
    assert_eq!(deck.draw(), None);
}

#[test]
fn from_cards_refuses_duplicates_and_hidden_cards() {
    let twice = vec![Card::new(Suit::Spade, Value::Two), Card::new(Suit::Spade, Value::Two)];
    assert!(Deck::from_cards(twice).is_none());
    assert!(Deck::from_cards(vec![Card::new_hidden()]).is_none());
}
