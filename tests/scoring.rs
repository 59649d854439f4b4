use blackjack_table::card::{Card, Suit, Value};
use blackjack_table::player::Player;
use blackjack_table::state::settle;

fn hand(values: &[Value]) -> Player {
    let mut p = Player::new("p".to_string());
    for v in values {
        p.add_card(Card::new(Suit::Club, *v));
    }
    p
}

#[test]
fn ace_and_king_make_21() {
    assert_eq!(hand(&[Value::Ace, Value::King]).get_score(), 21);
}

#[test]
fn two_aces_and_nine_make_21() {
    assert_eq!(hand(&[Value::Ace, Value::Ace, Value::Nine]).get_score(), 21);
}

#[test]
fn king_queen_five_bust_at_25() {
    assert_eq!(hand(&[Value::King, Value::Queen, Value::Five]).get_score(), 25);
}

#[test]
fn three_aces_and_eight_make_21() {
    assert_eq!(hand(&[Value::Ace, Value::Ace, Value::Ace, Value::Eight]).get_score(), 21);
}

#[test]
fn empty_hand_scores_zero() {
    assert_eq!(hand(&[]).get_score(), 0);
}

#[test]
fn hidden_card_counts_nothing() {
    let mut p = hand(&[Value::Ten]);
    p.add_card(Card::new_hidden());
    assert_eq!(p.get_score(), 10);
}

#[test]
fn card_points_and_ace_diff() {
    assert_eq!(Card::new(Suit::Heart, Value::Ace).get_score(true), 11);
    assert_eq!(Card::new(Suit::Heart, Value::Ace).get_score(false), 1);
    assert_eq!(Card::new(Suit::Heart, Value::Jack).get_score(true), 10);
    assert_eq!(Card::new(Suit::Heart, Value::Seven).get_score(false), 7);
    assert!(Card::new(Suit::Heart, Value::Ace).is_ace());
    assert!(!Card::new(Suit::Heart, Value::Two).is_ace());
    assert_eq!(Card::ace_diff(), 10);
}

#[test]
fn player_wager_and_hand() {
    let mut p = Player::new("alice".to_string());
    p.bet(10);
    p.bet(5);
    assert_eq!(p.get_amount(), 15);
    p.add_card(Card::new(Suit::Spade, Value::Two));
    p.add_card(Card::new(Suit::Spade, Value::Three));
    assert_eq!(p.get_hands(true)[1], Card::new_hidden());
    p.open_card(Card::new(Suit::Heart, Value::Four));
    assert_eq!(p.get_hands(false)[1], Card::new(Suit::Heart, Value::Four));
    p.clear();
    assert_eq!(p.get_amount(), 0);
    assert!(p.get_hands(false).is_empty());
    assert_eq!(p.name(), "alice");
}

#[test]
fn settle_win() {
    assert_eq!(settle(20, 18, 10), (20, 10));
}

#[test]
fn settle_player_bust() {
    assert_eq!(settle(22, 18, 10), (0, -10));
}

#[test]
fn settle_push() {
    assert_eq!(settle(19, 19, 10), (10, 0));
}

#[test]
fn settle_dealer_bust_pays_double() {
    assert_eq!(settle(12, 23, 10), (20, 10));
    assert_eq!(settle(21, 25, 7), (14, 7));
}

#[test]
fn settle_loss() {
    assert_eq!(settle(17, 20, 10), (0, -10));
}

#[test]
fn settle_largest_wager() {
    assert_eq!(settle(21, 20, u32::MAX), (2 * u32::MAX as u64, u32::MAX as i64));
}

#[test]
fn parse_rejects_bad_codes() {
    assert!(Card::parse("").is_err());
    assert!(Card::parse("S").is_err());
    assert!(Card::parse("ZA").is_err());
    assert!(Card::parse("S1").is_err());
    assert!(Card::parse("S11").is_err());
    assert_eq!(Card::parse("XX").unwrap(), Card::new_hidden());
    assert_eq!(Card::parse("CK").unwrap(), Card::new(Suit::Club, Value::King));
}
