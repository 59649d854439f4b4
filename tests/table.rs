use blackjack_table::card::{Card, Suit, Value};
use blackjack_table::deck::Deck;
use blackjack_table::identity::discord_id_to_i64;
use blackjack_table::state::{Effect, State, Status};
use blackjack_table::table::{Command, Response, Table, TableError, TimerOutcome};

fn c(suit: Suit, value: Value) -> Card {
    Card::new(suit, value)
}

/// A deck whose draws come in the given order.
fn deck_drawing(order: &[Card]) -> Deck {
    let mut cards: Vec<Card> = order.to_vec();
    cards.reverse();
    Deck::from_cards(cards).unwrap()
}

fn two_player_table() -> Table {
    // alice: K, 9; bob: 7, 8; dealer: 6 up, 5 hole; then 3 and 4 for the dealer.
    let deck = deck_drawing(&[
        c(Suit::Spade, Value::King),
        c(Suit::Heart, Value::Seven),
        c(Suit::Diamond, Value::Six),
        c(Suit::Club, Value::Nine),
        c(Suit::Spade, Value::Eight),
        c(Suit::Heart, Value::Five),
        c(Suit::Club, Value::Three),
        c(Suit::Diamond, Value::Four),
        c(Suit::Spade, Value::Two),
    ]);
    Table::with_deck(deck)
}

fn name(s: &str) -> String {
    s.to_string()
}

fn fold(state: &mut State, effects: &[Effect]) {
    for e in effects {
        assert!(state.can_apply(e));
        state.apply_effect(e.clone());
    }
}

fn same_view(a: &State, b: &State) {
    assert_eq!(a.get_player_order(), b.get_player_order());
    assert_eq!(a.get_amounts(), b.get_amounts());
    assert_eq!(a.get_status(), b.get_status());
    assert_eq!(a.get_dealer_hands(false), b.get_dealer_hands(false));
    for n in a.get_player_order() {
        assert_eq!(
            a.get_player(&n).unwrap().get_hands(false),
            b.get_player(&n).unwrap().get_hands(false)
        );
    }
}

#[test]
fn two_players_play_a_full_round() {
    let mut table = two_player_table();
    let mut observer = State::new();
    let mut apply = |table: &mut Table, observer: &mut State, cmd: Command| -> Vec<Effect> {
        let effects = table.apply_command(cmd).unwrap();
        fold(observer, &effects);
        effects
    };
    apply(&mut table, &mut observer, Command::Participate(name("alice")));
    apply(&mut table, &mut observer, Command::Participate(name("bob")));
    apply(&mut table, &mut observer, Command::Bet(name("alice"), 10));
    apply(&mut table, &mut observer, Command::Bet(name("bob"), 20));

    let started = match table.on_betting_timeout() {
        TimerOutcome::Started(effects) => effects,
        other => panic!("unexpected {:?}", other),
    };
    assert_eq!(
        started,
        vec![
            Effect::Start,
            Effect::Deal(
                vec![
                    (name("alice"), c(Suit::Spade, Value::King), c(Suit::Club, Value::Nine)),
                    (name("bob"), c(Suit::Heart, Value::Seven), c(Suit::Spade, Value::Eight)),
                ],
                c(Suit::Diamond, Value::Six),
                Card::new_hidden(),
            ),
            Effect::NextPlayer,
        ]
    );
    fold(&mut observer, &started);
    assert_eq!(table.state().get_status(), Status::Playing(0));

    let e = apply(&mut table, &mut observer, Command::Stand(name("alice")));
    assert_eq!(e, vec![Effect::NextPlayer]);
    let e = apply(&mut table, &mut observer, Command::Stand(name("bob")));
    assert_eq!(e, vec![Effect::NextPlayer]);
    assert!(table.is_dealer_turn());

    let dealer = table.auto_play().unwrap();
    assert_eq!(
        dealer,
        vec![
            Effect::OpenDealerCard(c(Suit::Heart, Value::Five)),
            Effect::AddDealerCard(c(Suit::Club, Value::Three)),
            Effect::AddDealerCard(c(Suit::Diamond, Value::Four)),
            Effect::Finish,
        ]
    );
    fold(&mut observer, &dealer);
    assert!(table.is_finished());
    assert_eq!(table.state().get_dealer_score(), 18);
    same_view(table.state(), &observer);

    let result = table.settlement().unwrap();
    assert_eq!(result, vec![(name("alice"), 20, 10), (name("bob"), 0, -20)]);
    assert_eq!(observer.get_result(), result);
}

#[test]
fn only_the_current_player_may_act() {
    let mut table = two_player_table();
    table.apply_command(Command::Participate(name("alice"))).unwrap();
    table.apply_command(Command::Participate(name("bob"))).unwrap();
    table.start().unwrap();
    assert_eq!(table.apply_command(Command::Hit(name("bob"))), Err(TableError::NotYourTurn));
    assert_eq!(table.apply_command(Command::Stand(name("bob"))), Err(TableError::NotYourTurn));
    assert_eq!(table.apply_command(Command::Hit(name("carol"))), Err(TableError::NotYourTurn));
    assert_eq!(table.state().get_status(), Status::Playing(0));
    assert_eq!(table.apply_command(Command::Stand(name("alice"))), Ok(vec![Effect::NextPlayer]));
    assert_eq!(table.apply_command(Command::Stand(name("alice"))), Err(TableError::NotYourTurn));
}

#[test]
fn hit_and_stand_before_the_deal_fail() {
    let mut table = two_player_table();
    table.apply_command(Command::Participate(name("alice"))).unwrap();
    assert_eq!(table.apply_command(Command::Hit(name("alice"))), Err(TableError::WrongPhase));
    assert_eq!(table.apply_command(Command::Stand(name("alice"))), Err(TableError::WrongPhase));
}

#[test]
fn timer_after_manual_start_does_nothing() {
    let mut table = two_player_table();
    table.apply_command(Command::Participate(name("alice"))).unwrap();
    table.start().unwrap();
    let order = table.get_player_order();
    assert!(matches!(table.on_betting_timeout(), TimerOutcome::Ignored));
    assert_eq!(table.get_player_order(), order);
    assert_eq!(table.state().get_status(), Status::Playing(0));
}

#[test]
fn timer_without_players_closes_the_table() {
    let mut table = Table::new();
    match table.on_betting_timeout() {
        TimerOutcome::Closed(effects) => assert_eq!(effects, vec![Effect::NoPlayer]),
        other => panic!("unexpected {:?}", other),
    }
    assert!(table.is_finished());
}

#[test]
fn betting_commands_are_checked() {
    let mut table = Table::new();
    assert_eq!(table.start(), Err(TableError::NoPlayers));
    assert_eq!(
        table.apply_command(Command::Participate(name("alice"))),
        Ok(vec![Effect::AddPlayer(name("alice"))])
    );
    assert_eq!(
        table.apply_command(Command::Participate(name("alice"))),
        Err(TableError::DuplicateName)
    );
    assert_eq!(table.apply_command(Command::Leave(name("bob"))), Err(TableError::UnknownPlayer));
    assert_eq!(table.apply_command(Command::Bet(name("bob"), 5)), Err(TableError::UnknownPlayer));
    assert_eq!(
        table.apply_command(Command::Bet(name("alice"), u32::MAX)),
        Ok(vec![Effect::Bet(name("alice"), u32::MAX)])
    );
    assert_eq!(
        table.apply_command(Command::Bet(name("alice"), 1)),
        Err(TableError::WagerTooLarge)
    );
    assert_eq!(table.apply_command(Command::Ping(name("alice"))), Ok(vec![]));
    assert_eq!(
        table.apply_command(Command::Leave(name("alice"))),
        Ok(vec![Effect::RemovePlayer(name("alice"))])
    );
    assert_eq!(table.get_player_count(), 0);
    assert_eq!(table.dealer_action(), Err(TableError::WrongPhase));
}

#[test]
fn commands_after_the_deal_are_refused() {
    let mut table = two_player_table();
    table.apply_command(Command::Participate(name("alice"))).unwrap();
    table.start().unwrap();
    assert!(table.is_started());
    assert_eq!(table.apply_command(Command::Participate(name("bob"))), Err(TableError::WrongPhase));
    assert_eq!(table.apply_command(Command::Leave(name("alice"))), Err(TableError::WrongPhase));
    assert_eq!(table.apply_command(Command::Bet(name("alice"), 1)), Err(TableError::WrongPhase));
    assert_eq!(table.start(), Err(TableError::WrongPhase));
}

#[test]
fn dealer_blackjack_ends_the_round_at_once() {
    // alice: 9, 8; dealer: A up, K hole.
    let deck = deck_drawing(&[
        c(Suit::Spade, Value::Nine),
        c(Suit::Heart, Value::Ace),
        c(Suit::Club, Value::Eight),
        c(Suit::Diamond, Value::King),
    ]);
    let mut table = Table::with_deck(deck);
    table.apply_command(Command::Participate(name("alice"))).unwrap();
    table.apply_command(Command::Bet(name("alice"), 10)).unwrap();
    let effects = table.start().unwrap();
    assert_eq!(
        effects,
        vec![
            Effect::Start,
            Effect::Deal(
                vec![(name("alice"), c(Suit::Spade, Value::Nine), c(Suit::Club, Value::Eight))],
                c(Suit::Heart, Value::Ace),
                c(Suit::Diamond, Value::King),
            ),
            Effect::DealerBlackjack,
            Effect::Finish,
        ]
    );
    assert!(table.is_finished());
    assert_eq!(table.settlement().unwrap(), vec![(name("alice"), 0, -10)]);
}

#[test]
fn bust_passes_the_turn() {
    // alice: K, Q; dealer: 9 up, 8 hole; alice then draws 5 and busts at 25.
    let deck = deck_drawing(&[
        c(Suit::Spade, Value::King),
        c(Suit::Heart, Value::Nine),
        c(Suit::Club, Value::Queen),
        c(Suit::Diamond, Value::Eight),
        c(Suit::Spade, Value::Five),
        c(Suit::Spade, Value::Ten),
    ]);
    let mut table = Table::with_deck(deck);
    let mut observer = State::new();
    let e = table.apply_command(Command::Participate(name("alice"))).unwrap();
    fold(&mut observer, &e);
    let e = table.start().unwrap();
    fold(&mut observer, &e);
    let e = table.apply_command(Command::Hit(name("alice"))).unwrap();
    assert_eq!(
        e,
        vec![
            Effect::AddCard(name("alice"), c(Suit::Spade, Value::Five)),
            Effect::Burst(name("alice")),
            Effect::NextPlayer,
        ]
    );
    fold(&mut observer, &e);
    assert!(table.is_dealer_turn());
    let e = table.auto_play().unwrap();
    assert_eq!(
        e,
        vec![Effect::OpenDealerCard(c(Suit::Diamond, Value::Eight)), Effect::Finish]
    );
    fold(&mut observer, &e);
    same_view(table.state(), &observer);
    assert_eq!(table.settlement().unwrap(), vec![(name("alice"), 0, 0)]);
}

#[test]
fn dealer_busts() {
    // alice: 10, 8; dealer: 10 up, 6 hole, then K: 26.
    let deck = deck_drawing(&[
        c(Suit::Spade, Value::Ten),
        c(Suit::Heart, Value::Ten),
        c(Suit::Club, Value::Eight),
        c(Suit::Diamond, Value::Six),
        c(Suit::Spade, Value::King),
    ]);
    let mut table = Table::with_deck(deck);
    table.apply_command(Command::Participate(name("alice"))).unwrap();
    table.apply_command(Command::Bet(name("alice"), 4)).unwrap();
    table.start().unwrap();
    table.apply_command(Command::Stand(name("alice"))).unwrap();
    let e = table.auto_play().unwrap();
    assert_eq!(
        e,
        vec![
            Effect::OpenDealerCard(c(Suit::Diamond, Value::Six)),
            Effect::AddDealerCard(c(Suit::Spade, Value::King)),
            Effect::DealerBurst,
            Effect::Finish,
        ]
    );
    assert_eq!(table.settlement().unwrap(), vec![(name("alice"), 8, 4)]);
}

#[test]
fn dealer_running_out_of_cards_is_reported() {
    let deck = deck_drawing(&[
        c(Suit::Spade, Value::Ten),
        c(Suit::Heart, Value::Two),
        c(Suit::Club, Value::Eight),
        c(Suit::Diamond, Value::Three),
    ]);
    let mut table = Table::with_deck(deck);
    table.apply_command(Command::Participate(name("alice"))).unwrap();
    table.start().unwrap();
    table.apply_command(Command::Stand(name("alice"))).unwrap();
    assert_eq!(table.auto_play(), Err(TableError::DeckExhausted));
}

#[test]
fn too_many_players_for_the_deck() {
    let deck = deck_drawing(&[c(Suit::Spade, Value::Ten), c(Suit::Heart, Value::Two)]);
    let mut table = Table::with_deck(deck);
    table.apply_command(Command::Participate(name("alice"))).unwrap();
    assert_eq!(table.start(), Err(TableError::DeckExhausted));
    assert!(!table.is_started());
}

#[test]
fn next_round_keeps_the_players() {
    let mut table = two_player_table();
    table.apply_command(Command::Participate(name("alice"))).unwrap();
    table.apply_command(Command::Participate(name("bob"))).unwrap();
    let players = table.get_players();
    let mut next = Table::new();
    let e = next.init_players(players).unwrap();
    assert_eq!(e, vec![Effect::Init(vec![name("alice"), name("bob")])]);
    assert_eq!(next.get_player_order(), vec![name("alice"), name("bob")]);
    assert_eq!(
        next.init_players(vec![name("x"), name("x")]),
        Err(TableError::DuplicateName)
    );
}

#[test]
fn replies_to_commands() {
    assert_eq!(Command::Ping(name("a")).success_message(), "pong, a");
    assert_eq!(Command::Participate(name("a")).success_message(), "aさんが参加しました。");
    assert_eq!(Command::Leave(name("a")).success_message(), "aさんが退出しました。");
    assert_eq!(Command::Bet(name("a"), 1205).success_message(), "aさんが1205コイン賭けました。");
    assert_eq!(Command::Bet(name("a"), 0).success_message(), "aさんが0コイン賭けました。");
    assert_eq!(Command::Hit(name("a")).success_message(), "aさんがヒットしました。");
    assert_eq!(Command::Stand(name("a")).success_message(), "aさんがスタンドしました。");
    let ok = Response::new(&Command::Hit(name("a")), &Ok(vec![]));
    assert_eq!(ok.content, "aさんがヒットしました。");
    let refused = Response::new(&Command::Hit(name("a")), &Err(TableError::NotYourTurn));
    assert_eq!(refused.content, "It's not your turn");
}

#[test]
fn ledger_keys_keep_order() {
    assert_eq!(discord_id_to_i64(0), i64::MIN);
    assert_eq!(discord_id_to_i64(u64::MAX), i64::MAX);
    assert_eq!(discord_id_to_i64(1 << 63), 0);
    assert_eq!(discord_id_to_i64(5), i64::MIN + 5);
}
