use blackjack_table::state::{Effect, State, Status};
use blackjack_table::table::{Command, Table, TableError, TimerOutcome};

fn fold(state: &mut State, effects: &[Effect]) {
    for e in effects {
        assert!(state.can_apply(e), "effect does not fit: {:?}", e);
        state.apply_effect(e.clone());
    }
}

fn assert_same(table: &State, observer: &State) {
    assert_eq!(table.get_player_order(), observer.get_player_order());
    assert_eq!(table.get_amounts(), observer.get_amounts());
    assert_eq!(table.get_status(), observer.get_status());
    assert_eq!(table.get_dealer_hands(false), observer.get_dealer_hands(false));
    assert_eq!(table.describe(), observer.describe());
    for n in table.get_player_order() {
        assert_eq!(
            table.get_player(&n).unwrap().get_hands(false),
            observer.get_player(&n).unwrap().get_hands(false)
        );
    }
}

/// Plays whole rounds on shuffled decks: every batch folded into an observer that started
/// from an empty projection leaves it equal to the table's own state, and commands out of
/// turn are refused without effects.
#[test]
fn observers_rebuild_the_table_over_many_rounds() {
    let names = ["alice", "bob", "carol"];
    for round in 0..200u32 {
        let mut table = Table::new();
        let mut observer = State::new();
        for (k, n) in names.iter().enumerate() {
            let e = table.apply_command(Command::Participate(n.to_string())).unwrap();
            fold(&mut observer, &e);
            let e = table.apply_command(Command::Bet(n.to_string(), 5 + k as u32)).unwrap();
            fold(&mut observer, &e);
        }
        let e = table.apply_command(Command::Leave("carol".to_string())).unwrap();
        fold(&mut observer, &e);
        assert_same(table.state(), &observer);

        match table.on_betting_timeout() {
            TimerOutcome::Started(e) => fold(&mut observer, &e),
            other => panic!("unexpected {:?}", other),
        }
        assert_same(table.state(), &observer);
        assert!(matches!(table.on_betting_timeout(), TimerOutcome::Ignored));

        let mut guard = 0;
        while let Status::Playing(i) = table.state().get_status() {
            guard += 1;
            assert!(guard < 100);
            let current = table.get_player_order()[i].clone();
            let other = names.iter().find(|n| **n != current).unwrap().to_string();
            assert_eq!(
                table.apply_command(Command::Hit(other.clone())),
                Err(TableError::NotYourTurn)
            );
            assert_eq!(table.apply_command(Command::Stand(other)), Err(TableError::NotYourTurn));
            let score = table.state().get_player(&current).unwrap().get_score();
            let limit = 12 + (round % 8);
            let cmd = if score < limit {
                Command::Hit(current)
            } else {
                Command::Stand(current)
            };
            let e = table.apply_command(cmd).unwrap();
            fold(&mut observer, &e);
            assert_same(table.state(), &observer);
        }

        let e = table.auto_play().unwrap();
        fold(&mut observer, &e);
        assert_same(table.state(), &observer);
        assert!(table.is_finished());
        let dealer = table.state().get_dealer_score();
        assert!(dealer >= 17);
        let result = table.settlement().unwrap();
        assert_eq!(result.len(), 2);
        assert_eq!(observer.get_result(), result);
        for (name, payout, net) in result {
            let p = table.state().get_player(&name).unwrap();
            let wager = p.get_amount() as u64;
            let score = p.get_score();
            let expected = if score > 21 {
                0
            } else if dealer > 21 || score > dealer {
                2 * wager
            } else if score == dealer {
                wager
            } else {
                0
            };
            assert_eq!(payout, expected);
            assert_eq!(net, payout as i64 - wager as i64);
        }
    }
}
