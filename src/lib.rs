//! A multi-player blackjack table: cards and decks, scoring, the per-table state machine
//! driven by commands, and the effect log from which any observer rebuilds the table.

pub mod card;
pub mod deck;
pub mod identity;
pub mod player;
pub mod state;
pub mod table;
pub mod text;
