use vstd::prelude::*;
use crate::card::{card_code, Card, Value};
use crate::text::{decimal, push_decimal};

verus! {

/// No hand holds more cards than one deck has.
pub const MAX_HAND_CARDS: usize = 52;

/// What a participant is, as contracts see it.
pub struct PlayerModel {
    pub name: Seq<char>,
    pub hand: Seq<Card>,
    pub amount: u32,
}

/// Sum of the hand's points with every ace counted high.
pub open spec fn high_total(cards: Seq<Card>) -> nat
    decreases cards.len(),
{
    if cards.len() == 0 {
        0
    } else {
        high_total(cards.drop_last()) + cards.last().points(true)
    }
}

/// Number of aces in the hand.
pub open spec fn ace_count(cards: Seq<Card>) -> nat
    decreases cards.len(),
{
    if cards.len() == 0 {
        0
    } else {
        ace_count(cards.drop_last()) + if cards.last().value == Value::Ace {
            1nat
        } else {
            0nat
        }
    }
}

/// Takes 10 off the total for each ace still counted high, while the total exceeds 21.
pub open spec fn soften(total: nat, aces: nat) -> nat
    decreases aces,
{
    if total > 21 && aces > 0 {
        soften((total - 10) as nat, (aces - 1) as nat)
    } else {
        total
    }
}

/// The blackjack score of a hand.
pub open spec fn hand_score(cards: Seq<Card>) -> nat {
    soften(high_total(cards), ace_count(cards))
}

/// The score of a hand of at most `MAX_HAND_CARDS` cards.
pub fn score_of(cards: &Vec<Card>) -> (r: u32)
    requires
        cards@.len() <= MAX_HAND_CARDS,
    ensures
        r as nat == hand_score(cards@),
{
    let mut score: u32 = 0;
    let mut aces: u32 = 0;
    let mut i: usize = 0;
    while i < cards.len()
        invariant
            i <= cards@.len() <= MAX_HAND_CARDS,
            score as nat == high_total(cards@.take(i as int)),
            aces as nat == ace_count(cards@.take(i as int)),
            score <= 11 * i,
            aces <= i,
        decreases cards@.len() - i,
    {
        let card = cards[i];
        assert(cards@.take(i + 1).drop_last() =~= cards@.take(i as int));
        score = score + card.get_score(true);
        if card.is_ace() {
            aces = aces + 1;
        }
        i = i + 1;
    }
    assert(cards@.take(i as int) =~= cards@);
    let ace_diff = Card::ace_diff();
    while score > 21 && aces > 0
        invariant
            ace_diff == 10,
            soften(score as nat, aces as nat) == hand_score(cards@),
        decreases aces,
    {
        score = score - ace_diff;
        aces = aces - 1;
    }
    score
}

/// The cards' codes, each followed by a space; with `hide_first` the first shows as "XX".
pub open spec fn hands_symbol(cards: Seq<Card>, hide_first: bool) -> Seq<char>
    decreases cards.len(),
{
    if cards.len() == 0 {
        Seq::empty()
    } else {
        hands_symbol(cards.drop_last(), hide_first) + if cards.len() == 1 && hide_first {
            "XX "@
        } else {
            card_code(cards.last()) + " "@
        }
    }
}

/// The cards' codes, each after a space.
pub open spec fn spaced_codes(cards: Seq<Card>) -> Seq<char>
    decreases cards.len(),
{
    if cards.len() == 0 {
        Seq::empty()
    } else {
        spaced_codes(cards.drop_last()) + " "@ + card_code(cards.last())
    }
}

/// A player as the table shows it: "name: SA H10 (21)".
pub open spec fn player_line(p: PlayerModel) -> Seq<char> {
    p.name + ":"@ + spaced_codes(p.hand) + " ("@ + decimal(hand_score(p.hand)) + ")"@
}

/// A named participant: the cards drawn so far, in order, and the wager.
#[derive(Debug, Clone)]
pub struct Player {
    pub name: String,
    hands: Vec<Card>,
    amount: u32,
}

impl View for Player {
    type V = PlayerModel;

    closed spec fn view(&self) -> PlayerModel {
        PlayerModel { name: self.name@, hand: self.hands@, amount: self.amount }
    }
}

impl Player {
    /// A hand of at most `MAX_HAND_CARDS` cards.
    pub open spec fn wf(&self) -> bool {
        self@.hand.len() <= MAX_HAND_CARDS
    }

    pub fn new(name: String) -> (r: Player)
        ensures
            r@ == (PlayerModel { name: name@, hand: Seq::empty(), amount: 0 }),
    {
        Player { name, hands: Vec::new(), amount: 0 }
    }

    /// The name, as a `String`.
    pub fn name(&self) -> (r: String)
        ensures
            r@ == self@.name,
    {
        self.name.clone()
    }

    pub fn is_named(&self, name: &String) -> (r: bool)
        ensures
            r == (self@.name == name@),
    {
        self.name == *name
    }

    /// Empties the hand and the wager.
    pub fn clear(&mut self)
        ensures
            final(self)@ == (PlayerModel { name: old(self)@.name, hand: Seq::empty(), amount: 0 }),
    {
        self.hands.clear();
        self.amount = 0;
    }

    /// Adds to the wager.
    pub fn bet(&mut self, amount: u32)
        requires
            old(self)@.amount + amount <= u32::MAX,
        ensures
            final(self)@ == (PlayerModel { amount: (old(self)@.amount + amount) as u32, ..old(self)@ }),
    {
        self.amount = self.amount + amount;
    }

    /// The hand; with `hide`, the second card shows face down.
    pub fn get_hands(&self, hide: bool) -> (r: Vec<Card>)
        requires
            hide ==> self@.hand.len() >= 2,
        ensures
            r@ == if hide {
                self@.hand.update(1, Card { suit: crate::card::Suit::Hidden, value: Value::Hidden })
            } else {
                self@.hand
            },
    {
        let mut hands = self.hands.clone();
        if hide {
            hands.set(1, Card::new_hidden());
        }
        hands
    }

    pub fn add_card(&mut self, card: Card)
        requires
            old(self)@.hand.len() < MAX_HAND_CARDS,
        ensures
            final(self)@ == (PlayerModel { hand: old(self)@.hand.push(card), ..old(self)@ }),
    {
        self.hands.push(card);
    }

    /// Turns the second card over: it is replaced by `card`.
    pub fn open_card(&mut self, card: Card)
        requires
            old(self)@.hand.len() >= 2,
        ensures
            final(self)@ == (PlayerModel { hand: old(self)@.hand.update(1, card), ..old(self)@ }),
    {
        self.hands.set(1, card);
    }

    /// The hand's codes, each followed by a space; with `hide_first` the first shows as "XX".
    pub fn get_hands_symbol(&self, hide_first: bool) -> (r: String)
        ensures
            r@ == hands_symbol(self@.hand, hide_first),
    {
        let mut r = String::new();
        let mut i: usize = 0;
        while i < self.hands.len()
            invariant
                i <= self.hands@.len(),
                r@ == hands_symbol(self.hands@.take(i as int), hide_first),
            decreases self.hands@.len() - i,
        {
            assert(self.hands@.take(i + 1).drop_last() =~= self.hands@.take(i as int));
            if i == 0 && hide_first {
                r.append("XX ");
            } else {
                r.append(self.hands[i].get_symbol().as_str());
                r.append(" ");
            }
            i = i + 1;
        }
        assert(self.hands@.take(i as int) =~= self.hands@);
        r
    }

    /// The player as the table shows it, as `player_line` describes.
    pub fn describe(&self) -> (r: String)
        requires
            self.wf(),
        ensures
            r@ == player_line(self@),
    {
        let mut r = self.name.clone().concat(":");
        let mut i: usize = 0;
        while i < self.hands.len()
            invariant
                i <= self.hands@.len(),
                r@ == self.name@ + ":"@ + spaced_codes(self.hands@.take(i as int)),
            decreases self.hands@.len() - i,
        {
            assert(self.hands@.take(i + 1).drop_last() =~= self.hands@.take(i as int));
            r.append(" ");
            r.append(self.hands[i].get_symbol().as_str());
            i = i + 1;
        }
        assert(self.hands@.take(i as int) =~= self.hands@);
        r.append(" (");
        push_decimal(&mut r, self.get_score());
        r.append(")");
        r
    }

    pub fn get_score(&self) -> (r: u32)
        requires
            self.wf(),
        ensures
            r as nat == hand_score(self@.hand),
    {
        score_of(&self.hands)
    }

    pub fn get_amount(&self) -> (r: u32)
        ensures
            r == self@.amount,
    {
        self.amount
    }
}

} // verus!
