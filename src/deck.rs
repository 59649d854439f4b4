use vstd::prelude::*;
use crate::card::{Card, Suit, Value};
use rand::seq::SliceRandom;

verus! {

/// Number of cards in a full deck.
pub const DECK_SIZE: usize = 52;

pub open spec fn is_standard(c: Card) -> bool {
    !c.is_hidden()
}

/// The cards that `n` further draws give, in the order they come: draws take from the end.
pub open spec fn next_draws(cards: Seq<Card>, n: nat) -> Seq<Card>
    recommends
        n <= cards.len(),
{
    Seq::new(n, |k: int| cards[cards.len() - 1 - k])
}

/// Relies on rand's `SliceRandom::shuffle` with the thread-local generator: it only swaps
/// elements, so the result is a permutation of the input; which one is left to chance.
#[verifier::external_body]
fn shuffle_cards(cards: &mut Vec<Card>)
    ensures
        final(cards)@.to_multiset() == old(cards)@.to_multiset(),
{
    cards.shuffle(&mut rand::thread_rng());
}

/// The cards of one round. Every card is a standard one and appears at most once.
pub struct Deck {
    cards: Vec<Card>,
}

impl View for Deck {
    type V = Seq<Card>;

    closed spec fn view(&self) -> Seq<Card> {
        self.cards@
    }
}

const SUITS: [Suit; 4] = [Suit::Spade, Suit::Heart, Suit::Diamond, Suit::Club];

const VALUES: [Value; 13] = [
    Value::Ace,
    Value::Two,
    Value::Three,
    Value::Four,
    Value::Five,
    Value::Six,
    Value::Seven,
    Value::Eight,
    Value::Nine,
    Value::Ten,
    Value::Jack,
    Value::Queen,
    Value::King,
];

pub open spec fn suit_index(s: Suit) -> int {
    match s {
        Suit::Spade => 0,
        Suit::Heart => 1,
        Suit::Diamond => 2,
        Suit::Club => 3,
        Suit::Hidden => 4,
    }
}

pub open spec fn value_index(v: Value) -> int {
    match v {
        Value::Ace => 0,
        Value::Two => 1,
        Value::Three => 2,
        Value::Four => 3,
        Value::Five => 4,
        Value::Six => 5,
        Value::Seven => 6,
        Value::Eight => 7,
        Value::Nine => 8,
        Value::Ten => 9,
        Value::Jack => 10,
        Value::Queen => 11,
        Value::King => 12,
        Value::Hidden => 13,
    }
}

/// Position of a standard card in a new deck: suit by suit, ranks in order.
pub open spec fn position(c: Card) -> int {
    suit_index(c.suit) * 13 + value_index(c.value)
}

/// No card twice, no face-down card, at most a full deck.
pub open spec fn deck_wf(cards: Seq<Card>) -> bool {
    &&& cards.no_duplicates()
    &&& forall|i: int| 0 <= i < cards.len() ==> is_standard(#[trigger] cards[i])
    &&& cards.len() <= DECK_SIZE
}

impl Deck {
    pub open spec fn wf(&self) -> bool {
        deck_wf(self@)
    }

    /// The 52 standard cards, suit by suit, each suit from ace to king.
    pub fn new() -> (r: Deck)
        ensures
            r.wf(),
            r@.len() == DECK_SIZE,
            forall|i: int| 0 <= i < DECK_SIZE ==> position(#[trigger] r@[i]) == i,
    {
        let mut cards: Vec<Card> = Vec::new();
        let mut s: usize = 0;
        while s < 4
            invariant
                s <= 4,
                cards@.len() == 13 * s,
                forall|i: int| 0 <= i < cards@.len() ==> is_standard(#[trigger] cards@[i]),
                forall|i: int| 0 <= i < cards@.len() ==> position(#[trigger] cards@[i]) == i,
            decreases 4 - s,
        {
            let mut v: usize = 0;
            while v < 13
                invariant
                    s < 4,
                    v <= 13,
                    cards@.len() == 13 * s + v,
                    forall|i: int| 0 <= i < cards@.len() ==> is_standard(#[trigger] cards@[i]),
                    forall|i: int| 0 <= i < cards@.len() ==> position(#[trigger] cards@[i]) == i,
                decreases 13 - v,
            {
                let card = Card::new(SUITS[s], VALUES[v]);
                assert(suit_index(card.suit) == s && value_index(card.value) == v);
                cards.push(card);
                v = v + 1;
            }
            s = s + 1;
        }
        let r = Deck { cards };
        assert(r@.no_duplicates()) by {
            assert forall|i: int, j: int|
                0 <= i < r@.len() && 0 <= j < r@.len() && i != j implies r@[i] != r@[j] by {
                assert(position(r@[i]) == i);
                assert(position(r@[j]) == j);
            }
        }
        r
    }

    /// A deck holding exactly `cards`, in that order (the last one is drawn first); refused
    /// unless the cards are distinct standard ones, at most a full deck.
    pub fn from_cards(cards: Vec<Card>) -> (r: Option<Deck>)
        ensures
            r is Some <==> deck_wf(cards@),
            r matches Some(d) ==> d@ == cards@,
    {
        if cards.len() > DECK_SIZE {
            return None;
        }
        let mut i: usize = 0;
        while i < cards.len()
            invariant
                i <= cards@.len(),
                forall|k: int| 0 <= k < i ==> is_standard(#[trigger] cards@[k]),
                forall|a: int, b: int|
                    0 <= a < i && 0 <= b < cards@.len() && a != b ==> cards@[a] != cards@[b],
            decreases cards@.len() - i,
        {
            let c = cards[i];
            if c.suit == Suit::Hidden || c.value == Value::Hidden {
                return None;
            }
            let mut j: usize = 0;
            while j < cards.len()
                invariant
                    i < cards@.len(),
                    j <= cards@.len(),
                    c == cards@[i as int],
                    forall|b: int| 0 <= b < j && b != i ==> cards@[i as int] != cards@[b],
                decreases cards@.len() - j,
            {
                if j != i && cards[j] == c {
                    return None;
                }
                j = j + 1;
            }
            i = i + 1;
        }
        Some(Deck { cards })
    }

    /// Puts the cards in an order left to chance; the same cards stay.
    pub fn shuffle(&mut self)
        requires
            old(self).wf(),
        ensures
            final(self).wf(),
            final(self)@.len() == old(self)@.len(),
            final(self)@.to_multiset() == old(self)@.to_multiset(),
    {
        let ghost before = self.cards@;
        shuffle_cards(&mut self.cards);
        proof {
            let after = self.cards@;
            broadcast use vstd::seq_lib::group_to_multiset_ensures;

            before.lemma_multiset_has_no_duplicates();
            after.lemma_multiset_has_no_duplicates_conv();
            assert(after.len() == before.len()) by {
                before.to_multiset_ensures();
                after.to_multiset_ensures();
            }
            assert forall|i: int| 0 <= i < after.len() implies is_standard(#[trigger] after[i]) by {
                assert(after.to_multiset().contains(after[i]));
                assert(before.contains(after[i]));
            }
        }
    }

    /// Takes the last card, or nothing from an empty deck.
    pub fn draw(&mut self) -> (r: Option<Card>)
        requires
            old(self).wf(),
        ensures
            final(self).wf(),
            old(self)@.len() == 0 ==> r is None && final(self)@ == old(self)@,
            old(self)@.len() > 0 ==> r == Some(old(self)@.last()) && final(self)@
                == old(self)@.drop_last(),
    {
        self.cards.pop()
    }

    /// Number of cards left.
    pub fn len(&self) -> (r: usize)
        ensures
            r == self@.len(),
    {
        self.cards.len()
    }
}

/// What is left of a deck after `n` draws.
pub open spec fn after_draws(cards: Seq<Card>, n: nat) -> Seq<Card>
    recommends
        n <= cards.len(),
{
    cards.subrange(0, cards.len() - n)
}

/// Whatever order a well-formed deck is in, the cards that any number of draws up to its
/// size give are pairwise distinct and standard; what is left is still a well-formed deck,
/// and it is empty once as many cards were drawn as it had.
pub proof fn lemma_draws_distinct(cards: Seq<Card>, n: nat)
    requires
        deck_wf(cards),
        n <= cards.len(),
    ensures
        next_draws(cards, n).no_duplicates(),
        forall|k: int| 0 <= k < n ==> is_standard(#[trigger] next_draws(cards, n)[k]),
        deck_wf(after_draws(cards, n)),
        after_draws(cards, n).len() == 0 <==> n == cards.len(),
{
    let s = next_draws(cards, n);
    assert forall|i: int, j: int| 0 <= i < s.len() && 0 <= j < s.len() && i != j implies s[i]
        != s[j] by {
        assert(s[i] == cards[cards.len() - 1 - i]);
        assert(s[j] == cards[cards.len() - 1 - j]);
    }
    assert forall|k: int| 0 <= k < n implies is_standard(#[trigger] s[k]) by {
        assert(s[k] == cards[cards.len() - 1 - k]);
    }
    let rest = after_draws(cards, n);
    assert forall|k: int| 0 <= k < rest.len() implies is_standard(#[trigger] rest[k]) by {
        assert(rest[k] == cards[k]);
    }
}

/// One call of `Deck::draw` followed by `n - 1` more gives the same cards, in the same
/// order, as `n` draws, and leaves the same deck: so `lemma_draws_distinct` speaks of
/// successive calls of `Deck::draw`.
pub proof fn lemma_draw_step(cards: Seq<Card>, n: nat)
    requires
        0 < n <= cards.len(),
    ensures
        next_draws(cards, n) == seq![cards.last()] + next_draws(cards.drop_last(), (n - 1) as nat),
        after_draws(cards, n) == after_draws(cards.drop_last(), (n - 1) as nat),
{
    assert(next_draws(cards, n) =~= seq![cards.last()] + next_draws(
        cards.drop_last(),
        (n - 1) as nat,
    ));
    assert(after_draws(cards, n) =~= after_draws(cards.drop_last(), (n - 1) as nat));
}

} // verus!
