use vstd::prelude::*;

verus! {

/// The four suits of a deck, and the mark used for a card that is face down.
#[derive(Debug, Clone, Copy, PartialEq, Eq, Structural)]
pub enum Suit {
    Spade,
    Heart,
    Diamond,
    Club,
    Hidden,
}

/// The thirteen ranks, and the mark used for a card that is face down.
#[derive(Debug, Clone, Copy, PartialEq, Eq, Structural)]
pub enum Value {
    Ace,
    Two,
    Three,
    Four,
    Five,
    Six,
    Seven,
    Eight,
    Nine,
    Ten,
    Jack,
    Queen,
    King,
    Hidden,
}

/// A playing card. The pair (`Hidden`, `Hidden`) stands for the dealer's hole card
/// while it is face down; it never belongs to a deck.
#[derive(Debug, Clone, Copy, PartialEq, Eq, Structural)]
pub struct Card {
    pub suit: Suit,
    pub value: Value,
}

/// Points of a rank; an ace counts 11 when `ace_high`, else 1.
pub open spec fn value_points(v: Value, ace_high: bool) -> nat {
    match v {
        Value::Ace => if ace_high { 11 } else { 1 },
        Value::Two => 2,
        Value::Three => 3,
        Value::Four => 4,
        Value::Five => 5,
        Value::Six => 6,
        Value::Seven => 7,
        Value::Eight => 8,
        Value::Nine => 9,
        Value::Ten | Value::Jack | Value::Queen | Value::King => 10,
        Value::Hidden => 0,
    }
}

/// The suit that a one-letter code names.
pub open spec fn suit_of_code(c: char) -> Option<Suit> {
    if c == 'S' {
        Some(Suit::Spade)
    } else if c == 'H' {
        Some(Suit::Heart)
    } else if c == 'D' {
        Some(Suit::Diamond)
    } else if c == 'C' {
        Some(Suit::Club)
    } else if c == 'X' {
        Some(Suit::Hidden)
    } else {
        None
    }
}

/// The rank that a code of one or two characters names ("A", "2".."10", "J", "Q", "K", "X").
pub open spec fn value_of_code(s: Seq<char>) -> Option<Value> {
    if s.len() == 2 {
        if s[0] == '1' && s[1] == '0' {
            Some(Value::Ten)
        } else {
            None
        }
    } else if s.len() != 1 {
        None
    } else {
        let c = s[0];
        if c == 'A' {
            Some(Value::Ace)
        } else if c == '2' {
            Some(Value::Two)
        } else if c == '3' {
            Some(Value::Three)
        } else if c == '4' {
            Some(Value::Four)
        } else if c == '5' {
            Some(Value::Five)
        } else if c == '6' {
            Some(Value::Six)
        } else if c == '7' {
            Some(Value::Seven)
        } else if c == '8' {
            Some(Value::Eight)
        } else if c == '9' {
            Some(Value::Nine)
        } else if c == 'J' {
            Some(Value::Jack)
        } else if c == 'Q' {
            Some(Value::Queen)
        } else if c == 'K' {
            Some(Value::King)
        } else if c == 'X' {
            Some(Value::Hidden)
        } else {
            None
        }
    }
}

/// The card that a code such as "SA" or "H10" names: a suit letter, then a rank
/// code that takes the next two characters when the text has three, else the next one.
pub open spec fn card_of_code(s: Seq<char>) -> Option<Card> {
    if s.len() < 2 {
        None
    } else {
        let rank = if s.len() == 3 {
            s.subrange(1, 3)
        } else {
            s.subrange(1, 2)
        };
        match (suit_of_code(s[0]), value_of_code(rank)) {
            (Some(suit), Some(value)) => Some(Card { suit, value }),
            _ => None,
        }
    }
}

fn suit_from_code(c: char) -> (r: Option<Suit>)
    ensures
        r == suit_of_code(c),
{
    if c == 'S' {
        Some(Suit::Spade)
    } else if c == 'H' {
        Some(Suit::Heart)
    } else if c == 'D' {
        Some(Suit::Diamond)
    } else if c == 'C' {
        Some(Suit::Club)
    } else if c == 'X' {
        Some(Suit::Hidden)
    } else {
        None
    }
}

fn value_from_code(s: &str, from: usize, to: usize) -> (r: Option<Value>)
    requires
        from <= to <= s@.len(),
    ensures
        r == value_of_code(s@.subrange(from as int, to as int)),
{
    let ghost code = s@.subrange(from as int, to as int);
    if to - from == 2 {
        let a = s.get_char(from);
        let b = s.get_char(from + 1);
        if a == '1' && b == '0' {
            Some(Value::Ten)
        } else {
            None
        }
    } else if to - from != 1 {
        None
    } else {
        let c = s.get_char(from);
        assert(code[0] == c);
        if c == 'A' {
            Some(Value::Ace)
        } else if c == '2' {
            Some(Value::Two)
        } else if c == '3' {
            Some(Value::Three)
        } else if c == '4' {
            Some(Value::Four)
        } else if c == '5' {
            Some(Value::Five)
        } else if c == '6' {
            Some(Value::Six)
        } else if c == '7' {
            Some(Value::Seven)
        } else if c == '8' {
            Some(Value::Eight)
        } else if c == '9' {
            Some(Value::Nine)
        } else if c == 'J' {
            Some(Value::Jack)
        } else if c == 'Q' {
            Some(Value::Queen)
        } else if c == 'K' {
            Some(Value::King)
        } else if c == 'X' {
            Some(Value::Hidden)
        } else {
            None
        }
    }
}

/// The one-letter code of a suit.
pub open spec fn suit_code(s: Suit) -> Seq<char> {
    match s {
        Suit::Spade => "S"@,
        Suit::Heart => "H"@,
        Suit::Diamond => "D"@,
        Suit::Club => "C"@,
        Suit::Hidden => "X"@,
    }
}

/// The code of a rank.
pub open spec fn value_code(v: Value) -> Seq<char> {
    match v {
        Value::Ace => "A"@,
        Value::Two => "2"@,
        Value::Three => "3"@,
        Value::Four => "4"@,
        Value::Five => "5"@,
        Value::Six => "6"@,
        Value::Seven => "7"@,
        Value::Eight => "8"@,
        Value::Nine => "9"@,
        Value::Ten => "10"@,
        Value::Jack => "J"@,
        Value::Queen => "Q"@,
        Value::King => "K"@,
        Value::Hidden => "X"@,
    }
}

/// The code of a card, as `card_of_code` reads it: "SA", "H10", "XX".
pub open spec fn card_code(c: Card) -> Seq<char> {
    suit_code(c.suit) + value_code(c.value)
}

impl Suit {
    pub fn code(&self) -> (r: &'static str)
        ensures
            r@ == suit_code(*self),
    {
        match self {
            Suit::Spade => "S",
            Suit::Heart => "H",
            Suit::Diamond => "D",
            Suit::Club => "C",
            Suit::Hidden => "X",
        }
    }
}

impl Value {
    pub fn code(&self) -> (r: &'static str)
        ensures
            r@ == value_code(*self),
    {
        match self {
            Value::Ace => "A",
            Value::Two => "2",
            Value::Three => "3",
            Value::Four => "4",
            Value::Five => "5",
            Value::Six => "6",
            Value::Seven => "7",
            Value::Eight => "8",
            Value::Nine => "9",
            Value::Ten => "10",
            Value::Jack => "J",
            Value::Queen => "Q",
            Value::King => "K",
            Value::Hidden => "X",
        }
    }
}

impl Card {
    /// Points of this card; a face-down card counts nothing.
    pub open spec fn points(self, ace_high: bool) -> nat {
        value_points(self.value, ace_high)
    }

    pub open spec fn is_hidden(self) -> bool {
        self.suit == Suit::Hidden || self.value == Value::Hidden
    }

    pub fn new(suit: Suit, value: Value) -> (r: Card)
        ensures
            r == (Card { suit, value }),
    {
        Card { suit, value }
    }

    /// The face-down card shown in place of the dealer's hole card.
    pub fn new_hidden() -> (r: Card)
        ensures
            r == (Card { suit: Suit::Hidden, value: Value::Hidden }),
    {
        Card { suit: Suit::Hidden, value: Value::Hidden }
    }

    pub fn get_score(&self, ace_high: bool) -> (r: u32)
        ensures
            r as nat == self.points(ace_high),
            r <= 11,
    {
        match self.value {
            Value::Ace => if ace_high {
                11
            } else {
                1
            },
            Value::Two => 2,
            Value::Three => 3,
            Value::Four => 4,
            Value::Five => 5,
            Value::Six => 6,
            Value::Seven => 7,
            Value::Eight => 8,
            Value::Nine => 9,
            Value::Ten => 10,
            Value::Jack => 10,
            Value::Queen => 10,
            Value::King => 10,
            Value::Hidden => 0,
        }
    }

    pub fn is_ace(&self) -> (r: bool)
        ensures
            r == (self.value == Value::Ace),
    {
        match self.value {
            Value::Ace => true,
            _ => false,
        }
    }

    /// How much an ace loses when it is counted low instead of high.
    pub fn ace_diff() -> (r: u32)
        ensures
            r == 10,
    {
        let card = Card::new(Suit::Spade, Value::Ace);
        card.get_score(true) - card.get_score(false)
    }

    /// The card's code.
    pub fn get_symbol(&self) -> (r: String)
        ensures
            r@ == card_code(*self),
    {
        let mut r = String::from_str(self.suit.code());
        r.append(self.value.code());
        r
    }

    /// Reads a card from its code, as `card_of_code` describes.
    pub fn parse(s: &str) -> (r: Result<Card, String>)
        ensures
            r is Ok <==> card_of_code(s@) is Some,
            r is Ok ==> r->Ok_0 == card_of_code(s@)->Some_0,
    {
        let len = s.unicode_len();
        if len < 2 {
            return Err(String::from_str("Invalid suit"));
        }
        let suit = match suit_from_code(s.get_char(0)) {
            Some(suit) => suit,
            None => return Err(String::from_str("Invalid suit")),
        };
        let to: usize = if len == 3 {
            3
        } else {
            2
        };
        let value = match value_from_code(s, 1, to) {
            Some(value) => value,
            None => return Err(String::from_str("Invalid value")),
        };
        Ok(Card::new(suit, value))
    }
}

impl std::str::FromStr for Card {
    type Err = String;

    fn from_str(s: &str) -> Result<Card, String> {
        Card::parse(s)
    }
}

} // verus!
