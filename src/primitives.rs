//! Core value types: suits, ranks, cards, seats and per-suit counters.

use vstd::prelude::*;

verus! {

/// The four suits. The standard suit order in Oak is
/// Diamonds < Clubs < Hearts < Spades, which differs from Bridge.
#[derive(PartialEq, Eq, Structural, Hash, Debug, Copy, Clone, PartialOrd, Ord)]
pub enum Suit {
    Diamonds,
    Clubs,
    Hearts,
    Spades,
}

impl Suit {
    /// Position of this suit in the fixed suit order, from 0 to 3.
    pub open spec fn value(self) -> int {
        match self {
            Suit::Diamonds => 0,
            Suit::Clubs => 1,
            Suit::Hearts => 2,
            Suit::Spades => 3,
        }
    }

    pub open spec fn spec_is_red(self) -> bool {
        self == Suit::Diamonds || self == Suit::Hearts
    }

    /// True if this is a red suit, false if it is black.
    pub fn is_red(&self) -> (r: bool)
        ensures
            r == self.spec_is_red(),
    {
        match self {
            Suit::Clubs | Suit::Spades => false,
            Suit::Diamonds | Suit::Hearts => true,
        }
    }

    /// Position of this suit in the fixed suit order.
    pub fn order_value(&self) -> (r: u8)
        ensures
            r as int == self.value(),
    {
        match self {
            Suit::Diamonds => 0,
            Suit::Clubs => 1,
            Suit::Hearts => 2,
            Suit::Spades => 3,
        }
    }

    /// The symbol that stands for this suit.
    pub fn symbol(&self) -> (r: &'static str)
        ensures
            match self {
                Suit::Diamonds => r@ == "♦"@,
                Suit::Clubs => r@ == "♣"@,
                Suit::Hearts => r@ == "♥"@,
                Suit::Spades => r@ == "♠"@,
            },
    {
        match self {
            Suit::Diamonds => "♦",
            Suit::Clubs => "♣",
            Suit::Hearts => "♥",
            Suit::Spades => "♠",
        }
    }

    /// The suit at a given position of the suit order.
    pub open spec fn from_value(v: int) -> Suit {
        if v == 0 {
            Suit::Diamonds
        } else if v == 1 {
            Suit::Clubs
        } else if v == 2 {
            Suit::Hearts
        } else {
            Suit::Spades
        }
    }
}

/// All suits, in suit order.
pub fn all_suits() -> (r: Vec<Suit>)
    ensures
        r@ == seq![Suit::Diamonds, Suit::Clubs, Suit::Hearts, Suit::Spades],
        forall|i: int| 0 <= i < 4 ==> (#[trigger] r@[i]).value() == i,
{
    vec![Suit::Diamonds, Suit::Clubs, Suit::Hearts, Suit::Spades]
}

/// The standard playing card ranks, Aces high.
#[derive(PartialEq, Eq, Structural, Hash, Debug, Copy, Clone, PartialOrd, Ord)]
pub enum Rank {
    Two,
    Three,
    Four,
    Five,
    Six,
    Seven,
    Eight,
    Nine,
    Ten,
    Jack,
    Queen,
    King,
    Ace,
}

impl Rank {
    /// Position of this rank in rank order, from 0 (Two) to 12 (Ace).
    pub open spec fn value(self) -> int {
        match self {
            Rank::Two => 0,
            Rank::Three => 1,
            Rank::Four => 2,
            Rank::Five => 3,
            Rank::Six => 4,
            Rank::Seven => 5,
            Rank::Eight => 6,
            Rank::Nine => 7,
            Rank::Ten => 8,
            Rank::Jack => 9,
            Rank::Queen => 10,
            Rank::King => 11,
            Rank::Ace => 12,
        }
    }

    /// Position of this rank in rank order.
    pub fn order_value(&self) -> (r: u8)
        ensures
            r as int == self.value(),
    {
        match self {
            Rank::Two => 0,
            Rank::Three => 1,
            Rank::Four => 2,
            Rank::Five => 3,
            Rank::Six => 4,
            Rank::Seven => 5,
            Rank::Eight => 6,
            Rank::Nine => 7,
            Rank::Ten => 8,
            Rank::Jack => 9,
            Rank::Queen => 10,
            Rank::King => 11,
            Rank::Ace => 12,
        }
    }

    /// The short name of this rank, as printed on a card.
    pub fn symbol(&self) -> (r: &'static str)
        ensures
            match self {
                Rank::Two => r@ == "2"@,
                Rank::Three => r@ == "3"@,
                Rank::Four => r@ == "4"@,
                Rank::Five => r@ == "5"@,
                Rank::Six => r@ == "6"@,
                Rank::Seven => r@ == "7"@,
                Rank::Eight => r@ == "8"@,
                Rank::Nine => r@ == "9"@,
                Rank::Ten => r@ == "10"@,
                Rank::Jack => r@ == "J"@,
                Rank::Queen => r@ == "Q"@,
                Rank::King => r@ == "K"@,
                Rank::Ace => r@ == "A"@,
            },
    {
        match self {
            Rank::Two => "2",
            Rank::Three => "3",
            Rank::Four => "4",
            Rank::Five => "5",
            Rank::Six => "6",
            Rank::Seven => "7",
            Rank::Eight => "8",
            Rank::Nine => "9",
            Rank::Ten => "10",
            Rank::Jack => "J",
            Rank::Queen => "Q",
            Rank::King => "K",
            Rank::Ace => "A",
        }
    }
}

/// All ranks, in rank order.
pub fn all_ranks() -> (r: Vec<Rank>)
    ensures
        r@.len() == 13,
        forall|i: int| 0 <= i < 13 ==> (#[trigger] r@[i]).value() == i,
{
    vec![
        Rank::Two,
        Rank::Three,
        Rank::Four,
        Rank::Five,
        Rank::Six,
        Rank::Seven,
        Rank::Eight,
        Rank::Nine,
        Rank::Ten,
        Rank::Jack,
        Rank::Queen,
        Rank::King,
        Rank::Ace,
    ]
}

/// One of the 52 standard playing cards. Cards are ordered by [Suit] first
/// and then by [Rank].
#[derive(PartialEq, Eq, Structural, Hash, Debug, Copy, Clone, PartialOrd, Ord)]
pub struct Card {
    pub suit: Suit,
    pub rank: Rank,
}

impl Card {
    pub fn new(suit: Suit, rank: Rank) -> (r: Self)
        ensures
            r.suit == suit,
            r.rank == rank,
    {
        Self { suit, rank }
    }

    /// Position of this card in card order, from 0 to 51.
    pub open spec fn key(self) -> int {
        self.suit.value() * 13 + self.rank.value()
    }

    /// Position of this card in card order.
    pub fn order_key(&self) -> (r: u8)
        ensures
            r as int == self.key(),
    {
        self.suit.order_value() * 13 + self.rank.order_value()
    }
}

/// One of the four seats at the table.
#[derive(PartialEq, Eq, Structural, Hash, Debug, Copy, Clone)]
pub enum Position {
    User,
    Left,
    Dummy,
    Right,
}

impl Position {
    pub open spec fn spec_next(self) -> Position {
        match self {
            Position::User => Position::Left,
            Position::Left => Position::Dummy,
            Position::Dummy => Position::Right,
            Position::Right => Position::User,
        }
    }

    pub open spec fn spec_partner(self) -> Position {
        match self {
            Position::User => Position::Dummy,
            Position::Left => Position::Right,
            Position::Dummy => Position::User,
            Position::Right => Position::Left,
        }
    }

    pub open spec fn spec_is_agent(self) -> bool {
        self == Position::Left || self == Position::Right
    }

    /// The next position in turn sequence after this one.
    pub fn next(&self) -> (r: Self)
        ensures
            r == self.spec_next(),
    {
        match self {
            Self::User => Self::Left,
            Self::Left => Self::Dummy,
            Self::Dummy => Self::Right,
            Self::Right => Self::User,
        }
    }

    /// The partner of this position, seated opposite.
    pub fn partner(&self) -> (r: Self)
        ensures
            r == self.spec_partner(),
    {
        match self {
            Self::User => Self::Dummy,
            Self::Left => Self::Right,
            Self::Dummy => Self::User,
            Self::Right => Self::Left,
        }
    }

    /// True for the two seats played by an automated agent.
    pub fn is_agent(&self) -> (r: bool)
        ensures
            r == self.spec_is_agent(),
    {
        match self {
            Self::User | Self::Dummy => false,
            Self::Left | Self::Right => true,
        }
    }
}

/// Identifies a [Card] by its index in a given hand.
#[derive(PartialEq, Eq, Structural, Hash, Debug, Copy, Clone)]
pub struct CardId {
    pub position: Position,
    pub index: usize,
}

impl CardId {
    pub fn new(position: Position, index: usize) -> (r: Self)
        ensures
            r.position == position,
            r.index == index,
    {
        Self { position, index }
    }
}

/// One integer for each suit.
#[derive(PartialEq, Eq, Structural, Hash, Debug, Copy, Clone)]
pub struct SuitData {
    pub diamonds: usize,
    pub clubs: usize,
    pub hearts: usize,
    pub spades: usize,
}

impl SuitData {
    /// The integer held for a suit.
    pub open spec fn at(self, suit: Suit) -> usize {
        match suit {
            Suit::Diamonds => self.diamonds,
            Suit::Clubs => self.clubs,
            Suit::Hearts => self.hearts,
            Suit::Spades => self.spades,
        }
    }

    /// This value with the integer held for `suit` replaced by `v`.
    pub open spec fn with(self, suit: Suit, v: usize) -> SuitData {
        match suit {
            Suit::Diamonds => SuitData { diamonds: v, ..self },
            Suit::Clubs => SuitData { clubs: v, ..self },
            Suit::Hearts => SuitData { hearts: v, ..self },
            Suit::Spades => SuitData { spades: v, ..self },
        }
    }

    /// The sum over the four suits.
    pub open spec fn total(self) -> int {
        self.diamonds + self.clubs + self.hearts + self.spades
    }

    pub fn get(&self, suit: Suit) -> (r: usize)
        ensures
            r == self.at(suit),
    {
        match suit {
            Suit::Diamonds => self.diamonds,
            Suit::Clubs => self.clubs,
            Suit::Hearts => self.hearts,
            Suit::Spades => self.spades,
        }
    }

    pub fn get_mut(&mut self, suit: Suit) -> (r: &mut usize)
        ensures
            *r == old(self).at(suit),
            *final(self) == old(self).with(suit, *final(r)),
    {
        match suit {
            Suit::Diamonds => &mut self.diamonds,
            Suit::Clubs => &mut self.clubs,
            Suit::Hearts => &mut self.hearts,
            Suit::Spades => &mut self.spades,
        }
    }

    pub fn increment(&mut self, suit: Suit)
        requires
            old(self).at(suit) < usize::MAX,
        ensures
            *final(self) == old(self).with(suit, (old(self).at(suit) + 1) as usize),
    {
        let v = self.get(suit) + 1;
        *self.get_mut(suit) = v;
    }

    pub fn sum(&self) -> (r: usize)
        requires
            self.total() <= usize::MAX,
        ensures
            r == self.total(),
    {
        self.diamonds + self.clubs + self.hearts + self.spades
    }
}

impl Default for SuitData {
    fn default() -> (r: Self)
        ensures
            r.diamonds == 0 && r.clubs == 0 && r.hearts == 0 && r.spades == 0,
    {
        Self { diamonds: 0, clubs: 0, hearts: 0, spades: 0 }
    }
}

} // verus!
