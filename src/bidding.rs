//! Types of the auction: bids, the coded responses to them, and the record of
//! both bidders' turns.

use vstd::prelude::*;

use crate::primitives::{Position, Rank, Suit};

verus! {

#[derive(PartialEq, Eq, Structural, Hash, Debug, Copy, Clone)]
pub enum Bid {
    Query,
    Suit(Suit),
    Pass,
}

/// A rating of the strength of a hand.
#[derive(PartialEq, Eq, Structural, Hash, Debug, Copy, Clone)]
pub enum HandRating {
    Terrible,
    Poor,
    Fair,
    Good,
    Excellent,
    Superb,
}

/// The rating band of a point score.
pub open spec fn rating_of(score: int) -> HandRating {
    if score <= 5 {
        HandRating::Terrible
    } else if score <= 9 {
        HandRating::Poor
    } else if score <= 12 {
        HandRating::Fair
    } else if score <= 15 {
        HandRating::Good
    } else if score <= 18 {
        HandRating::Excellent
    } else {
        HandRating::Superb
    }
}

impl HandRating {
    /// The representative point value of a rating band.
    pub open spec fn points(self) -> nat {
        match self {
            HandRating::Terrible => 5,
            HandRating::Poor => 8,
            HandRating::Fair => 10,
            HandRating::Good => 13,
            HandRating::Excellent => 16,
            HandRating::Superb => 19,
        }
    }

    pub fn new(score: usize) -> (r: Self)
        ensures
            r == rating_of(score as int),
    {
        if score <= 5 {
            Self::Terrible
        } else if score <= 9 {
            Self::Poor
        } else if score <= 12 {
            Self::Fair
        } else if score <= 15 {
            Self::Good
        } else if score <= 18 {
            Self::Excellent
        } else {
            Self::Superb
        }
    }

    pub fn approximate_points(&self) -> (r: usize)
        ensures
            r == self.points(),
    {
        match self {
            Self::Terrible => 5,
            Self::Poor => 8,
            Self::Fair => 10,
            Self::Good => 13,
            Self::Excellent => 16,
            Self::Superb => 19,
        }
    }

    /// The name of this rating.
    pub fn name(&self) -> (r: &'static str)
        ensures
            match self {
                HandRating::Terrible => r@ == "Terrible"@,
                HandRating::Poor => r@ == "Poor"@,
                HandRating::Fair => r@ == "Fair"@,
                HandRating::Good => r@ == "Good"@,
                HandRating::Excellent => r@ == "Excellent"@,
                HandRating::Superb => r@ == "Superb"@,
            },
    {
        match self {
            HandRating::Terrible => "Terrible",
            HandRating::Poor => "Poor",
            HandRating::Fair => "Fair",
            HandRating::Good => "Good",
            HandRating::Excellent => "Excellent",
            HandRating::Superb => "Superb",
        }
    }
}

/// Distribution of a hand. A balanced hand holds at most one doubleton and no
/// singletons or voids.
#[derive(PartialEq, Eq, Structural, Hash, Debug, Copy, Clone)]
pub enum HandBalance {
    Balanced,
    Unbalanced,
}

#[derive(PartialEq, Eq, Structural, Hash, Debug, Copy, Clone)]
pub enum LengthOperator {
    /// Less than or equal to this suit count
    Lte,
    /// Greater than or equal to this suit count
    Gte,
    /// Exactly equal to this suit count
    Equal,
}

/// `Lte` below the constraint, `Gte` above it, and `bias` at it.
pub open spec fn compare_length(have: int, constraint: int, bias: LengthOperator) -> LengthOperator {
    if have < constraint {
        LengthOperator::Lte
    } else if have == constraint {
        bias
    } else {
        LengthOperator::Gte
    }
}

impl LengthOperator {
    /// Compares two values, producing [LengthOperator::Lte] or
    /// [LengthOperator::Gte], or returning `bias` if the values are equal.
    pub fn compare(have: usize, constraint: usize, bias: Self) -> (r: Self)
        ensures
            r == compare_length(have as int, constraint as int, bias),
    {
        if have < constraint {
            Self::Lte
        } else if have == constraint {
            bias
        } else {
            Self::Gte
        }
    }
}

#[derive(PartialEq, Eq, Structural, Hash, Debug, Copy, Clone)]
pub enum BidResponse {
    /// No response
    Pass,
    /// Hand strength evaluation, optionally in the context of a trump suit
    HandEvaluation(HandRating, Option<Suit>),
    /// Constraint on the length of a suit
    SuitLength(Suit, usize, LengthOperator),
    /// Suit distribution
    HandBalance(HandBalance),
    /// Identifies a long suit
    LongestSuit(Suit),
    /// Identifies a weak suit
    WeakestSuit(Suit),
    /// Gives a count of cards with a given [Rank]
    RankCount(Rank, usize),
}

#[derive(Debug, Clone)]
pub struct AuctionTurn {
    pub bid: Bid,
    pub responses: Vec<BidResponse>,
}

impl AuctionTurn {
    pub fn query(response: BidResponse) -> (r: Self)
        ensures
            r.bid == Bid::Query,
            r.responses@ == seq![response],
    {
        Self { bid: Bid::Query, responses: vec![response] }
    }

    pub fn suit(suit: Suit, response: BidResponse) -> (r: Self)
        ensures
            r.bid == Bid::Suit(suit),
            r.responses@ == seq![response],
    {
        Self { bid: Bid::Suit(suit), responses: vec![response] }
    }
}

/// One of the two voices of the auction, each speaking for a partnership.
#[derive(PartialEq, Eq, Structural, Hash, Debug, Copy, Clone)]
pub enum Bidder {
    First,
    Second,
}

impl Bidder {
    pub open spec fn spec_opposite(self) -> Bidder {
        match self {
            Bidder::First => Bidder::Second,
            Bidder::Second => Bidder::First,
        }
    }

    pub fn opposite(&self) -> (r: Self)
        ensures
            r == self.spec_opposite(),
    {
        match self {
            Self::First => Self::Second,
            Self::Second => Self::First,
        }
    }
}

#[derive(Debug, Clone)]
pub struct Auction {
    /// Number of tricks the auction winner must win
    pub bid_number: usize,
    /// Position which acts first in bidding
    pub first: Position,
    pub first_bids: Vec<AuctionTurn>,
    /// Position which acts second in bidding
    pub second: Position,
    pub second_bids: Vec<AuctionTurn>,
}

impl Auction {
    /// The seat that speaks for a bidder.
    pub open spec fn seat(self, bidder: Bidder) -> Position {
        match bidder {
            Bidder::First => self.first,
            Bidder::Second => self.second,
        }
    }

    /// The turns a bidder has taken, oldest first.
    pub open spec fn turns(self, bidder: Bidder) -> Seq<AuctionTurn> {
        match bidder {
            Bidder::First => self.first_bids@,
            Bidder::Second => self.second_bids@,
        }
    }

    pub fn position(&self, bidder: Bidder) -> (r: Position)
        ensures
            r == self.seat(bidder),
    {
        match bidder {
            Bidder::First => self.first,
            Bidder::Second => self.second,
        }
    }

    pub fn bids(&self, bidder: Bidder) -> (r: &Vec<AuctionTurn>)
        ensures
            r@ == self.turns(bidder),
    {
        match bidder {
            Bidder::First => &self.first_bids,
            Bidder::Second => &self.second_bids,
        }
    }

    pub fn bids_mut(&mut self, bidder: Bidder) -> (r: &mut Vec<AuctionTurn>)
        ensures
            r@ == old(self).turns(bidder),
            final(self).turns(bidder) == final(r)@,
            final(self).turns(bidder.spec_opposite()) == old(self).turns(bidder.spec_opposite()),
            final(self).bid_number == old(self).bid_number,
            final(self).first == old(self).first,
            final(self).second == old(self).second,
    {
        match bidder {
            Bidder::First => &mut self.first_bids,
            Bidder::Second => &mut self.second_bids,
        }
    }
}

} // verus!
