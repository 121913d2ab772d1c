//! The interface of automated seats, and an agent that always passes and
//! always plays its first legal card.

use vstd::prelude::*;

use crate::auction::hands_fit;
use crate::bidding::{Bid, Bidder};
use crate::game::{GameData, PlayPhaseData};
use crate::play::{legal_index, legal_plays, legal_seq, lemma_legal_upto_entries};
use crate::primitives::Position;

verus! {

/// A player for the automated seats.
pub trait Agent {
    /// The bid this agent makes as `bidder` in `game`.
    spec fn bid_choice(&self, game: GameData, bidder: Bidder) -> Bid;

    /// The index of the card this agent plays for `position` in `data`.
    spec fn play_choice(&self, data: PlayPhaseData, position: Position) -> usize;

    /// Invoked during the auction when it is this agent's turn to bid as
    /// `bidder`. Returns the desired bid.
    fn select_bid(&self, game: &GameData, bidder: Bidder) -> (r: Bid)
        requires
            hands_fit(*game),
        ensures
            r == self.bid_choice(*game, bidder),
    ;

    /// Invoked during play when it is this agent's turn to play a card for
    /// `position`, to lead or to follow. Returns the index of a legal card in
    /// hand. Never invoked when `position` has no legal play.
    fn select_play(&self, data: &PlayPhaseData, position: Position) -> (r: usize)
        requires
            legal_seq(*data, position).len() > 0,
        ensures
            r == self.play_choice(*data, position),
            legal_index(*data, position, r),
    ;
}

/// Always passes during bidding and always plays the first legal card.
#[derive(Debug)]
pub struct ConstantAgent;

impl Agent for ConstantAgent {
    open spec fn bid_choice(&self, game: GameData, bidder: Bidder) -> Bid {
        Bid::Pass
    }

    open spec fn play_choice(&self, data: PlayPhaseData, position: Position) -> usize {
        legal_seq(data, position)[0].0
    }

    fn select_bid(&self, game: &GameData, bidder: Bidder) -> (r: Bid)
        ensures
            r == Bid::Pass,
    {
        Bid::Pass
    }

    fn select_play(&self, data: &PlayPhaseData, position: Position) -> (r: usize)
        ensures
            r == legal_seq(*data, position)[0].0,
    {
        let n = data.game.hand(position).len();
        let plays = legal_plays(data, position);
        proof {
            lemma_legal_upto_entries(*data, position, n as int);
            assert(legal_seq(*data, position)[0] == plays@[0]);
        }
        plays[0].0
    }
}

} // verus!
