//! A game session: the current phase and the agent playing the automated
//! seats, with the actions a user can submit.

use vstd::prelude::*;

use crate::agent::Agent;
use crate::auction::{bid_resolved, hands_fit, resolve_bid_action};
use crate::bidding::Bid;
use crate::game::{GameError, GamePhase};
use crate::play::{
    card_play_resolved, continue_resolved, resolve_card_play_action, resolve_continue_action,
};
use crate::primitives::CardId;

verus! {

/// An action submitted by the user.
#[derive(PartialEq, Eq, Structural, Hash, Debug, Copy, Clone)]
pub enum Action {
    /// Play the card with the given [CardId]
    Play(CardId),
    /// Close the current trick and start a new one
    Continue,
    /// Place a bid during the auction
    Bid(Bid),
}

/// One game session.
pub struct State<A: Agent> {
    pub phase: GamePhase,
    pub agent: Box<A>,
}

impl<A: Agent> State<A> {
    /// Applies a user action to the session: a bid goes to
    /// [resolve_bid_action], a play and a continue go to
    /// [resolve_card_play_action] and [resolve_continue_action] in the play
    /// phase. A play or continue outside the play phase fails with nothing
    /// changed.
    pub fn update(&mut self, action: Action) -> (r: Result<(), GameError>)
        requires
            old(self).phase matches GamePhase::Auction(g) ==> hands_fit(g)
                && g.auction.bid_number <= usize::MAX - 2,
        ensures
            match (action, old(self).phase) {
                (Action::Bid(bid), _) => bid_resolved(
                    *old(self).agent,
                    old(self).phase,
                    final(self).phase,
                    bid,
                    r,
                ),
                (Action::Play(id), GamePhase::Playing(d)) => final(self).phase matches GamePhase::Playing(
                    d2,
                ) && card_play_resolved(*old(self).agent, d, d2, id, r),
                (Action::Continue, GamePhase::Playing(d)) => final(self).phase matches GamePhase::Playing(
                    d2,
                ) && continue_resolved(*old(self).agent, d, d2, r),
                (_, _) => r == Err::<(), GameError>(GameError::NotPlayPhase) && final(self).phase
                    == old(self).phase,
            },
    {
        match action {
            Action::Play(id) => match &mut self.phase {
                GamePhase::Playing(data) => resolve_card_play_action(data, &*self.agent, id),
                _ => Err(GameError::NotPlayPhase),
            },
            Action::Continue => match &mut self.phase {
                GamePhase::Playing(data) => resolve_continue_action(data, &*self.agent),
                _ => Err(GameError::NotPlayPhase),
            },
            Action::Bid(bid) => resolve_bid_action(&mut self.phase, &*self.agent, bid),
        }
    }
}

} // verus!
