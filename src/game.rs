//! Types of a single game: hands, tricks, the contract and the game phase.

use vstd::multiset::Multiset;
use vstd::prelude::*;

use crate::bidding::Auction;
use crate::primitives::{Card, Position, Suit};

verus! {

/// The cards of an optional play, as a multiset.
pub open spec fn option_cards(c: Option<Card>) -> Multiset<Card> {
    match c {
        Some(card) => Multiset::singleton(card),
        None => Multiset::empty(),
    }
}

/// The trick being played.
#[derive(Debug, PartialEq, Eq, Structural, Clone)]
pub struct Trick {
    pub lead: Position,
    pub user_play: Option<Card>,
    pub dummy_play: Option<Card>,
    pub left_play: Option<Card>,
    pub right_play: Option<Card>,
}

impl Trick {
    /// The card a position has played to this trick, if any.
    pub open spec fn played(self, position: Position) -> Option<Card> {
        match position {
            Position::User => self.user_play,
            Position::Dummy => self.dummy_play,
            Position::Left => self.left_play,
            Position::Right => self.right_play,
        }
    }

    /// This trick with `card` recorded against `position`.
    pub open spec fn with_play(self, position: Position, card: Card) -> Trick {
        match position {
            Position::User => Trick { user_play: Some(card), ..self },
            Position::Dummy => Trick { dummy_play: Some(card), ..self },
            Position::Left => Trick { left_play: Some(card), ..self },
            Position::Right => Trick { right_play: Some(card), ..self },
        }
    }

    /// The four positions in turn order, starting with the lead.
    pub open spec fn order(self) -> Seq<Position> {
        seq![
            self.lead,
            self.lead.spec_next(),
            self.lead.spec_next().spec_next(),
            self.lead.spec_next().spec_next().spec_next(),
        ]
    }

    /// The plays among the first `k` positions of the turn order.
    pub open spec fn plays_upto(self, k: int) -> Seq<(Position, Card)>
        decreases k,
    {
        if k <= 0 {
            seq![]
        } else {
            let p = self.order()[k - 1];
            match self.played(p) {
                Some(c) => self.plays_upto(k - 1).push((p, c)),
                None => self.plays_upto(k - 1),
            }
        }
    }

    /// All plays to this trick, in turn order.
    pub open spec fn plays(self) -> Seq<(Position, Card)> {
        self.plays_upto(4)
    }

    /// The suit led, if the lead has played.
    pub open spec fn spec_lead_suit(self) -> Option<Suit> {
        match self.played(self.lead) {
            Some(c) => Some(c.suit),
            None => None,
        }
    }

    /// All four positions have played.
    pub open spec fn complete(self) -> bool {
        self.user_play.is_some() && self.dummy_play.is_some() && self.left_play.is_some()
            && self.right_play.is_some()
    }

    /// The cards played to this trick, as a multiset.
    pub open spec fn card_multiset(self) -> Multiset<Card> {
        option_cards(self.user_play).add(option_cards(self.left_play)).add(
            option_cards(self.dummy_play),
        ).add(option_cards(self.right_play))
    }

    pub fn new(lead: Position) -> (r: Self)
        ensures
            r.lead == lead,
            r.user_play.is_none() && r.dummy_play.is_none() && r.left_play.is_none()
                && r.right_play.is_none(),
    {
        Self { lead, user_play: None, dummy_play: None, left_play: None, right_play: None }
    }

    /// The [Card] played by a [Position], if any.
    pub fn card_played(&self, position: Position) -> (r: Option<Card>)
        ensures
            r == self.played(position),
    {
        match position {
            Position::User => self.user_play,
            Position::Dummy => self.dummy_play,
            Position::Left => self.left_play,
            Position::Right => self.right_play,
        }
    }

    /// Records the [Card] played by a [Position].
    pub fn set_card_played(&mut self, position: Position, card: Card)
        ensures
            *final(self) == old(self).with_play(position, card),
    {
        match position {
            Position::User => self.user_play = Some(card),
            Position::Dummy => self.dummy_play = Some(card),
            Position::Left => self.left_play = Some(card),
            Position::Right => self.right_play = Some(card),
        }
    }

    /// The suit played by the lead of this trick, if any.
    pub fn lead_suit(&self) -> (r: Option<Suit>)
        ensures
            r == self.spec_lead_suit(),
    {
        match self.card_played(self.lead) {
            Some(card) => Some(card.suit),
            None => None,
        }
    }

    /// The four positions of this trick in turn order, starting with the lead.
    pub fn turn_order(&self) -> (r: Vec<Position>)
        ensures
            r@ == self.order(),
    {
        let second = self.lead.next();
        let third = second.next();
        let fourth = third.next();
        vec![self.lead, second, third, fourth]
    }

    /// All positions and cards played to this trick, in turn order.
    pub fn cards(&self) -> (r: Vec<(Position, Card)>)
        ensures
            r@ == self.plays(),
    {
        let order = self.turn_order();
        let mut r: Vec<(Position, Card)> = Vec::new();
        let mut i: usize = 0;
        while i < 4
            invariant
                0 <= i <= 4,
                order@ == self.order(),
                r@ == self.plays_upto(i as int),
            decreases 4 - i,
        {
            let p = order[i];
            match self.card_played(p) {
                Some(c) => r.push((p, c)),
                None => {},
            }
            i = i + 1;
        }
        r
    }

    /// True if all four cards have been played to this trick.
    pub fn is_completed(&self) -> (r: bool)
        ensures
            r == self.complete(),
    {
        self.user_play.is_some() && self.dummy_play.is_some() && self.left_play.is_some()
            && self.right_play.is_some()
    }
}

/// A finished trick and the position that won it.
#[derive(Debug, PartialEq, Eq, Structural, Clone)]
pub struct CompletedTrick {
    /// Cards which were played in this trick
    pub trick: Trick,
    /// Position which won this trick
    pub winner: Position,
}

/// A card played by a position.
#[derive(Debug, PartialEq, Eq, Structural, Copy, Clone)]
pub struct PlayedCard {
    /// Position which played this card
    pub played_by: Position,
    /// Card which was played
    pub card: Card,
}

/// The cards of a sequence of finished tricks, as a multiset.
pub open spec fn history_cards(tricks: Seq<CompletedTrick>) -> Multiset<Card>
    decreases tricks.len(),
{
    if tricks.len() == 0 {
        Multiset::empty()
    } else {
        history_cards(tricks.drop_last()).add(tricks.last().trick.card_multiset())
    }
}

#[derive(Debug, Clone)]
pub struct Hands {
    pub user_hand: Vec<Card>,
    pub dummy_hand: Vec<Card>,
    pub left_opponent_hand: Vec<Card>,
    pub right_opponet_hand: Vec<Card>,
}

/// Display settings for debugging.
#[derive(Debug, Clone)]
pub struct Debug {
    pub show_hidden_cards: bool,
}

impl Default for Debug {
    fn default() -> (r: Self)
        ensures
            !r.show_hidden_cards,
    {
        Self { show_hidden_cards: false }
    }
}

#[derive(Debug, Clone)]
pub struct GameData {
    pub hands: Hands,
    pub auction: Auction,
    pub debug: Debug,
}

impl GameData {
    /// The cards a position holds, in stored order.
    pub open spec fn hand_of(self, position: Position) -> Seq<Card> {
        match position {
            Position::User => self.hands.user_hand@,
            Position::Dummy => self.hands.dummy_hand@,
            Position::Left => self.hands.left_opponent_hand@,
            Position::Right => self.hands.right_opponet_hand@,
        }
    }

    /// All cards held, as a multiset.
    pub open spec fn held_cards(self) -> Multiset<Card> {
        self.hand_of(Position::User).to_multiset().add(
            self.hand_of(Position::Left).to_multiset(),
        ).add(self.hand_of(Position::Dummy).to_multiset()).add(
            self.hand_of(Position::Right).to_multiset(),
        )
    }

    /// Every hand is empty: the game is over.
    pub open spec fn all_hands_empty(self) -> bool {
        self.hand_of(Position::User).len() == 0 && self.hand_of(Position::Left).len() == 0
            && self.hand_of(Position::Dummy).len() == 0 && self.hand_of(Position::Right).len()
            == 0
    }

    /// The four hands hold 52 cards, each card once.
    pub open spec fn wf(self) -> bool {
        full_deal(self.held_cards())
    }

    pub fn hand(&self, position: Position) -> (r: &Vec<Card>)
        ensures
            r@ == self.hand_of(position),
    {
        match position {
            Position::User => &self.hands.user_hand,
            Position::Dummy => &self.hands.dummy_hand,
            Position::Left => &self.hands.left_opponent_hand,
            Position::Right => &self.hands.right_opponet_hand,
        }
    }

    pub fn hand_mut(&mut self, position: Position) -> (r: &mut Vec<Card>)
        ensures
            r@ == old(self).hand_of(position),
            final(self).hand_of(position) == final(r)@,
            forall|q: Position|
                q != position ==> #[trigger] final(self).hand_of(q) == old(self).hand_of(q),
            final(self).auction == old(self).auction,
            final(self).debug == old(self).debug,
    {
        match position {
            Position::User => &mut self.hands.user_hand,
            Position::Dummy => &mut self.hands.dummy_hand,
            Position::Left => &mut self.hands.left_opponent_hand,
            Position::Right => &mut self.hands.right_opponet_hand,
        }
    }
}

/// A multiset of cards holds 52 cards, no card twice.
pub open spec fn full_deal(cards: Multiset<Card>) -> bool {
    &&& cards.len() == 52
    &&& forall|c: Card| #[trigger] cards.count(c) <= 1
}

#[derive(Debug, Clone, PartialEq, Eq, Structural)]
pub struct Contract {
    pub trump: Option<Suit>,
    pub tricks: usize,
    pub declarer: Position,
}

#[derive(Debug)]
pub struct PlayPhaseData {
    pub game: GameData,
    pub trick: Trick,
    pub contract: Contract,
    /// Tricks finished so far, oldest first
    pub completed_tricks: Vec<CompletedTrick>,
}

impl PlayPhaseData {
    /// Every card of the game: those held, those in the current trick and
    /// those in finished tricks.
    pub open spec fn all_cards(self) -> Multiset<Card> {
        self.game.held_cards().add(self.trick.card_multiset()).add(
            history_cards(self.completed_tricks@),
        )
    }

    /// The game accounts for each of the 52 cards exactly once.
    pub open spec fn wf(self) -> bool {
        full_deal(self.all_cards())
    }
}

#[derive(Debug)]
pub enum GamePhase {
    Starting,
    Auction(GameData),
    Playing(PlayPhaseData),
}

/// A failed action. The state is left as it was.
#[derive(PartialEq, Eq, Structural, Debug, Copy, Clone)]
pub enum GameError {
    /// A bid was made outside of the auction
    NotAuctionPhase,
    /// A card was played or a trick closed outside of the play phase
    NotPlayPhase,
    /// The acting seat is not the one whose turn it is
    NotUsersTurn,
    /// The chosen card may not be played now
    IllegalPlay,
    /// The current trick is not finished
    TrickNotComplete,
}

/// In a well-formed game no card lies in two places: a card held by one
/// hand is held by no other hand and lies neither in the current trick nor
/// in a finished trick; and the hands, the current trick and the finished
/// tricks hold 52 cards in all.
pub proof fn lemma_cards_accounted(data: PlayPhaseData, p: Position, q: Position, c: Card)
    requires
        data.wf(),
        p != q,
        data.game.hand_of(p).contains(c),
    ensures
        !data.game.hand_of(q).contains(c),
        data.trick.card_multiset().count(c) == 0,
        history_cards(data.completed_tricks@).count(c) == 0,
        data.game.hand_of(Position::User).len() + data.game.hand_of(Position::Left).len()
            + data.game.hand_of(Position::Dummy).len() + data.game.hand_of(Position::Right).len()
            + data.trick.card_multiset().len() + history_cards(data.completed_tricks@).len() == 52,
{
    broadcast use vstd::seq_lib::group_to_multiset_ensures;
    broadcast use vstd::multiset::group_multiset_axioms;

    assert(data.game.hand_of(p).to_multiset().count(c) > 0);
    assert(data.all_cards().count(c) <= 1);
    if data.game.hand_of(q).contains(c) {
        assert(data.game.hand_of(q).to_multiset().count(c) > 0);
        assert(data.game.held_cards().count(c) >= 2);
    }
}

} // verus!
