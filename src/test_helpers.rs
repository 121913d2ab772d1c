//! Fixed game positions for tests and examples.

use vstd::prelude::*;

use crate::agent::ConstantAgent;
use crate::bidding::Auction;
use crate::game::{Contract, GameData, GamePhase, Hands, PlayPhaseData, Trick};
use crate::primitives::{Card, Position, Rank, Suit};
use crate::state::State;

verus! {

/// The first card of the User's hand in the fixed deal: ♣2.
pub fn user_card_0() -> (r: Card)
    ensures
        r == (Card { suit: Suit::Clubs, rank: Rank::Two }),
{
    Card { suit: Suit::Clubs, rank: Rank::Two }
}

/// The User hand of the fixed deal.
pub open spec fn fixed_user_hand() -> Seq<Card> {
    seq![
        Card { suit: Suit::Clubs, rank: Rank::Two },
        Card { suit: Suit::Clubs, rank: Rank::Six },
        Card { suit: Suit::Clubs, rank: Rank::Nine },
        Card { suit: Suit::Clubs, rank: Rank::Ten },
        Card { suit: Suit::Clubs, rank: Rank::Ace },
        Card { suit: Suit::Hearts, rank: Rank::Six },
        Card { suit: Suit::Hearts, rank: Rank::Nine },
        Card { suit: Suit::Hearts, rank: Rank::Ten },
        Card { suit: Suit::Hearts, rank: Rank::Ace },
        Card { suit: Suit::Spades, rank: Rank::Two },
        Card { suit: Suit::Spades, rank: Rank::Seven },
        Card { suit: Suit::Spades, rank: Rank::Eight },
        Card { suit: Suit::Spades, rank: Rank::King },
    ]
}

/// The Left hand of the fixed deal.
pub open spec fn fixed_left_hand() -> Seq<Card> {
    seq![
        Card { suit: Suit::Diamonds, rank: Rank::Two },
        Card { suit: Suit::Diamonds, rank: Rank::Three },
        Card { suit: Suit::Diamonds, rank: Rank::Nine },
        Card { suit: Suit::Diamonds, rank: Rank::Ten },
        Card { suit: Suit::Diamonds, rank: Rank::Queen },
        Card { suit: Suit::Clubs, rank: Rank::Four },
        Card { suit: Suit::Clubs, rank: Rank::Eight },
        Card { suit: Suit::Hearts, rank: Rank::Five },
        Card { suit: Suit::Hearts, rank: Rank::Eight },
        Card { suit: Suit::Hearts, rank: Rank::King },
        Card { suit: Suit::Spades, rank: Rank::Three },
        Card { suit: Suit::Spades, rank: Rank::Six },
        Card { suit: Suit::Spades, rank: Rank::Ace },
    ]
}

/// The Dummy hand of the fixed deal.
pub open spec fn fixed_dummy_hand() -> Seq<Card> {
    seq![
        Card { suit: Suit::Diamonds, rank: Rank::Six },
        Card { suit: Suit::Diamonds, rank: Rank::Seven },
        Card { suit: Suit::Diamonds, rank: Rank::Eight },
        Card { suit: Suit::Diamonds, rank: Rank::King },
        Card { suit: Suit::Clubs, rank: Rank::Five },
        Card { suit: Suit::Clubs, rank: Rank::King },
        Card { suit: Suit::Hearts, rank: Rank::Four },
        Card { suit: Suit::Hearts, rank: Rank::Seven },
        Card { suit: Suit::Hearts, rank: Rank::Jack },
        Card { suit: Suit::Hearts, rank: Rank::Queen },
        Card { suit: Suit::Spades, rank: Rank::Four },
        Card { suit: Suit::Spades, rank: Rank::Five },
        Card { suit: Suit::Spades, rank: Rank::Ten },
    ]
}

/// The Right hand of the fixed deal.
pub open spec fn fixed_right_hand() -> Seq<Card> {
    seq![
        Card { suit: Suit::Diamonds, rank: Rank::Four },
        Card { suit: Suit::Diamonds, rank: Rank::Five },
        Card { suit: Suit::Diamonds, rank: Rank::Jack },
        Card { suit: Suit::Diamonds, rank: Rank::Ace },
        Card { suit: Suit::Clubs, rank: Rank::Three },
        Card { suit: Suit::Clubs, rank: Rank::Seven },
        Card { suit: Suit::Clubs, rank: Rank::Jack },
        Card { suit: Suit::Clubs, rank: Rank::Queen },
        Card { suit: Suit::Hearts, rank: Rank::Two },
        Card { suit: Suit::Hearts, rank: Rank::Three },
        Card { suit: Suit::Spades, rank: Rank::Nine },
        Card { suit: Suit::Spades, rank: Rank::Jack },
        Card { suit: Suit::Spades, rank: Rank::Queen },
    ]
}

fn card(suit: Suit, rank: Rank) -> (r: Card)
    ensures
        r.suit == suit && r.rank == rank,
{
    Card { suit, rank }
}

/// A [GameData] at the start of the auction, with First bidder User and
/// Second bidder Right, and the hands:
/// - User:  ♣2 ♣6 ♣9 ♣10 ♣A ♥6 ♥9 ♥10 ♥A ♠2 ♠7 ♠8 ♠K
/// - Left:  ♦2 ♦3 ♦9 ♦10 ♦Q ♣4 ♣8 ♥5  ♥8 ♥K ♠3 ♠6 ♠A
/// - Dummy: ♦6 ♦7 ♦8 ♦K  ♣5 ♣K ♥4 ♥7  ♥J ♥Q ♠4 ♠5 ♠10
/// - Right: ♦4 ♦5 ♦J ♦A  ♣3 ♣7 ♣J ♣Q  ♥2 ♥3 ♠9 ♠J ♠Q
pub fn create_test_bid_phase() -> (r: GameData)
    ensures
        r.hand_of(Position::User) == fixed_user_hand(),
        r.hand_of(Position::Left) == fixed_left_hand(),
        r.hand_of(Position::Dummy) == fixed_dummy_hand(),
        r.hand_of(Position::Right) == fixed_right_hand(),
        r.auction.bid_number == 6,
        r.auction.first == Position::User,
        r.auction.second == Position::Right,
        r.auction.first_bids@.len() == 0,
        r.auction.second_bids@.len() == 0,
{
    let user_hand = vec![
        card(Suit::Clubs, Rank::Two),
        card(Suit::Clubs, Rank::Six),
        card(Suit::Clubs, Rank::Nine),
        card(Suit::Clubs, Rank::Ten),
        card(Suit::Clubs, Rank::Ace),
        card(Suit::Hearts, Rank::Six),
        card(Suit::Hearts, Rank::Nine),
        card(Suit::Hearts, Rank::Ten),
        card(Suit::Hearts, Rank::Ace),
        card(Suit::Spades, Rank::Two),
        card(Suit::Spades, Rank::Seven),
        card(Suit::Spades, Rank::Eight),
        card(Suit::Spades, Rank::King),
    ];
    let left_opponent_hand = vec![
        card(Suit::Diamonds, Rank::Two),
        card(Suit::Diamonds, Rank::Three),
        card(Suit::Diamonds, Rank::Nine),
        card(Suit::Diamonds, Rank::Ten),
        card(Suit::Diamonds, Rank::Queen),
        card(Suit::Clubs, Rank::Four),
        card(Suit::Clubs, Rank::Eight),
        card(Suit::Hearts, Rank::Five),
        card(Suit::Hearts, Rank::Eight),
        card(Suit::Hearts, Rank::King),
        card(Suit::Spades, Rank::Three),
        card(Suit::Spades, Rank::Six),
        card(Suit::Spades, Rank::Ace),
    ];
    let dummy_hand = vec![
        card(Suit::Diamonds, Rank::Six),
        card(Suit::Diamonds, Rank::Seven),
        card(Suit::Diamonds, Rank::Eight),
        card(Suit::Diamonds, Rank::King),
        card(Suit::Clubs, Rank::Five),
        card(Suit::Clubs, Rank::King),
        card(Suit::Hearts, Rank::Four),
        card(Suit::Hearts, Rank::Seven),
        card(Suit::Hearts, Rank::Jack),
        card(Suit::Hearts, Rank::Queen),
        card(Suit::Spades, Rank::Four),
        card(Suit::Spades, Rank::Five),
        card(Suit::Spades, Rank::Ten),
    ];
    let right_opponet_hand = vec![
        card(Suit::Diamonds, Rank::Four),
        card(Suit::Diamonds, Rank::Five),
        card(Suit::Diamonds, Rank::Jack),
        card(Suit::Diamonds, Rank::Ace),
        card(Suit::Clubs, Rank::Three),
        card(Suit::Clubs, Rank::Seven),
        card(Suit::Clubs, Rank::Jack),
        card(Suit::Clubs, Rank::Queen),
        card(Suit::Hearts, Rank::Two),
        card(Suit::Hearts, Rank::Three),
        card(Suit::Spades, Rank::Nine),
        card(Suit::Spades, Rank::Jack),
        card(Suit::Spades, Rank::Queen),
    ];
    GameData {
        hands: Hands { user_hand, dummy_hand, left_opponent_hand, right_opponet_hand },
        auction: Auction {
            bid_number: 6,
            first: Position::User,
            first_bids: Vec::new(),
            second: Position::Right,
            second_bids: Vec::new(),
        },
        debug: crate::game::Debug { show_hidden_cards: true },
    }
}

/// A [PlayPhaseData] over the hands of [create_test_bid_phase]: no trump at
/// seven tricks, User declarer and leading an empty trick.
pub fn create_test_play_phase() -> (r: PlayPhaseData)
    ensures
        r.game.hand_of(Position::User) == fixed_user_hand(),
        r.game.hand_of(Position::Left) == fixed_left_hand(),
        r.game.hand_of(Position::Dummy) == fixed_dummy_hand(),
        r.game.hand_of(Position::Right) == fixed_right_hand(),
        r.game.auction.bid_number == 6,
        r.game.auction.first == Position::User,
        r.game.auction.second == Position::Right,
        r.game.auction.first_bids@.len() == 0,
        r.game.auction.second_bids@.len() == 0,
        r.trick.lead == Position::User,
        r.trick.user_play.is_none() && r.trick.dummy_play.is_none() && r.trick.left_play.is_none()
            && r.trick.right_play.is_none(),
        r.contract == (Contract { trump: None, tricks: 7, declarer: Position::User }),
        r.completed_tricks@.len() == 0,
{
    PlayPhaseData {
        game: create_test_bid_phase(),
        trick: Trick::new(Position::User),
        contract: Contract { trump: None, tricks: 7, declarer: Position::User },
        completed_tricks: Vec::new(),
    }
}

/// A session in the play phase of [create_test_play_phase] with a
/// [ConstantAgent].
pub fn create_test_state() -> (r: State<ConstantAgent>)
    ensures
        r.phase is Playing,
{
    let data = create_test_play_phase();
    let agent = create_test_agent();
    State { phase: GamePhase::Playing(data), agent }
}

pub fn create_test_agent() -> Box<ConstantAgent> {
    Box::new(ConstantAgent)
}

/// A game in which every hand is empty: the game is over.
pub fn create_empty_game() -> (r: PlayPhaseData)
    ensures
        r.game.all_hands_empty(),
        r.trick.lead == Position::User,
        r.trick.user_play.is_none() && r.trick.dummy_play.is_none() && r.trick.left_play.is_none()
            && r.trick.right_play.is_none(),
        r.contract == (Contract { trump: None, tricks: 7, declarer: Position::User }),
{
    let mut result = create_test_play_phase();
    result.game.hands.user_hand.clear();
    result.game.hands.left_opponent_hand.clear();
    result.game.hands.dummy_hand.clear();
    result.game.hands.right_opponet_hand.clear();
    result
}

} // verus!
