use std::cmp::Ordering;

use oak::game::{GameError, GamePhase, PlayedCard, Trick};
use oak::play::{
    can_play_card, compare_card_power, handle_action, legal_plays, next_to_play, play_card,
    resolve_card_play_action, resolve_continue_action, trick_winner, winning_plays,
    PlayPhaseAction,
};
use oak::primitives::{Card, CardId, Position, Rank, Suit};
use oak::state::Action;
use oak::test_helpers;

#[test]
fn test_play_card() {
    let mut g = test_helpers::create_test_play_phase();
    assert_eq!(g.game.hand(Position::User)[0], test_helpers::user_card_0());
    assert_eq!(g.game.hand(Position::User).len(), 13);
    assert_eq!(g.trick.card_played(Position::User), None);
    play_card(&mut g, CardId { position: Position::User, index: 0 });
    assert_eq!(g.trick.card_played(Position::User), Some(test_helpers::user_card_0()));
    assert_eq!(g.game.hand(Position::User).len(), 12);
}

#[test]
fn test_next_to_play() {
    let mut g = test_helpers::create_test_play_phase();
    g.trick = Trick::new(Position::Dummy);
    assert_eq!(next_to_play(&g), Some(Position::Dummy));
    g.trick.set_card_played(Position::Dummy, Card::new(Suit::Clubs, Rank::Two));
    assert_eq!(next_to_play(&g), Some(Position::Right));
    g.trick.set_card_played(Position::Right, Card::new(Suit::Clubs, Rank::Three));
    g.trick.set_card_played(Position::User, Card::new(Suit::Clubs, Rank::Ace));
    assert_eq!(next_to_play(&g), Some(Position::Left));
    g.trick.set_card_played(Position::Left, Card::new(Suit::Clubs, Rank::Five));
    assert_eq!(next_to_play(&g), Some(Position::User));

    let mut game_over = test_helpers::create_empty_game();
    assert_eq!(next_to_play(&game_over), None);

    game_over.game.hands.right_opponet_hand.push(Card::new(Suit::Clubs, Rank::Three));
    game_over.trick.set_card_played(Position::Dummy, Card::new(Suit::Clubs, Rank::Two));
    game_over.trick.set_card_played(Position::User, Card::new(Suit::Clubs, Rank::Ace));
    game_over.trick.set_card_played(Position::Left, Card::new(Suit::Clubs, Rank::Five));
    assert_eq!(next_to_play(&game_over), Some(Position::Right));
}

#[test]
fn test_legal_plays() {
    let mut g = test_helpers::create_test_play_phase();
    g.trick.lead = Position::Left;
    let card = g.game.hand(Position::Left)[0];

    assert_eq!(legal_plays(&g, Position::Dummy).len(), 0);
    assert_eq!(legal_plays(&g, Position::Left).len(), 13);
    assert_eq!(legal_plays(&g, Position::Left)[0], (0, card));

    let c4 = Card::new(Suit::Clubs, Rank::Four);
    let d7 = Card::new(Suit::Diamonds, Rank::Seven);
    g.trick.set_card_played(Position::Left, Card::new(Suit::Clubs, Rank::Two));
    g.game.hands.dummy_hand = vec![c4, d7];

    assert_eq!(legal_plays(&g, Position::Left).len(), 0);
    assert!(legal_plays(&g, Position::Dummy) == vec![(0, c4)]);

    g.game.hands.dummy_hand = vec![d7];

    assert!(legal_plays(&g, Position::Dummy) == vec![(0, d7)]);

    g.trick.set_card_played(Position::Dummy, d7);
    g.trick.set_card_played(Position::Right, c4);

    // After the 4th card is played, the winner (right) can play any card
    assert_eq!(legal_plays(&g, Position::Right).len(), 0);
    g.trick.set_card_played(Position::User, Card::new(Suit::Clubs, Rank::Three));
    assert_eq!(legal_plays(&g, Position::Right).len(), 13);
    assert_eq!(legal_plays(&g, Position::Left).len(), 0);
    assert_eq!(legal_plays(&g, Position::User).len(), 0);
    assert_eq!(legal_plays(&g, Position::Dummy).len(), 0);
}

#[test]
fn test_legal_plays_end_of_game() {
    let mut g = test_helpers::create_empty_game();
    g.trick.lead = Position::User;
    let c3 = Card::new(Suit::Clubs, Rank::Three);
    let c4 = Card::new(Suit::Clubs, Rank::Four);
    let d10 = Card::new(Suit::Diamonds, Rank::Ten);
    let c6 = Card::new(Suit::Clubs, Rank::Six);
    g.game.hands.user_hand.push(c3);
    g.game.hands.left_opponent_hand.push(c4);
    g.game.hands.dummy_hand.push(d10);
    g.game.hands.right_opponet_hand.push(c6);

    assert!(legal_plays(&g, Position::User) == vec![(0, c3)]);
    assert_eq!(legal_plays(&g, Position::Dummy).len(), 0);

    g.trick.set_card_played(Position::User, g.game.hands.user_hand.pop().unwrap());
    g.trick.set_card_played(Position::Left, g.game.hands.left_opponent_hand.pop().unwrap());

    assert_eq!(legal_plays(&g, Position::User).len(), 0);
    assert!(legal_plays(&g, Position::Dummy) == vec![(0, d10)]);
}

#[test]
fn test_compare_card_power() {
    let d5 = Card::new(Suit::Diamonds, Rank::Five);
    let d3 = Card::new(Suit::Diamonds, Rank::Three);
    let d8 = Card::new(Suit::Diamonds, Rank::Eight);
    let s9 = Card::new(Suit::Spades, Rank::Nine);
    let s2 = Card::new(Suit::Spades, Rank::Two);
    let h10 = Card::new(Suit::Hearts, Rank::Ten);

    let mut g = test_helpers::create_test_play_phase();
    assert_eq!(compare_card_power(&g, d3, d3), Ordering::Equal);
    assert_eq!(compare_card_power(&g, d3, d8), Ordering::Equal);
    assert_eq!(compare_card_power(&g, d3, s9), Ordering::Equal);
    assert_eq!(compare_card_power(&g, s9, s2), Ordering::Equal);

    g.trick.lead = Position::Dummy;
    g.trick.set_card_played(Position::Dummy, d5);
    assert_eq!(compare_card_power(&g, d5, d5), Ordering::Equal);
    assert_eq!(compare_card_power(&g, d5, d3), Ordering::Greater);
    assert_eq!(compare_card_power(&g, d3, d5), Ordering::Less);
    assert_eq!(compare_card_power(&g, d5, d8), Ordering::Less);
    assert_eq!(compare_card_power(&g, d8, d5), Ordering::Greater);
    assert_eq!(compare_card_power(&g, d3, s9), Ordering::Greater);
    assert_eq!(compare_card_power(&g, s9, d3), Ordering::Less);
    assert_eq!(compare_card_power(&g, d5, h10), Ordering::Greater);
    assert_eq!(compare_card_power(&g, h10, d5), Ordering::Less);
    assert_eq!(compare_card_power(&g, h10, s9), Ordering::Equal);
    assert_eq!(compare_card_power(&g, s2, s9), Ordering::Equal);

    g.contract.trump = Some(Suit::Spades);
    assert_eq!(compare_card_power(&g, s9, d3), Ordering::Greater);
    assert_eq!(compare_card_power(&g, d3, s9), Ordering::Less);
    assert_eq!(compare_card_power(&g, s2, d3), Ordering::Greater);
    assert_eq!(compare_card_power(&g, d3, s2), Ordering::Less);
    assert_eq!(compare_card_power(&g, d5, h10), Ordering::Greater);
    assert_eq!(compare_card_power(&g, h10, d5), Ordering::Less);
    assert_eq!(compare_card_power(&g, h10, s9), Ordering::Less);
    assert_eq!(compare_card_power(&g, s2, s9), Ordering::Less);
    assert_eq!(compare_card_power(&g, s9, s2), Ordering::Greater);
    assert_eq!(compare_card_power(&g, d5, d5), Ordering::Equal);
    assert_eq!(compare_card_power(&g, s9, s9), Ordering::Equal);
}

#[test]
fn test_trick_winner() {
    let mut g = test_helpers::create_test_play_phase();
    g.trick.lead = Position::Left;
    assert_eq!(trick_winner(&g), None);
    let c3 = Card::new(Suit::Clubs, Rank::Three);
    g.trick.set_card_played(Position::Left, c3);
    assert_eq!(trick_winner(&g), Some((Position::Left, c3)));
    let c5 = Card::new(Suit::Clubs, Rank::Five);
    g.trick.set_card_played(Position::Dummy, c5);
    assert_eq!(trick_winner(&g), Some((Position::Dummy, c5)));
    let da = Card::new(Suit::Diamonds, Rank::Ace);
    g.trick.set_card_played(Position::Right, da);
    assert_eq!(trick_winner(&g), Some((Position::Dummy, c5)));
    g.contract.trump = Some(Suit::Hearts);
    let h2 = Card::new(Suit::Hearts, Rank::Two);
    g.trick.set_card_played(Position::User, h2);
    assert_eq!(trick_winner(&g), Some((Position::User, h2)));
}

#[test]
fn test_winning_plays() {
    let mut g = test_helpers::create_test_play_phase();
    g.trick.lead = Position::Left;
    let card = g.game.hand(Position::Left)[0];

    assert_eq!(winning_plays(&g, Position::Dummy).len(), 0);
    assert_eq!(winning_plays(&g, Position::Left).len(), 13);
    assert_eq!(winning_plays(&g, Position::Left)[0], (0, card));

    let c2 = Card::new(Suit::Clubs, Rank::Two);
    let c4 = Card::new(Suit::Clubs, Rank::Four);
    let d7 = Card::new(Suit::Diamonds, Rank::Seven);
    g.trick.set_card_played(Position::Left, c2);
    g.game.hands.dummy_hand = vec![c4, d7];

    assert_eq!(winning_plays(&g, Position::Left).len(), 0);
    assert!(winning_plays(&g, Position::Dummy) == vec![(0, c4)]);

    g.game.hands.dummy_hand = vec![d7];

    assert_eq!(winning_plays(&g, Position::Dummy).len(), 0);
}

#[test]
fn test_resolve_card_play_action() {
    let mut data = test_helpers::create_test_play_phase();
    let agent = test_helpers::create_test_agent();

    assert!(resolve_card_play_action(&mut data, &*agent, CardId::new(Position::User, 0)).is_ok());
    assert_eq!(data.trick.card_played(Position::User).unwrap(), Card::new(Suit::Clubs, Rank::Two));
    assert_eq!(data.trick.card_played(Position::Left).unwrap(), Card::new(Suit::Clubs, Rank::Four));

    assert!(resolve_card_play_action(&mut data, &*agent, CardId::new(Position::Dummy, 4)).is_ok());
    assert_eq!(data.trick.card_played(Position::Dummy).unwrap(), Card::new(Suit::Clubs, Rank::Five));
    assert_eq!(data.trick.card_played(Position::Right).unwrap(), Card::new(Suit::Clubs, Rank::Three));

    assert!(resolve_card_play_action(&mut data, &*agent, CardId::new(Position::User, 11)).is_ok());
    assert_eq!(data.trick.card_played(Position::User).unwrap(), Card::new(Suit::Spades, Rank::King));
    assert_eq!(data.trick.card_played(Position::Left).unwrap(), Card::new(Suit::Spades, Rank::Three));
    assert!(data.trick.card_played(Position::Dummy).is_none());
    assert!(data.trick.card_played(Position::Right).is_none());
}

#[test]
fn test_resolve_continue_action() {
    let mut data = test_helpers::create_test_play_phase();
    let agent = test_helpers::create_test_agent();

    data.trick.set_card_played(Position::User, Card::new(Suit::Spades, Rank::Two));
    data.trick.set_card_played(Position::Left, Card::new(Suit::Spades, Rank::Three));
    data.trick.set_card_played(Position::Dummy, Card::new(Suit::Hearts, Rank::Ace));
    data.trick.set_card_played(Position::Right, Card::new(Suit::Spades, Rank::Five));

    assert!(resolve_continue_action(&mut data, &*agent).is_ok());

    assert_eq!(data.trick.card_played(Position::Right).unwrap(), Card::new(Suit::Diamonds, Rank::Four));
    assert!(data.trick.card_played(Position::Dummy).is_none());
    assert!(data.trick.card_played(Position::User).is_none());
}

#[test]
fn trick_winner_scenario_without_trump() {
    let mut g = test_helpers::create_test_play_phase();
    assert_eq!(g.contract.trump, None);
    assert_eq!(g.trick.lead_suit(), None);
    assert_eq!(trick_winner(&g), None);
    let h4 = Card::new(Suit::Hearts, Rank::Four);
    g.trick.set_card_played(Position::User, h4);
    assert_eq!(trick_winner(&g), Some((Position::User, h4)));
    let h9 = Card::new(Suit::Hearts, Rank::Nine);
    g.trick.set_card_played(Position::Left, h9);
    assert_eq!(trick_winner(&g), Some((Position::Left, h9)));
    let sa = Card::new(Suit::Spades, Rank::Ace);
    g.trick.set_card_played(Position::Dummy, sa);
    assert_eq!(trick_winner(&g), Some((Position::Left, h9)));
    g.contract.trump = Some(Suit::Clubs);
    let c2 = Card::new(Suit::Clubs, Rank::Two);
    g.trick.set_card_played(Position::Right, c2);
    assert_eq!(trick_winner(&g), Some((Position::Right, c2)));
}

#[test]
fn equal_power_goes_to_earliest_play() {
    let mut g = test_helpers::create_test_play_phase();
    g.trick.lead = Position::User;
    // The lead has not played, so no suit is led and all cards tie.
    g.trick.set_card_played(Position::Dummy, Card::new(Suit::Spades, Rank::Two));
    g.trick.set_card_played(Position::Right, Card::new(Suit::Spades, Rank::Ace));
    assert_eq!(trick_winner(&g), Some((Position::Dummy, Card::new(Suit::Spades, Rank::Two))));
}

#[test]
fn legal_plays_shape() {
    let mut g = test_helpers::create_test_play_phase();
    for p in [Position::Left, Position::Dummy, Position::Right] {
        assert!(legal_plays(&g, p).is_empty());
    }
    let all: Vec<(usize, Card)> = g.game.hand(Position::User).iter().copied().enumerate().collect();
    assert_eq!(legal_plays(&g, Position::User), all);
    // Left holds no spade after the User leads one: it may discard anything.
    play_card(&mut g, CardId::new(Position::User, 12));
    g.game.hands.left_opponent_hand.retain(|c| c.suit != Suit::Spades);
    let left: Vec<(usize, Card)> = g.game.hand(Position::Left).iter().copied().enumerate().collect();
    assert_eq!(legal_plays(&g, Position::Left), left);
    assert!(can_play_card(&g, Position::Left, Card::new(Suit::Hearts, Rank::King)));
    assert!(!can_play_card(&g, Position::Left, Card::new(Suit::Hearts, Rank::Ace)));
    assert!(!can_play_card(&g, Position::Dummy, Card::new(Suit::Spades, Rank::Four)));
}

#[test]
fn cards_are_conserved_through_play() {
    let mut data = test_helpers::create_test_play_phase();
    let agent = test_helpers::create_test_agent();
    let count = |d: &oak::game::PlayPhaseData| {
        let held: usize = [Position::User, Position::Left, Position::Dummy, Position::Right]
            .iter()
            .map(|p| d.game.hand(*p).len())
            .sum();
        let played: usize = d.trick.cards().len() + d.completed_tricks.iter().map(|t| t.trick.cards().len()).sum::<usize>();
        held + played
    };
    assert_eq!(count(&data), 52);
    resolve_card_play_action(&mut data, &*agent, CardId::new(Position::User, 0)).unwrap();
    resolve_card_play_action(&mut data, &*agent, CardId::new(Position::Dummy, 4)).unwrap();
    assert!(data.trick.is_completed());
    assert_eq!(count(&data), 52);
    resolve_continue_action(&mut data, &*agent).unwrap();
    assert_eq!(data.completed_tricks.len(), 1);
    assert_eq!(data.completed_tricks[0].winner, Position::Dummy);
    assert_eq!(count(&data), 52);
    let mut seen = Vec::new();
    for p in [Position::User, Position::Left, Position::Dummy, Position::Right] {
        for c in data.game.hand(p) {
            assert!(!seen.contains(c));
            seen.push(*c);
        }
    }
}

#[test]
fn play_errors_leave_state_unchanged() {
    let mut data = test_helpers::create_test_play_phase();
    let agent = test_helpers::create_test_agent();
    assert_eq!(resolve_card_play_action(&mut data, &*agent, CardId::new(Position::Left, 0)), Err(GameError::NotUsersTurn));
    assert_eq!(resolve_card_play_action(&mut data, &*agent, CardId::new(Position::Dummy, 0)), Err(GameError::IllegalPlay));
    assert_eq!(resolve_card_play_action(&mut data, &*agent, CardId::new(Position::User, 13)), Err(GameError::IllegalPlay));
    assert_eq!(resolve_continue_action(&mut data, &*agent), Err(GameError::TrickNotComplete));
    assert_eq!(data.game.hand(Position::User).len(), 13);
    assert!(data.trick.cards().is_empty());

    let play = PlayedCard { played_by: Position::User, card: Card::new(Suit::Diamonds, Rank::Two) };
    assert_eq!(handle_action(&mut data, PlayPhaseAction::PlayCard(play)), Err(GameError::IllegalPlay));
    let play = PlayedCard { played_by: Position::User, card: Card::new(Suit::Hearts, Rank::Ace) };
    assert_eq!(handle_action(&mut data, PlayPhaseAction::PlayCard(play)), Ok(()));
    assert_eq!(data.trick.card_played(Position::User), Some(Card::new(Suit::Hearts, Rank::Ace)));
    assert_eq!(data.game.hand(Position::User).len(), 12);
}

#[test]
fn session_dispatches_actions() {
    let mut state = test_helpers::create_test_state();
    assert_eq!(state.update(Action::Bid(oak::bidding::Bid::Pass)), Err(GameError::NotAuctionPhase));
    assert_eq!(state.update(Action::Continue), Err(GameError::TrickNotComplete));
    assert_eq!(state.update(Action::Play(CardId::new(Position::User, 0))), Ok(()));
    if let GamePhase::Playing(data) = &state.phase {
        assert_eq!(data.trick.card_played(Position::Left), Some(Card::new(Suit::Clubs, Rank::Four)));
    } else {
        panic!("Expected GamePhase::Playing");
    }
    let mut auction = oak::state::State { phase: GamePhase::Auction(test_helpers::create_test_bid_phase()), agent: test_helpers::create_test_agent() };
    assert_eq!(auction.update(Action::Continue), Err(GameError::NotPlayPhase));
    assert_eq!(auction.update(Action::Play(CardId::new(Position::User, 0))), Err(GameError::NotPlayPhase));
    assert_eq!(auction.update(Action::Bid(oak::bidding::Bid::Query)), Ok(()));
}
