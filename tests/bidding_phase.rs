use oak::auction::{
    advance_to_play_phase, append_bid_response, bids_of_type, has_passed, is_completed,
    next_to_bid, previous_suit_response, query_bid_response, resolve_bid_action,
    suit_bid_response, suit_length,
};
use oak::bidding::{AuctionTurn, Bid, BidResponse, Bidder, HandBalance, HandRating, LengthOperator};
use oak::evaluation::{
    evaluate_hand, hand_balance, hand_evaluation, hand_score, longest_suit, rank_count,
    weakest_suit, HandScore,
};
use oak::game::{Contract, GameData, GameError, GamePhase, Trick};
use oak::primitives::{Position, Rank, Suit, SuitData};
use oak::test_helpers;

fn get_dummy_response(bid: Bid, previous: Vec<AuctionTurn>) -> Vec<BidResponse> {
    let mut g = test_helpers::create_test_bid_phase();
    g.auction.first_bids = previous;
    append_bid_response(&mut g, Bidder::First, bid);
    g.auction.first_bids.last().expect("Expected response").responses.clone()
}

fn query(response: BidResponse) -> AuctionTurn {
    AuctionTurn { bid: Bid::Query, responses: vec![response] }
}

fn queries(r1: BidResponse, r2: BidResponse) -> AuctionTurn {
    AuctionTurn { bid: Bid::Query, responses: vec![r1, r2] }
}

fn run_final_pass(first: Vec<AuctionTurn>, second: Vec<AuctionTurn>, round: usize) -> (Contract, Trick) {
    let agent = test_helpers::create_test_agent();
    let mut game = test_helpers::create_test_bid_phase();
    game.auction.first_bids.extend(first);
    game.auction.second_bids.extend(second);
    game.auction.bid_number = round;
    let mut phase = GamePhase::Auction(game);

    resolve_bid_action(&mut phase, &*agent, Bid::Pass).unwrap();

    if let GamePhase::Playing(data) = phase {
        (data.contract, data.trick)
    } else {
        panic!("Expected GamePhase::Playing")
    }
}

fn get_game(phase: &GamePhase) -> &GameData {
    if let GamePhase::Auction(g) = phase {
        g
    } else {
        panic!("Expected a GamePhase::Auction");
    }
}

#[test]
fn test_has_passed() {
    let mut g = test_helpers::create_test_bid_phase();
    assert_eq!(has_passed(&g.auction, Bidder::First), false);
    g.auction.first_bids.push(AuctionTurn { bid: Bid::Pass, responses: vec![] });
    assert_eq!(has_passed(&g.auction, Bidder::First), true);
    assert_eq!(has_passed(&g.auction, Bidder::Second), false);
}

#[test]
fn test_is_completed() {
    let mut g = test_helpers::create_test_bid_phase();
    assert_eq!(is_completed(&g.auction), false);
    g.auction.first_bids.push(AuctionTurn { bid: Bid::Pass, responses: vec![] });
    assert_eq!(is_completed(&g.auction), false);
    g.auction.second_bids.push(AuctionTurn { bid: Bid::Pass, responses: vec![] });
    assert_eq!(is_completed(&g.auction), true);
}

#[test]
fn test_next_to_bid() {
    let mut g = test_helpers::create_test_bid_phase();
    assert_eq!(next_to_bid(&g.auction), Some(Bidder::First));
    g.auction.first_bids.push(AuctionTurn::query(BidResponse::HandEvaluation(HandRating::Poor, None)));
    assert_eq!(next_to_bid(&g.auction), Some(Bidder::Second));
    g.auction.second_bids.push(AuctionTurn::query(BidResponse::LongestSuit(Suit::Hearts)));
    assert_eq!(next_to_bid(&g.auction), Some(Bidder::First));
    g.auction.first_bids.push(AuctionTurn { bid: Bid::Pass, responses: vec![] });
    assert_eq!(next_to_bid(&g.auction), Some(Bidder::Second));
    g.auction.second_bids.push(AuctionTurn { bid: Bid::Pass, responses: vec![] });
    assert_eq!(next_to_bid(&g.auction), None);
}

#[test]
fn test_bids_of_type() {
    let mut g = test_helpers::create_test_bid_phase();
    assert_eq!(bids_of_type(&g.auction, Bidder::First, Bid::Suit(Suit::Hearts)), 0);
    g.auction.first_bids.push(AuctionTurn::suit(Suit::Hearts, BidResponse::Pass));
    g.auction.first_bids.push(AuctionTurn::suit(Suit::Diamonds, BidResponse::Pass));
    assert_eq!(bids_of_type(&g.auction, Bidder::First, Bid::Suit(Suit::Hearts)), 1);
}

#[test]
fn test_hand_score() {
    let g = test_helpers::create_test_bid_phase();
    // User:  ♣2 ♣6 ♣9 ♣10 ♣A ♥6 ♥9 ♥10 ♥A ♠2 ♠7 ♠8 ♠K
    assert_eq!(
        hand_score(g.hand(Position::User)),
        HandScore {
            counts: SuitData { diamonds: 0, clubs: 5, hearts: 4, spades: 4 },
            scores: SuitData { diamonds: 0, clubs: 4, hearts: 4, spades: 3 }
        }
    );

    // Dummy: ♦6 ♦7 ♦8 ♦K ♣5 ♣K ♥4 ♥7 ♥J ♥Q ♠4 ♠5 ♠10
    assert_eq!(
        hand_score(g.hand(Position::Dummy)),
        HandScore {
            counts: SuitData { diamonds: 4, clubs: 2, hearts: 4, spades: 3 },
            scores: SuitData { diamonds: 3, clubs: 3, hearts: 3, spades: 0 }
        }
    );
}

#[test]
fn test_hand_evaluation() {
    let g = test_helpers::create_test_bid_phase();
    assert_eq!(
        hand_evaluation(hand_score(g.hand(Position::User)), Some(Suit::Clubs)),
        BidResponse::HandEvaluation(HandRating::Excellent, Some(Suit::Clubs))
    );
    assert_eq!(
        hand_evaluation(hand_score(g.hand(Position::User)), Some(Suit::Diamonds)),
        BidResponse::HandEvaluation(HandRating::Fair, Some(Suit::Diamonds))
    );
    assert_eq!(
        hand_evaluation(hand_score(g.hand(Position::Dummy)), Some(Suit::Clubs)),
        BidResponse::HandEvaluation(HandRating::Poor, Some(Suit::Clubs))
    );
    assert_eq!(
        hand_evaluation(hand_score(g.hand(Position::Dummy)), Some(Suit::Diamonds)),
        BidResponse::HandEvaluation(HandRating::Fair, Some(Suit::Diamonds))
    );
}

#[test]
fn test_longest_suit() {
    let g = test_helpers::create_test_bid_phase();
    assert_eq!(longest_suit(hand_score(g.hand(Position::User))), BidResponse::LongestSuit(Suit::Clubs));
    assert_eq!(longest_suit(hand_score(g.hand(Position::Dummy))), BidResponse::LongestSuit(Suit::Hearts));
}

#[test]
fn test_weakest_suit() {
    let g = test_helpers::create_test_bid_phase();
    assert_eq!(weakest_suit(hand_score(g.hand(Position::User))), BidResponse::WeakestSuit(Suit::Diamonds));
    assert_eq!(weakest_suit(hand_score(g.hand(Position::Dummy))), BidResponse::WeakestSuit(Suit::Spades));
}

#[test]
fn test_rank_count() {
    let g = test_helpers::create_test_bid_phase();
    assert_eq!(rank_count(g.hand(Position::User), Rank::Ace), BidResponse::RankCount(Rank::Ace, 2));
    assert_eq!(rank_count(g.hand(Position::User), Rank::King), BidResponse::RankCount(Rank::King, 1));
    assert_eq!(rank_count(g.hand(Position::Dummy), Rank::Ace), BidResponse::RankCount(Rank::Ace, 0));
    assert_eq!(rank_count(g.hand(Position::Dummy), Rank::Queen), BidResponse::RankCount(Rank::Queen, 1));
}

#[test]
fn test_query_bid_responses() {
    // Dummy: ♦6 ♦7 ♦8 ♦K ♣5 ♣K ♥4 ♥7 ♥J ♥Q ♠4 ♠5 ♠10
    let eval = BidResponse::HandEvaluation(HandRating::Poor, None);
    let longest = BidResponse::LongestSuit(Suit::Hearts);
    let balanced = BidResponse::HandBalance(HandBalance::Balanced);
    let weakest = BidResponse::WeakestSuit(Suit::Spades);
    let aces = BidResponse::RankCount(Rank::Ace, 0);

    assert_eq!(get_dummy_response(Bid::Query, vec![]), vec![eval, longest]);
    assert_eq!(get_dummy_response(Bid::Query, vec![queries(eval, longest)]), vec![balanced, weakest]);
    assert_eq!(
        get_dummy_response(Bid::Query, vec![queries(eval, longest), queries(balanced, weakest)]),
        vec![aces]
    );
}

#[test]
fn test_suit_bid_responses() {
    // Dummy: ♦6 ♦7 ♦8 ♦K ♣5 ♣K ♥4 ♥7 ♥J ♥Q ♠4 ♠5 ♠10
    let lt2c = BidResponse::SuitLength(Suit::Clubs, 2, LengthOperator::Lte);
    assert_eq!(get_dummy_response(Bid::Suit(Suit::Clubs), vec![]), vec![lt2c]);

    assert_eq!(
        get_dummy_response(Bid::Suit(Suit::Clubs), vec![AuctionTurn::suit(Suit::Clubs, lt2c)]),
        vec![
            BidResponse::SuitLength(Suit::Clubs, 2, LengthOperator::Equal),
            BidResponse::HandEvaluation(HandRating::Poor, Some(Suit::Clubs))
        ]
    );

    let gt3s = BidResponse::SuitLength(Suit::Spades, 3, LengthOperator::Gte);
    assert_eq!(get_dummy_response(Bid::Suit(Suit::Spades), vec![]), vec![gt3s]);

    assert_eq!(
        get_dummy_response(Bid::Suit(Suit::Spades), vec![AuctionTurn::suit(Suit::Spades, gt3s)]),
        vec![
            BidResponse::SuitLength(Suit::Spades, 3, LengthOperator::Equal),
            BidResponse::HandEvaluation(HandRating::Fair, Some(Suit::Spades))
        ]
    );

    assert_eq!(
        get_dummy_response(Bid::Suit(Suit::Spades), vec![AuctionTurn::suit(Suit::Clubs, lt2c)]),
        vec![BidResponse::SuitLength(Suit::Spades, 3, LengthOperator::Lte)]
    );

    assert_eq!(
        get_dummy_response(
            Bid::Suit(Suit::Hearts),
            vec![
                AuctionTurn::suit(Suit::Clubs, lt2c),
                AuctionTurn::suit(Suit::Hearts, BidResponse::SuitLength(Suit::Hearts, 4, LengthOperator::Gte))
            ]
        ),
        vec![
            BidResponse::SuitLength(Suit::Hearts, 4, LengthOperator::Equal),
            BidResponse::HandEvaluation(HandRating::Fair, Some(Suit::Hearts))
        ]
    );
}

#[test]
fn test_pass_bid_responses() {
    assert_eq!(get_dummy_response(Bid::Pass, vec![]), vec![BidResponse::Pass]);
    assert_eq!(get_dummy_response(Bid::Pass, vec![AuctionTurn::query(BidResponse::Pass)]), vec![BidResponse::Pass]);
}

#[test]
fn test_advance_to_play_phase() {
    let pass = AuctionTurn { bid: Bid::Pass, responses: vec![BidResponse::Pass] };
    let diamonds = AuctionTurn {
        bid: Bid::Suit(Suit::Diamonds),
        responses: vec![BidResponse::SuitLength(Suit::Diamonds, 5, LengthOperator::Gte)],
    };
    let query_turn = AuctionTurn {
        bid: Bid::Query,
        responses: vec![BidResponse::HandEvaluation(HandRating::Good, None)],
    };

    // Both bidders pass once: equal turn counts, so First (User) declares.
    let (contract, trick) = run_final_pass(vec![], vec![], 6);
    assert_eq!(contract, Contract { trump: None, tricks: 6, declarer: Position::User });
    assert_eq!(trick, Trick::new(Position::User));

    let (contract, trick) = run_final_pass(vec![diamonds.clone()], vec![pass.clone()], 7);
    assert_eq!(contract, Contract { trump: Some(Suit::Diamonds), tricks: 7, declarer: Position::User });
    assert_eq!(trick, Trick::new(Position::User));

    let (contract, trick) = run_final_pass(vec![query_turn.clone()], vec![pass.clone()], 7);
    assert_eq!(contract, Contract { trump: None, tricks: 7, declarer: Position::User });
    assert_eq!(trick, Trick::new(Position::User));
}

#[test]
fn test_resolve_bid_action() {
    let g = test_helpers::create_test_bid_phase();
    let mut phase = GamePhase::Auction(g);

    let agent = test_helpers::create_test_agent();
    assert!(resolve_bid_action(&mut phase, &*agent, Bid::Query).is_ok());
    assert_eq!(get_game(&phase).auction.bids(Bidder::First)[0].bid, Bid::Query);
    assert_eq!(
        get_game(&phase).auction.bids(Bidder::First)[0].responses,
        vec![BidResponse::HandEvaluation(HandRating::Poor, None), BidResponse::LongestSuit(Suit::Hearts)]
    );
    assert_eq!(get_game(&phase).auction.bids(Bidder::Second)[0].bid, Bid::Pass);
    assert_eq!(get_game(&phase).auction.bids(Bidder::Second)[0].responses, vec![BidResponse::Pass]);

    assert!(resolve_bid_action(&mut phase, &*agent, Bid::Pass).is_ok());
    if let GamePhase::Playing(data) = phase {
        assert_eq!(data.contract, Contract { trump: None, tricks: 7, declarer: Position::User });
        assert_eq!(data.trick, Trick::new(Position::User))
    } else {
        panic!("Expected GamePhase::Playing");
    }
}

#[test]
fn both_bidders_pass_at_six() {
    let (contract, trick) = run_final_pass(vec![], vec![], 6);
    assert_eq!(contract, Contract { trump: None, tricks: 6, declarer: Position::User });
    assert_eq!(trick.lead, Position::User);
}

#[test]
fn declarer_is_bidder_with_more_turns() {
    let pass = AuctionTurn { bid: Bid::Pass, responses: vec![BidResponse::Pass] };
    let hearts = AuctionTurn::suit(Suit::Hearts, BidResponse::Pass);
    let mut game = test_helpers::create_test_bid_phase();
    game.auction.first_bids.push(pass.clone());
    game.auction.second_bids.push(hearts.clone());
    game.auction.second_bids.push(pass.clone());
    game.auction.bid_number = 9;
    let mut phase = GamePhase::Auction(game);
    assert_eq!(advance_to_play_phase(&mut phase), Ok(()));
    if let GamePhase::Playing(data) = phase {
        assert_eq!(data.contract, Contract { trump: Some(Suit::Hearts), tricks: 8, declarer: Position::Right });
        assert_eq!(data.trick, Trick::new(Position::Right));
        assert!(data.completed_tricks.is_empty());
    } else {
        panic!("Expected GamePhase::Playing");
    }
}

#[test]
fn bidding_errors_leave_phase_unchanged() {
    let agent = test_helpers::create_test_agent();
    let mut phase = GamePhase::Starting;
    assert_eq!(resolve_bid_action(&mut phase, &*agent, Bid::Query), Err(GameError::NotAuctionPhase));
    assert_eq!(advance_to_play_phase(&mut phase), Err(GameError::NotAuctionPhase));
    assert!(matches!(phase, GamePhase::Starting));

    let mut game = test_helpers::create_test_bid_phase();
    game.auction.first = Position::Left;
    game.auction.second = Position::User;
    let mut phase = GamePhase::Auction(game);
    assert_eq!(resolve_bid_action(&mut phase, &*agent, Bid::Query), Err(GameError::NotUsersTurn));
    assert!(get_game(&phase).auction.first_bids.is_empty());

    let mut done = test_helpers::create_test_bid_phase();
    done.auction.first_bids.push(AuctionTurn { bid: Bid::Pass, responses: vec![] });
    done.auction.second_bids.push(AuctionTurn { bid: Bid::Pass, responses: vec![] });
    let mut phase = GamePhase::Auction(done);
    assert_eq!(resolve_bid_action(&mut phase, &*agent, Bid::Pass), Err(GameError::NotUsersTurn));
}

#[test]
fn next_to_bid_none_exactly_when_completed() {
    let mut g = test_helpers::create_test_bid_phase();
    for (turn, bidder) in [(Bid::Query, Bidder::First), (Bid::Pass, Bidder::Second), (Bid::Query, Bidder::First), (Bid::Pass, Bidder::First)] {
        assert_eq!(next_to_bid(&g.auction).is_none(), is_completed(&g.auction));
        append_bid_response(&mut g, bidder, turn);
        if let Some(b) = next_to_bid(&g.auction) {
            assert!(!has_passed(&g.auction, b));
        }
    }
    assert!(is_completed(&g.auction));
    assert_eq!(next_to_bid(&g.auction), None);
}

#[test]
fn bid_number_rises_once_per_round() {
    let mut g = test_helpers::create_test_bid_phase();
    append_bid_response(&mut g, Bidder::First, Bid::Query);
    assert_eq!(g.auction.bid_number, 6);
    append_bid_response(&mut g, Bidder::Second, Bid::Query);
    assert_eq!(g.auction.bid_number, 7);
    append_bid_response(&mut g, Bidder::First, Bid::Pass);
    assert_eq!(g.auction.bid_number, 7);
    append_bid_response(&mut g, Bidder::Second, Bid::Query);
    assert_eq!(g.auction.bid_number, 8);
    append_bid_response(&mut g, Bidder::Second, Bid::Query);
    assert_eq!(g.auction.bid_number, 9);
}

#[test]
fn repeated_suit_bid_narrows_by_one() {
    // Dummy holds 4 diamonds: first ask (second turn) says at least 4;
    // Left holds 5 diamonds and answers for Right.
    let mut g = test_helpers::create_test_bid_phase();
    g.auction.second = Position::Right;
    append_bid_response(&mut g, Bidder::Second, Bid::Query);
    append_bid_response(&mut g, Bidder::Second, Bid::Suit(Suit::Diamonds));
    assert_eq!(
        g.auction.second_bids[1].responses,
        vec![BidResponse::SuitLength(Suit::Diamonds, 4, LengthOperator::Gte)]
    );
    append_bid_response(&mut g, Bidder::Second, Bid::Suit(Suit::Diamonds));
    assert_eq!(g.auction.second_bids[2].responses[0], BidResponse::SuitLength(Suit::Diamonds, 5, LengthOperator::Gte));
    append_bid_response(&mut g, Bidder::Second, Bid::Suit(Suit::Diamonds));
    assert_eq!(g.auction.second_bids[3].responses[0], BidResponse::SuitLength(Suit::Diamonds, 5, LengthOperator::Equal));
    assert_eq!(previous_suit_response(&g, Bidder::Second, Suit::Diamonds), Some((5, LengthOperator::Equal)));
    assert_eq!(previous_suit_response(&g, Bidder::Second, Suit::Clubs), None);

    // User's partner (Dummy) holds 2 clubs: at most 3, at most 2, then 2 exactly.
    let mut h = test_helpers::create_test_bid_phase();
    append_bid_response(&mut h, Bidder::First, Bid::Query);
    append_bid_response(&mut h, Bidder::First, Bid::Suit(Suit::Clubs));
    assert_eq!(h.auction.first_bids[1].responses, vec![BidResponse::SuitLength(Suit::Clubs, 3, LengthOperator::Lte)]);
    append_bid_response(&mut h, Bidder::First, Bid::Suit(Suit::Clubs));
    assert_eq!(h.auction.first_bids[2].responses[0], BidResponse::SuitLength(Suit::Clubs, 2, LengthOperator::Lte));
    append_bid_response(&mut h, Bidder::First, Bid::Suit(Suit::Clubs));
    assert_eq!(h.auction.first_bids[3].responses[0], BidResponse::SuitLength(Suit::Clubs, 2, LengthOperator::Equal));
}

#[test]
fn query_sequence_runs_out() {
    let g = test_helpers::create_test_bid_phase();
    let mut h = g.clone();
    for _ in 0..6 {
        append_bid_response(&mut h, Bidder::First, Bid::Query);
    }
    assert_eq!(h.auction.first_bids[3].responses, vec![BidResponse::RankCount(Rank::King, 2)]);
    assert_eq!(h.auction.first_bids[4].responses, vec![BidResponse::RankCount(Rank::Queen, 1)]);
    assert_eq!(h.auction.first_bids[5].responses, vec![BidResponse::RankCount(Rank::Jack, 1)]);
    assert_eq!(query_bid_response(&h, Bidder::First), vec![BidResponse::Pass]);
    assert_eq!(suit_bid_response(&g, Bidder::First, Suit::Hearts), vec![BidResponse::SuitLength(Suit::Hearts, 3, LengthOperator::Gte)]);
}

#[test]
fn evaluation_formulas() {
    let g = test_helpers::create_test_bid_phase();
    let user = hand_score(g.hand(Position::User));
    assert_eq!(evaluate_hand(user, None), 11);
    assert_eq!(evaluate_hand(user, Some(Suit::Clubs)), 16);
    assert_eq!(evaluate_hand(user, Some(Suit::Diamonds)), 11);
    let dummy = hand_score(g.hand(Position::Dummy));
    assert_eq!(evaluate_hand(dummy, Some(Suit::Hearts)), 10);
    assert_eq!(hand_balance(user), BidResponse::HandBalance(HandBalance::Unbalanced));
    assert_eq!(hand_balance(dummy), BidResponse::HandBalance(HandBalance::Balanced));
    let two_doubletons = HandScore {
        counts: SuitData { diamonds: 2, clubs: 2, hearts: 4, spades: 5 },
        scores: SuitData { diamonds: 0, clubs: 0, hearts: 0, spades: 0 },
    };
    assert_eq!(hand_balance(two_doubletons), BidResponse::HandBalance(HandBalance::Unbalanced));
    assert_eq!(longest_suit(two_doubletons), BidResponse::LongestSuit(Suit::Spades));
    assert_eq!(weakest_suit(two_doubletons), BidResponse::WeakestSuit(Suit::Diamonds));
    assert_eq!(suit_length(Suit::Hearts, 3, 3, LengthOperator::Equal), BidResponse::SuitLength(Suit::Hearts, 3, LengthOperator::Equal));
    assert_eq!(suit_length(Suit::Hearts, 1, 3, LengthOperator::Equal), BidResponse::SuitLength(Suit::Hearts, 3, LengthOperator::Lte));
}

#[test]
fn empty_hand_scores_zero() {
    let empty: Vec<oak::primitives::Card> = vec![];
    let score = hand_score(&empty);
    assert_eq!(score.counts.sum(), 0);
    assert_eq!(score.scores.sum(), 0);
    assert_eq!(evaluate_hand(score, None), 0);
    // Every non-trump suit is void: 3 × 5 short-suit points.
    assert_eq!(evaluate_hand(score, Some(Suit::Hearts)), 15);
    assert_eq!(hand_evaluation(score, Some(Suit::Hearts)), BidResponse::HandEvaluation(HandRating::Good, Some(Suit::Hearts)));
    assert_eq!(rank_count(&empty, Rank::Ace), BidResponse::RankCount(Rank::Ace, 0));
    assert_eq!(longest_suit(score), BidResponse::LongestSuit(Suit::Spades));
    assert_eq!(weakest_suit(score), BidResponse::WeakestSuit(Suit::Diamonds));
}
