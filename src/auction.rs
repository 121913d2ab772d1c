//! The auction state machine: whose turn it is to bid, the coded response to
//! each bid, completion, and the contract that results.

use vstd::prelude::*;

use crate::agent::Agent;
use crate::bidding::{compare_length, Auction, AuctionTurn, Bid, BidResponse, Bidder, LengthOperator};
use crate::evaluation::{
    balance_response, evaluation_response, hand_balance, hand_evaluation, hand_fits, hand_score,
    lemma_score_of, longest_of, longest_suit, rank_count, rank_total, score_of, suit_count,
    weakest_of, weakest_suit,
};
use crate::game::{Contract, GameData, GameError, GamePhase, PlayPhaseData, Trick};
use crate::primitives::{Card, Position, Rank, Suit};

verus! {

/// A bidder has made a Pass bid.
pub open spec fn passed(turns: Seq<AuctionTurn>) -> bool {
    exists|i: int| 0 <= i < turns.len() && (#[trigger] turns[i]).bid == Bid::Pass
}

/// Both bidders have passed.
pub open spec fn completed(auction: Auction) -> bool {
    passed(auction.turns(Bidder::First)) && passed(auction.turns(Bidder::Second))
}

/// The bidder to act next, or None once both have passed.
pub open spec fn bidder_to_act(auction: Auction) -> Option<Bidder> {
    let first = passed(auction.turns(Bidder::First));
    let second = passed(auction.turns(Bidder::Second));
    if first && second {
        None
    } else if first {
        Some(Bidder::Second)
    } else if second {
        Some(Bidder::First)
    } else if auction.turns(Bidder::First).len() > auction.turns(Bidder::Second).len() {
        Some(Bidder::Second)
    } else {
        Some(Bidder::First)
    }
}

/// The number of turns with a given bid.
pub open spec fn bid_count(turns: Seq<AuctionTurn>, bid: Bid) -> nat
    decreases turns.len(),
{
    if turns.len() == 0 {
        0
    } else {
        bid_count(turns.drop_last(), bid) + if turns.last().bid == bid {
            1nat
        } else {
            0nat
        }
    }
}

/// Returns true if this [Bidder] has passed in the auction.
pub fn has_passed(auction: &Auction, bidder: Bidder) -> (r: bool)
    ensures
        r == passed(auction.turns(bidder)),
{
    let turns = auction.bids(bidder);
    let mut i: usize = 0;
    while i < turns.len()
        invariant
            0 <= i <= turns@.len(),
            turns@ == auction.turns(bidder),
            forall|j: int| 0 <= j < i ==> (#[trigger] turns@[j]).bid != Bid::Pass,
        decreases turns@.len() - i,
    {
        if turns[i].bid == Bid::Pass {
            return true;
        }
        i = i + 1;
    }
    false
}

/// Returns true if both [Bidder]s have passed in the auction.
pub fn is_completed(auction: &Auction) -> (r: bool)
    ensures
        r == completed(*auction),
{
    has_passed(auction, Bidder::First) && has_passed(auction, Bidder::Second)
}

/// Returns the [Bidder] which should make the next bid, or None if bidding
/// has been completed.
pub fn next_to_bid(auction: &Auction) -> (r: Option<Bidder>)
    ensures
        r == bidder_to_act(*auction),
        r.is_none() <==> completed(*auction),
        r matches Some(b) ==> !passed(auction.turns(b)),
{
    match (has_passed(auction, Bidder::First), has_passed(auction, Bidder::Second)) {
        (true, true) => None,
        (true, false) => Some(Bidder::Second),
        (false, true) => Some(Bidder::First),
        (false, false) => {
            if auction.bids(Bidder::First).len() > auction.bids(Bidder::Second).len() {
                Some(Bidder::Second)
            } else {
                Some(Bidder::First)
            }
        },
    }
}

/// The bidder to act is None exactly when the auction is complete, and is
/// otherwise a bidder that has not passed.
pub proof fn lemma_next_to_bid_completion(auction: Auction)
    ensures
        bidder_to_act(auction).is_none() <==> completed(auction),
        bidder_to_act(auction) matches Some(b) ==> !passed(auction.turns(b)),
{
}

/// Returns the number of bids of a given [Bid] type this [Bidder] has
/// already placed.
pub fn bids_of_type(auction: &Auction, bidder: Bidder, bid: Bid) -> (r: usize)
    ensures
        r == bid_count(auction.turns(bidder), bid),
{
    let turns = auction.bids(bidder);
    let mut n: usize = 0;
    let mut i: usize = 0;
    while i < turns.len()
        invariant
            0 <= i <= turns@.len(),
            turns@ == auction.turns(bidder),
            n == bid_count(turns@.subrange(0, i as int), bid),
            n <= i,
        decreases turns@.len() - i,
    {
        proof {
            assert(turns@.subrange(0, i + 1).drop_last() =~= turns@.subrange(0, i as int));
        }
        if turns[i].bid == bid {
            n = n + 1;
        }
        i = i + 1;
    }
    proof {
        assert(turns@.subrange(0, turns@.len() as int) =~= turns@);
    }
    n
}

/// The responses to a Query, by how many Queries the bidder made before:
/// evaluation and longest suit, then balance and weakest suit, then the
/// counts of aces, kings, queens and jacks, then nothing.
pub open spec fn query_responses(hand: Seq<Card>, asked: nat) -> Seq<BidResponse> {
    let score = score_of(hand);
    if asked == 0 {
        seq![evaluation_response(score, None), BidResponse::LongestSuit(longest_of(score))]
    } else if asked == 1 {
        seq![balance_response(score), BidResponse::WeakestSuit(weakest_of(score))]
    } else if asked == 2 {
        seq![BidResponse::RankCount(Rank::Ace, rank_total(hand, Rank::Ace) as usize)]
    } else if asked == 3 {
        seq![BidResponse::RankCount(Rank::King, rank_total(hand, Rank::King) as usize)]
    } else if asked == 4 {
        seq![BidResponse::RankCount(Rank::Queen, rank_total(hand, Rank::Queen) as usize)]
    } else if asked == 5 {
        seq![BidResponse::RankCount(Rank::Jack, rank_total(hand, Rank::Jack) as usize)]
    } else {
        seq![BidResponse::Pass]
    }
}

/// The hand that answers for a bidder: the partner of the bidder's seat.
pub open spec fn answering_hand(game: GameData, bidder: Bidder) -> Seq<Card> {
    game.hand_of(game.auction.seat(bidder).spec_partner())
}

/// Every hand of the game is short enough to be scored.
pub open spec fn hands_fit(game: GameData) -> bool {
    forall|p: Position| #[trigger] hand_fits(game.hand_of(p))
}

/// Returns the responses to a [Bid::Query] bid.
pub fn query_bid_response(game: &GameData, bidder: Bidder) -> (r: Vec<BidResponse>)
    requires
        hands_fit(*game),
    ensures
        r@ == query_responses(
            answering_hand(*game, bidder),
            bid_count(game.auction.turns(bidder), Bid::Query),
        ),
{
    let hand = game.hand(game.auction.position(bidder).partner());
    let score = hand_score(hand.as_slice());
    proof {
        lemma_score_of(hand@);
    }
    let asked = bids_of_type(&game.auction, bidder, Bid::Query);
    if asked == 0 {
        vec![hand_evaluation(score, None), longest_suit(score)]
    } else if asked == 1 {
        vec![hand_balance(score), weakest_suit(score)]
    } else if asked == 2 {
        vec![rank_count(hand.as_slice(), Rank::Ace)]
    } else if asked == 3 {
        vec![rank_count(hand.as_slice(), Rank::King)]
    } else if asked == 4 {
        vec![rank_count(hand.as_slice(), Rank::Queen)]
    } else if asked == 5 {
        vec![rank_count(hand.as_slice(), Rank::Jack)]
    } else {
        vec![BidResponse::Pass]
    }
}

/// The first suit-length response for `suit` among `responses[j..]`.
pub open spec fn length_in(responses: Seq<BidResponse>, suit: Suit, j: int) -> Option<
    (usize, LengthOperator),
>
    decreases responses.len() - j,
{
    if j < 0 || j >= responses.len() {
        None
    } else {
        match responses[j] {
            BidResponse::SuitLength(s, n, op) => if s == suit {
                Some((n, op))
            } else {
                length_in(responses, suit, j + 1)
            },
            _ => length_in(responses, suit, j + 1),
        }
    }
}

/// The most recent suit-length response given for `suit`, searching the
/// latest turn first.
pub open spec fn last_length(turns: Seq<AuctionTurn>, suit: Suit) -> Option<(usize, LengthOperator)>
    decreases turns.len(),
{
    if turns.len() == 0 {
        None
    } else {
        match length_in(turns.last().responses@, suit, 0) {
            Some(x) => Some(x),
            None => last_length(turns.drop_last(), suit),
        }
    }
}

/// Returns the result given in the most recent [BidResponse::SuitLength] for
/// this [Bidder] and suit, if any.
pub fn previous_suit_response(game: &GameData, bidder: Bidder, suit: Suit) -> (r: Option<
    (usize, LengthOperator),
>)
    ensures
        r == last_length(game.auction.turns(bidder), suit),
{
    let turns = game.auction.bids(bidder);
    let mut k: usize = turns.len();
    proof {
        assert(turns@.subrange(0, turns@.len() as int) =~= turns@);
    }
    while k > 0
        invariant
            0 <= k <= turns@.len(),
            turns@ == game.auction.turns(bidder),
            last_length(turns@, suit) == last_length(turns@.subrange(0, k as int), suit),
        decreases k,
    {
        let ghost pre = turns@.subrange(0, k as int);
        proof {
            assert(pre.drop_last() =~= turns@.subrange(0, k - 1));
            assert(pre.last() == turns@[k - 1]);
        }
        let responses = &turns[k - 1].responses;
        let mut j: usize = 0;
        while j < responses.len()
            invariant
                0 <= j <= responses@.len(),
                0 < k <= turns@.len(),
                pre == turns@.subrange(0, k as int),
                pre.len() > 0,
                turns@ == game.auction.turns(bidder),
                last_length(turns@, suit) == last_length(pre, suit),
                responses@ == pre.last().responses@,
                length_in(responses@, suit, 0) == length_in(responses@, suit, j as int),
            decreases responses@.len() - j,
        {
            match responses[j] {
                BidResponse::SuitLength(s, n, op) => {
                    if s == suit {
                        assert(length_in(responses@, suit, j as int) == Some((n, op)));
                        assert(last_length(pre, suit) == Some((n, op)));
                        return Some((n, op));
                    }
                },
                _ => {},
            }
            j = j + 1;
        }
        assert(length_in(responses@, suit, j as int) == None::<(usize, LengthOperator)>);
        k = k - 1;
    }
    proof {
        assert(turns@.subrange(0, 0) =~= Seq::<AuctionTurn>::empty());
        assert(turns@.subrange(0, turns@.len() as int) =~= turns@);
    }
    None
}

/// Constructs a [BidResponse::SuitLength] by comparing the length held with
/// a target, returning `bias` if they are equal.
pub fn suit_length(suit: Suit, have: usize, constraint: usize, bias: LengthOperator) -> (r:
    BidResponse)
    ensures
        r == BidResponse::SuitLength(
            suit,
            constraint,
            compare_length(have as int, constraint as int, bias),
        ),
{
    BidResponse::SuitLength(suit, constraint, LengthOperator::compare(have, constraint, bias))
}

/// A recorded bound narrowed by one card in its own direction: an `Lte`
/// bound goes down (never below zero), a `Gte` bound goes up (never past the
/// largest `usize`), an `Equal` bound stays.
pub open spec fn narrowed(prev: usize, op: LengthOperator) -> usize {
    match op {
        LengthOperator::Lte => if prev > 0 {
            (prev - 1) as usize
        } else {
            0
        },
        LengthOperator::Gte => if prev < usize::MAX {
            (prev + 1) as usize
        } else {
            prev
        },
        LengthOperator::Equal => prev,
    }
}

/// The length response to a suit asked again after a bound `(prev, op)`:
/// Equal when the count is exactly the bound, else the narrowed bound.
pub open spec fn repeat_length(suit: Suit, count: nat, prev: usize, op: LengthOperator) -> BidResponse {
    if prev == count {
        BidResponse::SuitLength(suit, prev, LengthOperator::Equal)
    } else {
        BidResponse::SuitLength(
            suit,
            narrowed(prev, op),
            compare_length(count as int, narrowed(prev, op) as int, op),
        )
    }
}

/// The length response to a suit asked for the first time: at most
/// `target - 1` cards, or at least `target`.
pub open spec fn first_length(suit: Suit, count: nat, target: usize) -> BidResponse {
    if count < target {
        BidResponse::SuitLength(suit, (target - 1) as usize, LengthOperator::Lte)
    } else {
        BidResponse::SuitLength(suit, target, LengthOperator::Gte)
    }
}

/// The responses to a Suit bid. A first ask compares with 3 on the bidder's
/// first turn and with 4 after; a repeated ask narrows the earlier bound and
/// adds an evaluation with that suit as trump.
pub open spec fn suit_responses(hand: Seq<Card>, turns: Seq<AuctionTurn>, suit: Suit) -> Seq<
    BidResponse,
> {
    let count = suit_count(hand, suit);
    match last_length(turns, suit) {
        Some((prev, op)) => seq![
            repeat_length(suit, count, prev, op),
            evaluation_response(score_of(hand), Some(suit)),
        ],
        None => seq![
            first_length(
                suit,
                count,
                if turns.len() == 0 {
                    3
                } else {
                    4
                },
            ),
        ],
    }
}

/// Returns the responses to a [Bid::Suit] bid.
pub fn suit_bid_response(game: &GameData, bidder: Bidder, suit: Suit) -> (r: Vec<BidResponse>)
    requires
        hands_fit(*game),
    ensures
        r@ == suit_responses(answering_hand(*game, bidder), game.auction.turns(bidder), suit),
{
    let hand = game.hand(game.auction.position(bidder).partner());
    let score = hand_score(hand.as_slice());
    proof {
        lemma_score_of(hand@);
    }
    let count = score.counts.get(suit);
    match previous_suit_response(game, bidder, suit) {
        Some((prev, op)) => {
            let length = if prev == count {
                suit_length(suit, count, prev, LengthOperator::Equal)
            } else {
                match op {
                    LengthOperator::Lte => {
                        let bound = if prev > 0 {
                            prev - 1
                        } else {
                            0
                        };
                        suit_length(suit, count, bound, op)
                    },
                    LengthOperator::Gte => {
                        let bound = if prev < usize::MAX {
                            prev + 1
                        } else {
                            prev
                        };
                        suit_length(suit, count, bound, op)
                    },
                    LengthOperator::Equal => suit_length(suit, count, prev, op),
                }
            };
            vec![length, hand_evaluation(score, Some(suit))]
        },
        None => {
            let target: usize = if game.auction.bids(bidder).len() == 0 {
                3
            } else {
                4
            };
            if count < target {
                vec![BidResponse::SuitLength(suit, target - 1, LengthOperator::Lte)]
            } else {
                vec![BidResponse::SuitLength(suit, target, LengthOperator::Gte)]
            }
        },
    }
}

/// A first-time suit response tells the truth about the count.
pub proof fn lemma_first_length_truthful(suit: Suit, count: nat, target: usize)
    requires
        target >= 1,
    ensures
        first_length(suit, count, target) matches BidResponse::SuitLength(s, b, op) && s == suit
            && op != LengthOperator::Equal && (op == LengthOperator::Lte ==> count <= b) && (op
            == LengthOperator::Gte ==> count >= b),
{
}

/// Asking again for a suit whose most recent recorded bound `(prev, op)` is
/// a true `Lte` or `Gte` bound on the answering hand: the new length response
/// is Equal at `prev` when the count is exactly `prev`, and otherwise the
/// bound moved by exactly one card in the same direction.
pub proof fn lemma_repeat_narrows_by_one(hand: Seq<Card>, turns: Seq<AuctionTurn>, suit: Suit)
    requires
        hand_fits(hand),
        last_length(turns, suit) is Some,
        last_length(turns, suit).unwrap().1 != LengthOperator::Equal,
        last_length(turns, suit).unwrap().1 == LengthOperator::Lte ==> suit_count(hand, suit)
            <= last_length(turns, suit).unwrap().0,
        last_length(turns, suit).unwrap().1 == LengthOperator::Gte ==> suit_count(hand, suit)
            >= last_length(turns, suit).unwrap().0,
    ensures
        suit_responses(hand, turns, suit).len() == 2,
        suit_count(hand, suit) == last_length(turns, suit).unwrap().0 ==> suit_responses(
            hand,
            turns,
            suit,
        )[0] == BidResponse::SuitLength(
            suit,
            last_length(turns, suit).unwrap().0,
            LengthOperator::Equal,
        ),
        suit_count(hand, suit) != last_length(turns, suit).unwrap().0 && last_length(
            turns,
            suit,
        ).unwrap().1 == LengthOperator::Lte ==> suit_responses(hand, turns, suit)[0]
            == BidResponse::SuitLength(
            suit,
            (last_length(turns, suit).unwrap().0 - 1) as usize,
            LengthOperator::Lte,
        ),
        suit_count(hand, suit) != last_length(turns, suit).unwrap().0 && last_length(
            turns,
            suit,
        ).unwrap().1 == LengthOperator::Gte ==> suit_responses(hand, turns, suit)[0]
            == BidResponse::SuitLength(
            suit,
            (last_length(turns, suit).unwrap().0 + 1) as usize,
            LengthOperator::Gte,
        ),
{
    lemma_score_of(hand);
}

/// The responses the engine gives to a bid.
pub open spec fn responses_for(game: GameData, bidder: Bidder, bid: Bid) -> Seq<BidResponse> {
    let hand = answering_hand(game, bidder);
    let turns = game.auction.turns(bidder);
    match bid {
        Bid::Query => query_responses(hand, bid_count(turns, Bid::Query)),
        Bid::Suit(s) => suit_responses(hand, turns, s),
        Bid::Pass => seq![BidResponse::Pass],
    }
}

/// `after` is `before` with one turn `(bid, responses)` appended for
/// `bidder`, and the bid number raised when both bidders have now taken as
/// many turns or the other bidder has passed.
pub open spec fn bid_applied(before: GameData, after: GameData, bidder: Bidder, bid: Bid) -> bool {
    let b = before.auction;
    let a = after.auction;
    &&& forall|p: Position| #[trigger] after.hand_of(p) == before.hand_of(p)
    &&& after.debug == before.debug
    &&& a.first == b.first
    &&& a.second == b.second
    &&& a.turns(bidder.spec_opposite()) == b.turns(bidder.spec_opposite())
    &&& a.turns(bidder).len() == b.turns(bidder).len() + 1
    &&& a.turns(bidder).drop_last() == b.turns(bidder)
    &&& a.turns(bidder).last().bid == bid
    &&& a.turns(bidder).last().responses@ == responses_for(before, bidder, bid)
    &&& a.bid_number == b.bid_number + if a.turns(Bidder::First).len() == a.turns(
        Bidder::Second,
    ).len() || passed(b.turns(bidder.spec_opposite())) {
        1int
    } else {
        0int
    }
}

/// Appends the [AuctionTurn] for a [Bid] from a given [Bidder], with the
/// responses it draws, raising the bid number if needed.
pub fn append_bid_response(game: &mut GameData, bidder: Bidder, bid: Bid)
    requires
        hands_fit(*old(game)),
        old(game).auction.bid_number < usize::MAX,
    ensures
        bid_applied(*old(game), *final(game), bidder, bid),
{
    let responses = match bid {
        Bid::Query => query_bid_response(game, bidder),
        Bid::Suit(suit) => suit_bid_response(game, bidder, suit),
        Bid::Pass => vec![BidResponse::Pass],
    };
    let ghost before = *game;
    assert(responses@ == responses_for(before, bidder, bid));
    let turn = AuctionTurn { bid, responses };
    assert(turn.responses@ == responses_for(before, bidder, bid));
    game.auction.bids_mut(bidder).push(turn);
    proof {
        assert(game.auction.turns(bidder).last() == turn);
        assert(game.auction.turns(bidder).drop_last() =~= before.auction.turns(bidder));
    }
    if game.auction.first_bids.len() == game.auction.second_bids.len() || has_passed(
        &game.auction,
        bidder.opposite(),
    ) {
        game.auction.bid_number = game.auction.bid_number + 1;
    }
}

/// The suit of the declarer's most recent bid other than Pass, if that bid
/// was a Suit bid.
pub open spec fn trump_of(turns: Seq<AuctionTurn>) -> Option<Suit>
    decreases turns.len(),
{
    if turns.len() == 0 {
        None
    } else {
        match turns.last().bid {
            Bid::Pass => trump_of(turns.drop_last()),
            Bid::Suit(s) => Some(s),
            Bid::Query => None,
        }
    }
}

/// The declaring bidder: the one with more turns, First on a tie.
pub open spec fn declarer_of(auction: Auction) -> Bidder {
    if auction.turns(Bidder::First).len() >= auction.turns(Bidder::Second).len() {
        Bidder::First
    } else {
        Bidder::Second
    }
}

/// The contract a finished auction yields. The final round of bidding does
/// not count toward the trick target.
pub open spec fn contract_of(auction: Auction) -> Contract {
    let d = declarer_of(auction);
    Contract {
        trump: trump_of(auction.turns(d)),
        tricks: (auction.bid_number - 1) as usize,
        declarer: auction.seat(d),
    }
}

fn find_contract(game: &GameData, declarer: Bidder) -> (r: Contract)
    requires
        game.auction.bid_number >= 1,
    ensures
        r.trump == trump_of(game.auction.turns(declarer)),
        r.tricks == game.auction.bid_number - 1,
        r.declarer == game.auction.seat(declarer),
{
    let turns = game.auction.bids(declarer);
    let mut k: usize = turns.len();
    let mut trump: Option<Suit> = None;
    proof {
        assert(turns@.subrange(0, turns@.len() as int) =~= turns@);
    }
    while k > 0
        invariant_except_break
            trump.is_none(),
        invariant
            0 <= k <= turns@.len(),
            turns@ == game.auction.turns(declarer),
            trump_of(turns@) == trump_of(turns@.subrange(0, k as int)),
        ensures
            trump == trump_of(turns@),
        decreases k,
    {
        proof {
            assert(turns@.subrange(0, k as int).drop_last() =~= turns@.subrange(0, k - 1));
            assert(turns@.subrange(0, k as int).last() == turns@[k - 1]);
        }
        match turns[k - 1].bid {
            Bid::Pass => {},
            Bid::Suit(s) => {
                trump = Some(s);
                break ;
            },
            Bid::Query => {
                break ;
            },
        }
        k = k - 1;
    }
    proof {
        assert(turns@.subrange(0, 0) =~= Seq::<AuctionTurn>::empty());
    }
    Contract {
        trump,
        tricks: game.auction.bid_number - 1,
        declarer: game.auction.position(declarer),
    }
}

/// The play phase that a finished auction opens: the declarer leads the
/// first trick, and no trick has been played.
pub open spec fn play_opened(game: GameData, data: PlayPhaseData) -> bool {
    &&& data.game == game
    &&& data.contract == contract_of(game.auction)
    &&& data.trick.lead == data.contract.declarer
    &&& data.trick.user_play.is_none() && data.trick.dummy_play.is_none()
        && data.trick.left_play.is_none() && data.trick.right_play.is_none()
    &&& data.completed_tricks@.len() == 0
}

/// Moves the game from the auction into the play phase, fixing the contract.
/// Fails, leaving the phase unchanged, outside the auction.
pub fn advance_to_play_phase(phase: &mut GamePhase) -> (r: Result<(), GameError>)
    requires
        *old(phase) matches GamePhase::Auction(g) ==> g.auction.bid_number >= 1,
    ensures
        match *old(phase) {
            GamePhase::Auction(g) => r is Ok && (match *final(phase) {
                GamePhase::Playing(d) => play_opened(g, d) && (g.wf() ==> d.wf()),
                _ => false,
            }),
            _ => r == Err::<(), GameError>(GameError::NotAuctionPhase) && *final(phase) == *old(
                phase,
            ),
        },
{
    match phase {
        GamePhase::Auction(_) => {},
        _ => {
            return Err(GameError::NotAuctionPhase);
        },
    }
    let mut taken = GamePhase::Starting;
    std::mem::swap(phase, &mut taken);
    match taken {
        GamePhase::Auction(game) => {
            let declarer = if game.auction.first_bids.len() >= game.auction.second_bids.len() {
                Bidder::First
            } else {
                Bidder::Second
            };
            let trick = Trick::new(game.auction.position(declarer));
            let contract = find_contract(&game, declarer);
            let completed_tricks = Vec::new();
            let data = PlayPhaseData { game, trick, contract, completed_tricks };
            proof {
                assert(data.trick.card_multiset() =~= vstd::multiset::Multiset::empty());
                assert(data.all_cards() =~= data.game.held_cards());
            }
            *phase = GamePhase::Playing(data);
            Ok(())
        },
        _ => Err(GameError::NotAuctionPhase),
    }
}

/// A bidder has passed after a turn iff it had passed before or that turn
/// was a Pass.
pub proof fn lemma_passed_last(turns: Seq<AuctionTurn>)
    requires
        turns.len() > 0,
    ensures
        passed(turns) == (passed(turns.drop_last()) || turns.last().bid == Bid::Pass),
{
    let init = turns.drop_last();
    if passed(init) {
        let i = choose|i: int| 0 <= i < init.len() && (#[trigger] init[i]).bid == Bid::Pass;
        assert(turns[i] == init[i]);
    }
    if turns.last().bid == Bid::Pass {
        assert(turns[turns.len() - 1] == turns.last());
    }
    if passed(turns) {
        let i = choose|i: int| 0 <= i < turns.len() && (#[trigger] turns[i]).bid == Bid::Pass;
        if i < turns.len() - 1 {
            assert(turns[i] == init[i]);
        }
    }
}

/// The hands do not change during the auction, so neither does the deal.
proof fn lemma_bid_keeps_deal(before: GameData, after: GameData, bidder: Bidder, bid: Bid)
    requires
        bid_applied(before, after, bidder, bid),
    ensures
        after.held_cards() == before.held_cards(),
        hands_fit(before) ==> hands_fit(after),
        passed(after.auction.turns(bidder)) == (passed(before.auction.turns(bidder)) || bid
            == Bid::Pass),
{
    assert(after.hand_of(Position::User) == before.hand_of(Position::User));
    assert(after.hand_of(Position::Left) == before.hand_of(Position::Left));
    assert(after.hand_of(Position::Dummy) == before.hand_of(Position::Dummy));
    assert(after.hand_of(Position::Right) == before.hand_of(Position::Right));
    lemma_passed_last(after.auction.turns(bidder));
}

/// `after` is `before` after one round of an action: the bid of `bidder`,
/// then, when the other bidder is due to bid next, the bid the agent chooses
/// for the other.
pub open spec fn round_played<A: Agent>(
    agent: A,
    before: GameData,
    after: GameData,
    bidder: Bidder,
    bid: Bid,
) -> bool {
    let other = bidder.spec_opposite();
    exists|mid: GameData|
        bid_applied(before, mid, bidder, bid) && if bidder_to_act(mid.auction) == Some(other) {
            bid_applied(mid, after, other, agent.bid_choice(mid, other))
        } else {
            after == mid
        }
}

/// The outcome of [resolve_bid_action]: outside the auction, or off the
/// user's turn, it fails with nothing changed; otherwise one round is
/// played, and a completed auction moves the game into the play phase.
pub open spec fn bid_resolved<A: Agent>(
    agent: A,
    before: GamePhase,
    after: GamePhase,
    bid: Bid,
    r: Result<(), GameError>,
) -> bool {
    match before {
        GamePhase::Auction(g) => if users_turn(g) {
            let b = bidder_to_act(g.auction).unwrap();
            &&& r is Ok
            &&& match after {
                GamePhase::Auction(g2) => !completed(g2.auction) && round_played(
                    agent,
                    g,
                    g2,
                    b,
                    bid,
                ) && (g.wf() ==> g2.wf()),
                GamePhase::Playing(d) => completed(d.game.auction) && round_played(
                    agent,
                    g,
                    d.game,
                    b,
                    bid,
                ) && play_opened(d.game, d) && (g.wf() ==> d.wf()),
                GamePhase::Starting => false,
            }
        } else {
            r == Err::<(), GameError>(GameError::NotUsersTurn) && after == before
        },
        _ => r == Err::<(), GameError>(GameError::NotAuctionPhase) && after == before,
    }
}

/// The auction of a phase that awaits a bid from the user's seat.
pub open spec fn users_turn(g: GameData) -> bool {
    bidder_to_act(g.auction) matches Some(b) && g.auction.seat(b) == Position::User
}

/// Applies the user's [Bid]; if the automated partner bids next in this
/// exchange, applies the agent's bid too; then moves to the play phase if
/// the auction is complete. Fails, changing nothing, outside the auction or
/// off the user's turn.
pub fn resolve_bid_action<A: Agent>(phase: &mut GamePhase, agent: &A, bid: Bid) -> (r: Result<
    (),
    GameError,
>)
    requires
        *old(phase) matches GamePhase::Auction(g) ==> hands_fit(g) && g.auction.bid_number
            <= usize::MAX - 2,
    ensures
        bid_resolved(*agent, *old(phase), *final(phase), bid, r),
{
    let done = match phase {
        GamePhase::Auction(game) => {
            let ghost g0 = *game;
            let bidder = match next_to_bid(&game.auction) {
                Some(b) => b,
                None => {
                    return Err(GameError::NotUsersTurn);
                },
            };
            if game.auction.position(bidder) != Position::User {
                return Err(GameError::NotUsersTurn);
            }
            append_bid_response(game, bidder, bid);
            let ghost mid = *game;
            proof {
                lemma_bid_keeps_deal(g0, mid, bidder, bid);
            }
            let opposite = bidder.opposite();
            let follows = match next_to_bid(&game.auction) {
                Some(n) => n == opposite,
                None => false,
            };
            if follows {
                let reply = agent.select_bid(game, opposite);
                append_bid_response(game, opposite, reply);
                proof {
                    lemma_bid_keeps_deal(mid, *game, opposite, reply);
                    assert(bid_applied(mid, *game, opposite, reply));
                }
            }
            assert(round_played(*agent, g0, *game, bidder, bid));
            is_completed(&game.auction)
        },
        _ => {
            return Err(GameError::NotAuctionPhase);
        },
    };
    if done {
        advance_to_play_phase(phase)
    } else {
        Ok(())
    }
}

} // verus!
