//! An agent that bids and plays by simple deterministic heuristics.

use vstd::prelude::*;

use crate::agent::Agent;
use crate::auction::hands_fit;
use crate::bidding::{AuctionTurn, Bid, BidResponse, Bidder, LengthOperator};
use crate::evaluation::{
    evaluate_hand, evaluation, hand_fits, hand_score, lemma_score_of, longer_or_equal, score_of, HandScore,
    MAX_HAND_LEN,
};
use crate::game::{GameData, PlayPhaseData};
use crate::play::{
    card_power, compare_card_power, legal_index, legal_plays, legal_seq, lemma_legal_upto_entries,
    trick_winner, winner_of, winning_plays, winning_upto,
};
use crate::primitives::{all_suits, Position, Suit};

verus! {

/// Bids by a priority list, passing once the predicted strength of the
/// partnership is below the level of the auction; plays to win the trick
/// unless the partner already holds it, and otherwise discards its weakest
/// card.
#[derive(Debug)]
pub struct HeuristicAgent;

/// Scores whose sums in this module fit in a `usize`.
pub open spec fn score_small(score: HandScore) -> bool {
    score.scores.total() <= 4 * MAX_HAND_LEN && score.counts.total() <= MAX_HAND_LEN
}

/// The suit a response reveals an eight-card fit in, if any: a length of
/// at least (not at most) enough cards, or a longest suit, counted as five
/// cards.
pub open spec fn fit_candidate(score: HandScore, r: BidResponse) -> Option<Suit> {
    match r {
        BidResponse::SuitLength(s, size, op) => if op != LengthOperator::Lte && size
            + score.counts.at(s) >= 8 {
            Some(s)
        } else {
            None
        },
        BidResponse::LongestSuit(s) => if 5 + score.counts.at(s) >= 8 {
            Some(s)
        } else {
            None
        },
        _ => None,
    }
}

/// The fit suit with the most high-card points among the first `k`
/// responses; of equal ones the latest.
pub open spec fn fit_upto(score: HandScore, responses: Seq<BidResponse>, k: int) -> Option<Suit>
    decreases k,
{
    if k <= 0 {
        None
    } else {
        let prev = fit_upto(score, responses, k - 1);
        match fit_candidate(score, responses[k - 1]) {
            None => prev,
            Some(s) => match prev {
                None => Some(s),
                Some(b) => if score.scores.at(s) >= score.scores.at(b) {
                    Some(s)
                } else {
                    prev
                },
            },
        }
    }
}

fn fit_of(score: HandScore, r: BidResponse) -> (o: Option<Suit>)
    ensures
        o == fit_candidate(score, r),
{
    match r {
        BidResponse::SuitLength(s, size, op) => {
            let count = score.counts.get(s);
            let enough = count >= 8 || size >= 8 - count;
            if op != LengthOperator::Lte && enough {
                Some(s)
            } else {
                None
            }
        },
        BidResponse::LongestSuit(s) => {
            if score.counts.get(s) >= 3 {
                Some(s)
            } else {
                None
            }
        },
        _ => None,
    }
}

/// Checks whether the agent and its partner have an eight-card fit,
/// returning the fit suit with the most high-card points.
fn find_trump_fit(hand_score: HandScore, responses: &Vec<BidResponse>) -> (r: Option<Suit>)
    ensures
        r == fit_upto(hand_score, responses@, responses@.len() as int),
{
    let mut best: Option<Suit> = None;
    let mut i: usize = 0;
    while i < responses.len()
        invariant
            0 <= i <= responses@.len(),
            best == fit_upto(hand_score, responses@, i as int),
        decreases responses@.len() - i,
    {
        match fit_of(hand_score, responses[i]) {
            None => {},
            Some(s) => {
                best = match best {
                    None => Some(s),
                    Some(b) => if hand_score.scores.get(s) >= hand_score.scores.get(b) {
                        Some(s)
                    } else {
                        Some(b)
                    },
                };
            },
        }
        i = i + 1;
    }
    best
}

/// The combined points a hand evaluation response predicts: its rating's
/// points plus this hand's evaluation in the fit suit, or plus its
/// high-card points when it is not about the fit suit.
pub open spec fn response_points(score: HandScore, r: BidResponse, trump: Option<Suit>) -> Option<
    int,
> {
    match r {
        BidResponse::HandEvaluation(rating, t) => if t.is_some() && trump == t {
            Some(rating.points() + evaluation(score, t))
        } else {
            Some(rating.points() + score.scores.total())
        },
        _ => None,
    }
}

/// The largest prediction among the first `k` responses.
pub open spec fn max_points_upto(
    score: HandScore,
    responses: Seq<BidResponse>,
    trump: Option<Suit>,
    k: int,
) -> Option<int>
    decreases k,
{
    if k <= 0 {
        None
    } else {
        let prev = max_points_upto(score, responses, trump, k - 1);
        match response_points(score, responses[k - 1], trump) {
            None => prev,
            Some(p) => match prev {
                None => Some(p),
                Some(m) => if p > m {
                    Some(p)
                } else {
                    Some(m)
                },
            },
        }
    }
}

/// The predicted points of the partnership: the largest prediction of any
/// evaluation response, or the hand's high-card points plus 10 without one.
pub open spec fn predicted_points(
    score: HandScore,
    responses: Seq<BidResponse>,
    trump: Option<Suit>,
) -> int {
    match max_points_upto(score, responses, trump, responses.len() as int) {
        Some(m) => m,
        None => score.scores.total() + 10,
    }
}

proof fn lemma_max_points_bound(
    score: HandScore,
    responses: Seq<BidResponse>,
    trump: Option<Suit>,
    k: int,
)
    ensures
        max_points_upto(score, responses, trump, k) matches Some(m) ==> m <= score.scores.total()
            + 34,
    decreases k,
{
    if k > 0 {
        lemma_max_points_bound(score, responses, trump, k - 1);
    }
}

/// Predicts the number of points available to the partnership.
fn predicted_combined_points(
    hand_score: HandScore,
    responses: &Vec<BidResponse>,
    trump: Option<Suit>,
) -> (r: usize)
    requires
        score_small(hand_score),
    ensures
        r == predicted_points(hand_score, responses@, trump),
{
    let high = hand_score.scores.sum();
    let mut best: Option<usize> = None;
    let mut i: usize = 0;
    while i < responses.len()
        invariant
            0 <= i <= responses@.len(),
            score_small(hand_score),
            high == hand_score.scores.total(),
            best == match max_points_upto(hand_score, responses@, trump, i as int) {
                Some(m) => Some(m as usize),
                None => None::<usize>,
            },
            max_points_upto(hand_score, responses@, trump, i as int) matches Some(m) ==> 0 <= m
                <= high + 34,
        decreases responses@.len() - i,
    {
        proof {
            lemma_max_points_bound(hand_score, responses@, trump, i + 1);
        }
        let points: Option<usize> = match responses[i] {
            BidResponse::HandEvaluation(rating, t) => {
                let fits = match (t, trump) {
                    (Some(a), Some(b)) => a == b,
                    _ => false,
                };
                if fits {
                    Some(rating.approximate_points() + evaluate_hand(hand_score, t))
                } else {
                    Some(rating.approximate_points() + high)
                }
            },
            _ => None,
        };
        match points {
            None => {},
            Some(p) => {
                best = match best {
                    None => Some(p),
                    Some(m) => if p > m {
                        Some(p)
                    } else {
                        Some(m)
                    },
                };
            },
        }
        i = i + 1;
    }
    match best {
        Some(m) => m,
        None => high + 10,
    }
}

/// A response tells something about a suit.
pub open spec fn mentions(r: BidResponse, s: Suit) -> bool {
    match r {
        BidResponse::SuitLength(t, _, _) => t == s,
        BidResponse::HandEvaluation(_, Some(t)) => t == s,
        BidResponse::LongestSuit(t) => t == s,
        BidResponse::WeakestSuit(t) => t == s,
        _ => false,
    }
}

/// Some response tells something about a suit.
pub open spec fn known(responses: Seq<BidResponse>, s: Suit) -> bool {
    exists|i: int| 0 <= i < responses.len() && mentions(#[trigger] responses[i], s)
}

fn is_known(responses: &Vec<BidResponse>, s: Suit) -> (r: bool)
    ensures
        r == known(responses@, s),
{
    let mut i: usize = 0;
    while i < responses.len()
        invariant
            0 <= i <= responses@.len(),
            forall|j: int| 0 <= j < i ==> !mentions(#[trigger] responses@[j], s),
        decreases responses@.len() - i,
    {
        let hit = match responses[i] {
            BidResponse::SuitLength(t, _, _) => t == s,
            BidResponse::HandEvaluation(_, Some(t)) => t == s,
            BidResponse::LongestSuit(t) => t == s,
            BidResponse::WeakestSuit(t) => t == s,
            _ => false,
        };
        if hit {
            return true;
        }
        i = i + 1;
    }
    false
}

/// The longest unknown suit among the first `k` suits in suit order, by
/// (count, points); of equal ones the highest in suit order.
pub open spec fn unknown_longest_upto(score: HandScore, responses: Seq<BidResponse>, k: int) -> Option<
    Suit,
>
    decreases k,
{
    if k <= 0 {
        None
    } else {
        let prev = unknown_longest_upto(score, responses, k - 1);
        let s = Suit::from_value(k - 1);
        if known(responses, s) {
            prev
        } else {
            match prev {
                None => Some(s),
                Some(b) => if longer_or_equal(score, s, b) {
                    Some(s)
                } else {
                    prev
                },
            }
        }
    }
}

/// The longest and strongest suit not yet mentioned by any response, as
/// (count, points, suit).
pub open spec fn suit_priority(score: HandScore, responses: Seq<BidResponse>) -> Option<
    (usize, usize, Suit),
> {
    match unknown_longest_upto(score, responses, 4) {
        Some(s) => Some((score.counts.at(s), score.scores.at(s), s)),
        None => None,
    }
}

/// Searches for the longest and strongest suit to bid which we currently
/// have no information about, returning (count, score, suit).
fn prioritized_suit_bid(hand_score: HandScore, responses: &Vec<BidResponse>) -> (r: Option<
    (usize, usize, Suit),
>)
    ensures
        r == suit_priority(hand_score, responses@),
{
    let suits = all_suits();
    let mut best: Option<Suit> = None;
    let mut i: usize = 0;
    while i < 4
        invariant
            0 <= i <= 4,
            suits@ == seq![Suit::Diamonds, Suit::Clubs, Suit::Hearts, Suit::Spades],
            best == unknown_longest_upto(hand_score, responses@, i as int),
        decreases 4 - i,
    {
        let s = suits[i];
        assert(s == Suit::from_value(i as int));
        if !is_known(responses, s) {
            best = match best {
                None => Some(s),
                Some(b) => {
                    let c = hand_score.counts;
                    let p = hand_score.scores;
                    if c.get(s) > c.get(b) || (c.get(s) == c.get(b) && p.get(s) >= p.get(b)) {
                        Some(s)
                    } else {
                        Some(b)
                    }
                },
            };
        }
        i = i + 1;
    }
    match best {
        Some(s) => Some((hand_score.counts.get(s), hand_score.scores.get(s), s)),
        None => None,
    }
}

/// The number of hand evaluations among responses.
pub open spec fn evaluations(responses: Seq<BidResponse>) -> nat
    decreases responses.len(),
{
    if responses.len() == 0 {
        0
    } else {
        evaluations(responses.drop_last()) + if responses.last() is HandEvaluation {
            1nat
        } else {
            0nat
        }
    }
}

/// Counts [BidResponse::HandEvaluation] responses.
fn evaluation_count(responses: &Vec<BidResponse>) -> (r: usize)
    ensures
        r == evaluations(responses@),
{
    let mut n: usize = 0;
    let mut i: usize = 0;
    while i < responses.len()
        invariant
            0 <= i <= responses@.len(),
            n == evaluations(responses@.subrange(0, i as int)),
            n <= i,
        decreases responses@.len() - i,
    {
        proof {
            assert(responses@.subrange(0, i + 1).drop_last() =~= responses@.subrange(0, i as int));
        }
        match responses[i] {
            BidResponse::HandEvaluation(_, _) => {
                n = n + 1;
            },
            _ => {},
        }
        i = i + 1;
    }
    proof {
        assert(responses@.subrange(0, responses@.len() as int) =~= responses@);
    }
    n
}

/// The bid chosen by priority: raise a trump fit; else bid an unmentioned
/// suit of five or more cards; else make the first Query; else bid a strong
/// unmentioned four-card suit; else Query again.
pub open spec fn priority_bid(score: HandScore, responses: Seq<BidResponse>, trump: Option<Suit>) -> Bid {
    match trump {
        Some(s) => Bid::Suit(s),
        None => match suit_priority(score, responses) {
            Some((count, points, suit)) => if count >= 5 {
                Bid::Suit(suit)
            } else if evaluations(responses) == 0 {
                Bid::Query
            } else if count >= 4 && points >= 3 {
                Bid::Suit(suit)
            } else {
                Bid::Query
            },
            None => Bid::Query,
        },
    }
}

/// Picks a bid to make based on a priority order.
fn highest_priority_bid(hand_score: HandScore, responses: &Vec<BidResponse>, trump: Option<Suit>) -> (r:
    Bid)
    ensures
        r == priority_bid(hand_score, responses@, trump),
{
    match trump {
        Some(s) => Bid::Suit(s),
        None => match prioritized_suit_bid(hand_score, responses) {
            Some((count, score, suit)) => {
                if count >= 5 {
                    Bid::Suit(suit)
                } else if evaluation_count(responses) == 0 {
                    Bid::Query
                } else if count >= 4 && score >= 3 {
                    Bid::Suit(suit)
                } else {
                    Bid::Query
                }
            },
            None => Bid::Query,
        },
    }
}

/// The fewest predicted points to keep bidding at a bid number, if the
/// auction has a threshold at that level.
pub open spec fn pass_threshold(bid_number: usize) -> Option<int> {
    if bid_number == 6 {
        Some(16)
    } else if bid_number == 7 {
        Some(24)
    } else if bid_number == 8 {
        Some(26)
    } else if bid_number == 9 {
        Some(28)
    } else if bid_number == 10 {
        Some(30)
    } else if bid_number == 11 {
        Some(32)
    } else if bid_number == 12 {
        Some(34)
    } else {
        None
    }
}

/// The heuristic bid: Pass when the predicted points fall below the
/// threshold of the current bid number, else the priority bid.
pub open spec fn heuristic_bid(
    bid_number: usize,
    score: HandScore,
    responses: Seq<BidResponse>,
) -> Bid {
    let trump = fit_upto(score, responses, responses.len() as int);
    let points = predicted_points(score, responses, trump);
    match pass_threshold(bid_number) {
        Some(t) => if points < t {
            Bid::Pass
        } else {
            priority_bid(score, responses, trump)
        },
        None => priority_bid(score, responses, trump),
    }
}

/// The responses a bidder has received, the latest turn first.
pub open spec fn received(turns: Seq<AuctionTurn>) -> Seq<BidResponse>
    decreases turns.len(),
{
    if turns.len() == 0 {
        seq![]
    } else {
        turns.last().responses@ + received(turns.drop_last())
    }
}

fn received_responses(game: &GameData, bidder: Bidder) -> (r: Vec<BidResponse>)
    ensures
        r@ == received(game.auction.turns(bidder)),
{
    let turns = game.auction.bids(bidder);
    let mut r: Vec<BidResponse> = Vec::new();
    let mut k: usize = turns.len();
    proof {
        assert(turns@.subrange(0, turns@.len() as int) =~= turns@);
        assert(r@ + received(turns@) =~= received(turns@));
    }
    while k > 0
        invariant
            0 <= k <= turns@.len(),
            turns@ == game.auction.turns(bidder),
            received(turns@) == r@ + received(turns@.subrange(0, k as int)),
        decreases k,
    {
        let ghost before = r@;
        let ghost pre = turns@.subrange(0, k as int);
        proof {
            assert(pre.drop_last() =~= turns@.subrange(0, k - 1));
            assert(pre.last() == turns@[k - 1]);
        }
        let responses = &turns[k - 1].responses;
        let mut j: usize = 0;
        while j < responses.len()
            invariant
                0 <= j <= responses@.len(),
                r@ == before + responses@.subrange(0, j as int),
            decreases responses@.len() - j,
        {
            r.push(responses[j]);
            j = j + 1;
            proof {
                assert(r@ =~= before + responses@.subrange(0, j as int));
            }
        }
        proof {
            assert(responses@.subrange(0, responses@.len() as int) =~= responses@);
            assert(before + (responses@ + received(turns@.subrange(0, k - 1))) =~= (before
                + responses@) + received(turns@.subrange(0, k - 1)));
        }
        k = k - 1;
    }
    proof {
        assert(turns@.subrange(0, 0) =~= Seq::<AuctionTurn>::empty());
        assert(r@ + Seq::<BidResponse>::empty() =~= r@);
    }
    r
}

/// `a` is at least as strong as `b` in the current trick: by power, then by
/// rank.
pub open spec fn stronger_or_equal(data: PlayPhaseData, a: crate::primitives::Card, b: crate::primitives::Card) -> bool {
    card_power(data, a) > card_power(data, b) || (card_power(data, a) == card_power(data, b)
        && a.rank.value() >= b.rank.value())
}

/// The weakest of the first `k` plays; of equal ones the earliest.
pub open spec fn weakest_upto(data: PlayPhaseData, plays: Seq<(usize, crate::primitives::Card)>, k: int) -> Option<
    (usize, crate::primitives::Card),
>
    decreases k,
{
    if k <= 0 {
        None
    } else {
        match weakest_upto(data, plays, k - 1) {
            None => Some(plays[k - 1]),
            Some(b) => if !stronger_or_equal(data, plays[k - 1].1, b.1) {
                Some(plays[k - 1])
            } else {
                Some(b)
            },
        }
    }
}

proof fn lemma_picks_are_entries(data: PlayPhaseData, plays: Seq<(usize, crate::primitives::Card)>, k: int)
    requires
        0 <= k <= plays.len(),
    ensures
        weakest_upto(data, plays, k) matches Some(e) ==> exists|j: int|
            0 <= j < k && #[trigger] plays[j] == e,
        k > 0 ==> weakest_upto(data, plays, k).is_some(),
    decreases k,
{
    if k > 0 {
        lemma_picks_are_entries(data, plays, k - 1);
    }
}

proof fn lemma_winning_are_legal(data: PlayPhaseData, legal: Seq<(usize, crate::primitives::Card)>, k: int)
    requires
        0 <= k <= legal.len(),
    ensures
        forall|j: int|
            0 <= j < winning_upto(data, legal, k).len() ==> exists|i: int|
                0 <= i < legal.len() && legal[i] == #[trigger] winning_upto(data, legal, k)[j],
    decreases k,
{
    if k > 0 {
        lemma_winning_are_legal(data, legal, k - 1);
        let prev = winning_upto(data, legal, k - 1);
        let cur = winning_upto(data, legal, k);
        assert forall|j: int| 0 <= j < cur.len() implies exists|i: int|
            0 <= i < legal.len() && legal[i] == #[trigger] cur[j] by {
            if j < prev.len() {
                assert(cur[j] == prev[j]);
            } else {
                assert(cur[j] == legal[k - 1]);
            }
        }
    }
}

/// The index of the lowest play that still wins the trick, by power and
/// then rank; of equal ones the earliest.
pub open spec fn winning_choice(data: PlayPhaseData, position: Position) -> Option<usize> {
    let legal = legal_seq(data, position);
    let winning = winning_upto(data, legal, legal.len() as int);
    match weakest_upto(data, winning, winning.len() as int) {
        Some(e) => Some(e.0),
        None => None,
    }
}

/// The index of the weakest legal play, the earliest of equal ones.
pub open spec fn discard_choice(data: PlayPhaseData, position: Position) -> usize {
    let legal = legal_seq(data, position);
    weakest_upto(data, legal, legal.len() as int).unwrap().0
}

/// The heuristic play: the lowest card that still wins, unless the partner
/// holds the trick or no card wins; else the weakest legal card.
pub open spec fn heuristic_play(data: PlayPhaseData, position: Position) -> usize {
    let partner_winning = winner_of(data) matches Some(w) && w.0 == position.spec_partner();
    if !partner_winning && winning_choice(data, position).is_some() {
        winning_choice(data, position).unwrap()
    } else {
        discard_choice(data, position)
    }
}

fn at_least_as_strong(data: &PlayPhaseData, a: crate::primitives::Card, b: crate::primitives::Card) -> (r: bool)
    ensures
        r == stronger_or_equal(*data, a, b),
{
    match compare_card_power(data, a, b) {
        std::cmp::Ordering::Greater => true,
        std::cmp::Ordering::Less => false,
        std::cmp::Ordering::Equal => a.rank.order_value() >= b.rank.order_value(),
    }
}

/// Returns the index of the lowest card in hand which still wins the current
/// trick, by power and then rank, if any; of equal cards, the one earlier in
/// hand.
fn find_winning_card(data: &PlayPhaseData, position: Position) -> (r: Option<usize>)
    ensures
        r == winning_choice(*data, position),
        r matches Some(i) ==> legal_index(*data, position, i),
{
    let n = data.game.hand(position).len();
    let plays = winning_plays(data, position);
    let mut best: Option<(usize, crate::primitives::Card)> = None;
    let mut i: usize = 0;
    while i < plays.len()
        invariant
            0 <= i <= plays@.len(),
            best == weakest_upto(*data, plays@, i as int),
        decreases plays@.len() - i,
    {
        let (index, card) = plays[i];
        best = match best {
            None => Some((index, card)),
            Some((bi, bc)) => if !at_least_as_strong(data, card, bc) {
                Some((index, card))
            } else {
                Some((bi, bc))
            },
        };
        i = i + 1;
    }
    proof {
        let legal = legal_seq(*data, position);
        lemma_picks_are_entries(*data, plays@, plays@.len() as int);
        lemma_winning_are_legal(*data, legal, legal.len() as int);
        lemma_legal_upto_entries(*data, position, n as int);
        if best is Some {
            let j = choose|j: int| 0 <= j < plays@.len() && #[trigger] plays@[j] == best.unwrap();
            let k = choose|k: int| 0 <= k < legal.len() && legal[k] == #[trigger] plays@[j];
            assert(legal[k] == best.unwrap());
        }
    }
    match best {
        Some((index, _)) => Some(index),
        None => None,
    }
}

/// Returns the index of the weakest legal card, by power and then rank; of
/// equally weak cards, the one earlier in hand.
fn find_discard(data: &PlayPhaseData, position: Position) -> (r: usize)
    requires
        legal_seq(*data, position).len() > 0,
    ensures
        r == discard_choice(*data, position),
        legal_index(*data, position, r),
{
    let n = data.game.hand(position).len();
    let plays = legal_plays(data, position);
    let mut best: (usize, crate::primitives::Card) = plays[0];
    let mut i: usize = 1;
    proof {
        reveal_with_fuel(weakest_upto, 2);
    }
    while i < plays.len()
        invariant
            1 <= i <= plays@.len(),
            Some(best) == weakest_upto(*data, plays@, i as int),
        decreases plays@.len() - i,
    {
        let (index, card) = plays[i];
        if !at_least_as_strong(data, card, best.1) {
            best = (index, card);
        }
        i = i + 1;
    }
    proof {
        lemma_picks_are_entries(*data, plays@, plays@.len() as int);
        lemma_legal_upto_entries(*data, position, n as int);
        let j = choose|j: int| 0 <= j < plays@.len() && #[trigger] plays@[j] == best;
    }
    best.0
}

impl Agent for HeuristicAgent {
    open spec fn bid_choice(&self, game: GameData, bidder: Bidder) -> Bid {
        heuristic_bid(
            game.auction.bid_number,
            score_of(game.hand_of(game.auction.seat(bidder))),
            received(game.auction.turns(bidder)),
        )
    }

    open spec fn play_choice(&self, data: PlayPhaseData, position: Position) -> usize {
        heuristic_play(data, position)
    }

    /// Selects a bid by priority, passing when the predicted combined points
    /// are below the threshold of the current bid number.
    fn select_bid(&self, game: &GameData, bidder: Bidder) -> (r: Bid)
        ensures
            r == heuristic_bid(
                game.auction.bid_number,
                score_of(game.hand_of(game.auction.seat(bidder))),
                received(game.auction.turns(bidder)),
            ),
    {
        let responses = received_responses(game, bidder);
        let hand = game.hand(game.auction.position(bidder));
        proof {
            assert(hand_fits(game.hand_of(game.auction.seat(bidder))));
            lemma_score_of(hand@);
        }
        let score = hand_score(hand.as_slice());
        let trump_fit = find_trump_fit(score, &responses);
        let points = predicted_combined_points(score, &responses, trump_fit);
        let n = game.auction.bid_number;
        let pass = (n == 6 && points < 16) || (n == 7 && points < 24) || (n == 8 && points < 26)
            || (n == 9 && points < 28) || (n == 10 && points < 30) || (n == 11 && points < 32) || (
        n == 12 && points < 34);
        if pass {
            Bid::Pass
        } else {
            highest_priority_bid(score, &responses, trump_fit)
        }
    }

    /// Wins the trick if possible and the partner is not already winning it,
    /// otherwise discards.
    fn select_play(&self, data: &PlayPhaseData, position: Position) -> (r: usize)
        ensures
            r == heuristic_play(*data, position),
    {
        let partner = position.partner();
        let winner = match trick_winner(data) {
            Some((w, _)) => if w != partner {
                find_winning_card(data, position)
            } else {
                None
            },
            None => find_winning_card(data, position),
        };
        match winner {
            Some(index) => index,
            None => find_discard(data, position),
        }
    }
}

} // verus!
