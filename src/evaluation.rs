//! Hand evaluation: per-suit counts and high-card points, strength ratings,
//! balance, and the longest and weakest suits of a hand.

use vstd::prelude::*;

use crate::bidding::{rating_of, BidResponse, HandBalance, HandRating};
use crate::primitives::{all_suits, Card, Rank, Suit, SuitData};

verus! {

/// The largest hand length whose scores are guaranteed to fit in a `usize`.
pub const MAX_HAND_LEN: usize = 0x1000_0000;

/// High-card points of a rank: Ace 4, King 3, Queen 2, Jack 1, others 0.
pub open spec fn high_card_points(rank: Rank) -> nat {
    match rank {
        Rank::Ace => 4,
        Rank::King => 3,
        Rank::Queen => 2,
        Rank::Jack => 1,
        _ => 0,
    }
}

/// The number of cards of a suit in a hand.
pub open spec fn suit_count(hand: Seq<Card>, suit: Suit) -> nat
    decreases hand.len(),
{
    if hand.len() == 0 {
        0
    } else {
        suit_count(hand.drop_last(), suit) + if hand.last().suit == suit {
            1nat
        } else {
            0nat
        }
    }
}

/// The high-card points held in a suit.
pub open spec fn suit_points(hand: Seq<Card>, suit: Suit) -> nat
    decreases hand.len(),
{
    if hand.len() == 0 {
        0
    } else {
        suit_points(hand.drop_last(), suit) + if hand.last().suit == suit {
            high_card_points(hand.last().rank)
        } else {
            0nat
        }
    }
}

/// The number of cards of a rank in a hand.
pub open spec fn rank_total(hand: Seq<Card>, rank: Rank) -> nat
    decreases hand.len(),
{
    if hand.len() == 0 {
        0
    } else {
        rank_total(hand.drop_last(), rank) + if hand.last().rank == rank {
            1nat
        } else {
            0nat
        }
    }
}

proof fn lemma_suit_bounds(hand: Seq<Card>, suit: Suit)
    ensures
        suit_count(hand, suit) <= hand.len(),
        suit_points(hand, suit) <= 4 * suit_count(hand, suit),
        rank_total(hand, Rank::Ace) <= hand.len(),
        rank_total(hand, Rank::King) <= hand.len(),
        rank_total(hand, Rank::Queen) <= hand.len(),
        rank_total(hand, Rank::Jack) <= hand.len(),
    decreases hand.len(),
{
    if hand.len() > 0 {
        lemma_suit_bounds(hand.drop_last(), suit);
    }
}

/// The four suit counts of a hand add up to its length.
pub proof fn lemma_counts_total(hand: Seq<Card>)
    ensures
        suit_count(hand, Suit::Diamonds) + suit_count(hand, Suit::Clubs) + suit_count(
            hand,
            Suit::Hearts,
        ) + suit_count(hand, Suit::Spades) == hand.len(),
    decreases hand.len(),
{
    if hand.len() > 0 {
        lemma_counts_total(hand.drop_last());
    }
}

/// Per-suit card counts and high-card points of a hand.
#[derive(PartialEq, Eq, Structural, Hash, Debug, Copy, Clone)]
pub struct HandScore {
    pub counts: SuitData,
    pub scores: SuitData,
}

/// The [HandScore] of a hand.
pub open spec fn score_of(hand: Seq<Card>) -> HandScore {
    HandScore {
        counts: SuitData {
            diamonds: suit_count(hand, Suit::Diamonds) as usize,
            clubs: suit_count(hand, Suit::Clubs) as usize,
            hearts: suit_count(hand, Suit::Hearts) as usize,
            spades: suit_count(hand, Suit::Spades) as usize,
        },
        scores: SuitData {
            diamonds: suit_points(hand, Suit::Diamonds) as usize,
            clubs: suit_points(hand, Suit::Clubs) as usize,
            hearts: suit_points(hand, Suit::Hearts) as usize,
            spades: suit_points(hand, Suit::Spades) as usize,
        },
    }
}

/// A hand short enough that its scores fit in a `usize`.
pub open spec fn hand_fits(hand: Seq<Card>) -> bool {
    hand.len() <= MAX_HAND_LEN
}

/// The score of a hand that fits holds its true counts and points, and its
/// points stay far from overflow.
pub proof fn lemma_score_of(hand: Seq<Card>)
    requires
        hand_fits(hand),
    ensures
        forall|s: Suit|
            #![auto]
            score_of(hand).counts.at(s) == suit_count(hand, s) && score_of(hand).scores.at(s)
                == suit_points(hand, s),
        score_of(hand).scores.total() <= 4 * MAX_HAND_LEN,
        score_of(hand).counts.total() == hand.len(),
{
    lemma_suit_bounds(hand, Suit::Diamonds);
    lemma_suit_bounds(hand, Suit::Clubs);
    lemma_suit_bounds(hand, Suit::Hearts);
    lemma_suit_bounds(hand, Suit::Spades);
    lemma_counts_total(hand);
}

/// Returns the count of cards in each suit and the high-card points held in
/// each suit.
pub fn hand_score(hand: &[Card]) -> (r: HandScore)
    requires
        hand_fits(hand@),
    ensures
        r == score_of(hand@),
        forall|s: Suit|
            #![auto]
            r.counts.at(s) == suit_count(hand@, s) && r.scores.at(s) == suit_points(hand@, s),
{
    let mut counts = SuitData::default();
    let mut scores = SuitData::default();
    let mut i: usize = 0;
    while i < hand.len()
        invariant
            0 <= i <= hand@.len(),
            hand_fits(hand@),
            forall|s: Suit|
                #![auto]
                counts.at(s) == suit_count(hand@.subrange(0, i as int), s) && scores.at(s)
                    == suit_points(hand@.subrange(0, i as int), s),
        decreases hand@.len() - i,
    {
        let card = hand[i];
        proof {
            let pre = hand@.subrange(0, i as int);
            assert(hand@.subrange(0, i + 1).drop_last() =~= pre);
            assert(hand@.subrange(0, i + 1).last() == card);
            lemma_suit_bounds(pre, card.suit);
        }
        let points: usize = match card.rank {
            Rank::Ace => 4,
            Rank::King => 3,
            Rank::Queen => 2,
            Rank::Jack => 1,
            _ => 0,
        };
        let ghost old_counts = counts;
        let ghost old_scores = scores;
        assert(points == high_card_points(card.rank));
        let v = scores.get(card.suit) + points;
        *scores.get_mut(card.suit) = v;
        counts.increment(card.suit);
        proof {
            let pre = hand@.subrange(0, i as int);
            let next = hand@.subrange(0, i + 1);
            assert forall|s: Suit| #![auto]
                counts.at(s) == suit_count(next, s) && scores.at(s) == suit_points(next, s) by {
                assert(next.drop_last() =~= pre);
                assert(next.last() == card);
                assert(old_counts.at(s) == suit_count(pre, s));
                assert(old_scores.at(s) == suit_points(pre, s));
            }
        }
        i = i + 1;
    }
    proof {
        assert(hand@.subrange(0, hand@.len() as int) =~= hand@);
        lemma_score_of(hand@);
        assert(counts.at(Suit::Diamonds) == suit_count(hand@, Suit::Diamonds));
        assert(counts.at(Suit::Clubs) == suit_count(hand@, Suit::Clubs));
        assert(counts.at(Suit::Hearts) == suit_count(hand@, Suit::Hearts));
        assert(counts.at(Suit::Spades) == suit_count(hand@, Suit::Spades));
        assert(scores.at(Suit::Diamonds) == suit_points(hand@, Suit::Diamonds));
        assert(scores.at(Suit::Clubs) == suit_points(hand@, Suit::Clubs));
        assert(scores.at(Suit::Hearts) == suit_points(hand@, Suit::Hearts));
        assert(scores.at(Suit::Spades) == suit_points(hand@, Suit::Spades));
    }
    HandScore { counts, scores }
}

/// Short-suit points for a non-trump suit: void 5, singleton 3, doubleton 1.
pub open spec fn short_points(count: int) -> nat {
    if count == 0 {
        5
    } else if count == 1 {
        3
    } else if count == 2 {
        1
    } else {
        0
    }
}

/// Short-suit points of a suit, none for the trump suit itself.
pub open spec fn short_points_for(score: HandScore, trump: Suit, suit: Suit) -> nat {
    if suit == trump {
        0
    } else {
        short_points(score.counts.at(suit) as int)
    }
}

/// The strength of a hand: its high-card points, plus short-suit points for
/// each non-trump suit when a trump suit is given.
pub open spec fn evaluation(score: HandScore, trump: Option<Suit>) -> int {
    score.scores.total() + match trump {
        None => 0,
        Some(t) => short_points_for(score, t, Suit::Diamonds) + short_points_for(
            score,
            t,
            Suit::Clubs,
        ) + short_points_for(score, t, Suit::Hearts) + short_points_for(score, t, Suit::Spades),
    }
}

/// Scores whose evaluation fits in a `usize`.
pub open spec fn score_fits(score: HandScore) -> bool {
    score.scores.total() + 20 <= usize::MAX
}

/// Computes a score which evaluates the strength of a hand, adding short-suit
/// points for a known trump suit if provided.
pub fn evaluate_hand(hand_score: HandScore, trump_suit: Option<Suit>) -> (r: usize)
    requires
        score_fits(hand_score),
    ensures
        r == evaluation(hand_score, trump_suit),
{
    let high = hand_score.scores.sum();
    match trump_suit {
        None => high,
        Some(trump) => {
            let suits = all_suits();
            let mut short: usize = 0;
            let mut i: usize = 0;
            while i < 4
                invariant
                    0 <= i <= 4,
                    suits@ == seq![Suit::Diamonds, Suit::Clubs, Suit::Hearts, Suit::Spades],
                    short == short_sum(hand_score, trump, i as int),
                    short <= 5 * i,
                decreases 4 - i,
            {
                let suit = suits[i];
                let points: usize = if suit == trump {
                    0
                } else {
                    match hand_score.counts.get(suit) {
                        0 => 5,
                        1 => 3,
                        2 => 1,
                        _ => 0,
                    }
                };
                short = short + points;
                i = i + 1;
            }
            proof {
                reveal_with_fuel(short_sum, 5);
            }
            high + short
        },
    }
}

/// Short-suit points of the first `k` suits in suit order.
pub open spec fn short_sum(score: HandScore, trump: Suit, k: int) -> int
    decreases k,
{
    if k <= 0 {
        0
    } else {
        short_sum(score, trump, k - 1) + short_points_for(score, trump, Suit::from_value(k - 1))
    }
}

/// The [BidResponse::HandEvaluation] for a score.
pub open spec fn evaluation_response(score: HandScore, trump: Option<Suit>) -> BidResponse {
    BidResponse::HandEvaluation(rating_of(evaluation(score, trump)), trump)
}

/// Wraps the result of [evaluate_hand] in a [BidResponse::HandEvaluation].
pub fn hand_evaluation(hand_score: HandScore, trump_suit: Option<Suit>) -> (r: BidResponse)
    requires
        score_fits(hand_score),
    ensures
        r == evaluation_response(hand_score, trump_suit),
{
    BidResponse::HandEvaluation(HandRating::new(evaluate_hand(hand_score, trump_suit)), trump_suit)
}

/// 1 if a suit holds at most `n` cards, else 0.
pub open spec fn short_suit(score: HandScore, suit: Suit, n: int) -> int {
    if score.counts.at(suit) <= n {
        1
    } else {
        0
    }
}

/// A hand is balanced iff no suit has one card or none, and at most one suit
/// has two cards or fewer.
pub open spec fn balanced(score: HandScore) -> bool {
    &&& forall|s: Suit| score.counts.at(s) > 1
    &&& short_suit(score, Suit::Diamonds, 2) + short_suit(score, Suit::Clubs, 2) + short_suit(
        score,
        Suit::Hearts,
        2,
    ) + short_suit(score, Suit::Spades, 2) <= 1
}

pub open spec fn balance_response(score: HandScore) -> BidResponse {
    BidResponse::HandBalance(
        if balanced(score) {
            HandBalance::Balanced
        } else {
            HandBalance::Unbalanced
        },
    )
}

/// Produces a [BidResponse::HandBalance] for this hand.
pub fn hand_balance(hand_score: HandScore) -> (r: BidResponse)
    ensures
        r == balance_response(hand_score),
{
    let c = hand_score.counts;
    let no_short = c.diamonds > 1 && c.clubs > 1 && c.hearts > 1 && c.spades > 1;
    let doubletons: usize = (if c.diamonds <= 2 {
        1
    } else {
        0
    }) + (if c.clubs <= 2 {
        1
    } else {
        0
    }) + (if c.hearts <= 2 {
        1
    } else {
        0
    }) + (if c.spades <= 2 {
        1
    } else {
        0
    });
    assert(no_short == forall|s: Suit| c.at(s) > 1) by {
        if !no_short {
            if c.diamonds <= 1 {
                assert(c.at(Suit::Diamonds) <= 1);
            } else if c.clubs <= 1 {
                assert(c.at(Suit::Clubs) <= 1);
            } else if c.hearts <= 1 {
                assert(c.at(Suit::Hearts) <= 1);
            } else {
                assert(c.at(Suit::Spades) <= 1);
            }
        }
    }
    BidResponse::HandBalance(
        if no_short && doubletons <= 1 {
            HandBalance::Balanced
        } else {
            HandBalance::Unbalanced
        },
    )
}

/// `a` is at least as long as `b`: by count, then by points.
pub open spec fn longer_or_equal(score: HandScore, a: Suit, b: Suit) -> bool {
    score.counts.at(a) > score.counts.at(b) || (score.counts.at(a) == score.counts.at(b)
        && score.scores.at(a) >= score.scores.at(b))
}

/// `a` is at most as strong as `b`: by points, then by count.
pub open spec fn weaker_or_equal(score: HandScore, a: Suit, b: Suit) -> bool {
    score.scores.at(a) < score.scores.at(b) || (score.scores.at(a) == score.scores.at(b)
        && score.counts.at(a) <= score.counts.at(b))
}

/// The longest suit by (count, points); of equal suits the highest in suit
/// order.
pub open spec fn longest_of(score: HandScore) -> Suit {
    let b1 = if longer_or_equal(score, Suit::Clubs, Suit::Diamonds) {
        Suit::Clubs
    } else {
        Suit::Diamonds
    };
    let b2 = if longer_or_equal(score, Suit::Hearts, b1) {
        Suit::Hearts
    } else {
        b1
    };
    if longer_or_equal(score, Suit::Spades, b2) {
        Suit::Spades
    } else {
        b2
    }
}

/// The weakest suit by (points, count); of equal suits the lowest in suit
/// order.
pub open spec fn weakest_of(score: HandScore) -> Suit {
    let b1 = if weaker_or_equal(score, Suit::Diamonds, Suit::Clubs) {
        Suit::Diamonds
    } else {
        Suit::Clubs
    };
    let b2 = if weaker_or_equal(score, b1, Suit::Hearts) {
        b1
    } else {
        Suit::Hearts
    };
    if weaker_or_equal(score, b2, Suit::Spades) {
        b2
    } else {
        Suit::Spades
    }
}

/// Produces a [BidResponse::LongestSuit] response identifying the longest and
/// strongest suit.
pub fn longest_suit(hand_score: HandScore) -> (r: BidResponse)
    ensures
        r == BidResponse::LongestSuit(longest_of(hand_score)),
        forall|t: Suit| longer_or_equal(hand_score, longest_of(hand_score), t),
        forall|t: Suit|
            t.value() > longest_of(hand_score).value() ==> !longer_or_equal(
                hand_score,
                t,
                longest_of(hand_score),
            ),
{
    let counts = hand_score.counts;
    let scores = hand_score.scores;
    let mut best = Suit::Diamonds;
    let suits = all_suits();
    let mut i: usize = 1;
    while i < 4
        invariant
            1 <= i <= 4,
            suits@ == seq![Suit::Diamonds, Suit::Clubs, Suit::Hearts, Suit::Spades],
            counts == hand_score.counts,
            scores == hand_score.scores,
            best == prefix_longest(hand_score, i as int),
        decreases 4 - i,
    {
        let s = suits[i];
        if counts.get(s) > counts.get(best) || (counts.get(s) == counts.get(best) && scores.get(s)
            >= scores.get(best)) {
            best = s;
        }
        i = i + 1;
    }
    proof {
        reveal_with_fuel(prefix_longest, 4);
    }
    BidResponse::LongestSuit(best)
}

/// The longest of the first `k` suits in suit order.
pub open spec fn prefix_longest(score: HandScore, k: int) -> Suit
    decreases k,
{
    if k <= 1 {
        Suit::Diamonds
    } else {
        let b = prefix_longest(score, k - 1);
        if longer_or_equal(score, Suit::from_value(k - 1), b) {
            Suit::from_value(k - 1)
        } else {
            b
        }
    }
}

/// Produces a [BidResponse::WeakestSuit] response for this hand.
pub fn weakest_suit(hand_score: HandScore) -> (r: BidResponse)
    ensures
        r == BidResponse::WeakestSuit(weakest_of(hand_score)),
        forall|t: Suit| weaker_or_equal(hand_score, weakest_of(hand_score), t),
        forall|t: Suit|
            t.value() < weakest_of(hand_score).value() ==> !weaker_or_equal(
                hand_score,
                t,
                weakest_of(hand_score),
            ),
{
    let counts = hand_score.counts;
    let scores = hand_score.scores;
    let mut best = Suit::Diamonds;
    let suits = all_suits();
    let mut i: usize = 1;
    while i < 4
        invariant
            1 <= i <= 4,
            suits@ == seq![Suit::Diamonds, Suit::Clubs, Suit::Hearts, Suit::Spades],
            counts == hand_score.counts,
            scores == hand_score.scores,
            best == prefix_weakest(hand_score, i as int),
        decreases 4 - i,
    {
        let s = suits[i];
        if scores.get(s) < scores.get(best) || (scores.get(s) == scores.get(best) && counts.get(s)
            < counts.get(best)) {
            best = s;
        }
        i = i + 1;
    }
    proof {
        reveal_with_fuel(prefix_weakest, 4);
    }
    BidResponse::WeakestSuit(best)
}

/// The weakest of the first `k` suits in suit order.
pub open spec fn prefix_weakest(score: HandScore, k: int) -> Suit
    decreases k,
{
    if k <= 1 {
        Suit::Diamonds
    } else {
        let b = prefix_weakest(score, k - 1);
        if weaker_or_equal(score, b, Suit::from_value(k - 1)) {
            b
        } else {
            Suit::from_value(k - 1)
        }
    }
}

/// Produces a [BidResponse::RankCount] for a given [Rank] in this hand.
pub fn rank_count(hand: &[Card], rank: Rank) -> (r: BidResponse)
    ensures
        r == BidResponse::RankCount(rank, rank_total(hand@, rank) as usize),
{
    let mut n: usize = 0;
    let mut i: usize = 0;
    while i < hand.len()
        invariant
            0 <= i <= hand@.len(),
            n == rank_total(hand@.subrange(0, i as int), rank),
            n <= i,
        decreases hand@.len() - i,
    {
        proof {
            assert(hand@.subrange(0, i + 1).drop_last() =~= hand@.subrange(0, i as int));
        }
        if hand[i].rank == rank {
            n = n + 1;
        }
        i = i + 1;
    }
    proof {
        assert(hand@.subrange(0, hand@.len() as int) =~= hand@);
    }
    BidResponse::RankCount(rank, n)
}

} // verus!
