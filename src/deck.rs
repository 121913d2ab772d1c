//! Dealing: the full deck, a shuffled deal into four sorted hands, and the
//! start of a new game.

use rand::seq::SliceRandom;
use rand_pcg::Pcg64;

use vstd::prelude::*;

use crate::bidding::Auction;
use crate::game::{GameData, Hands};
use crate::primitives::{all_ranks, all_suits, Card, Position, Suit};

verus! {

broadcast use vstd::multiset::group_multiset_axioms;

/// Declares rand_pcg's `Pcg64` generator (`Lcg128Xsl64`), which the deal
/// only hands on to rand's shuffle.
#[verifier::external_type_specification]
#[verifier::external_body]
pub struct ExPcg64(rand_pcg::Lcg128Xsl64);

/// Relies on rand's `SliceRandom::shuffle`, which reorders the slice in place
/// by swapping elements: the result holds the same cards, in some order that
/// depends on the generator.
#[verifier::external_body]
fn shuffle_cards(cards: &mut Vec<Card>, rng: &mut Pcg64)
    ensures
        final(cards)@.to_multiset() == old(cards)@.to_multiset(),
        final(cards)@.len() == old(cards)@.len(),
{
    cards.shuffle(rng);
}

/// The 52 cards in card order: suits in suit order, ranks ascending.
pub fn full_deck() -> (r: Vec<Card>)
    ensures
        r@.len() == 52,
        forall|i: int| 0 <= i < 52 ==> (#[trigger] r@[i]).key() == i,
        r@.no_duplicates(),
{
    let suits = all_suits();
    let ranks = all_ranks();
    let mut cards: Vec<Card> = Vec::new();
    let mut s: usize = 0;
    while s < 4
        invariant
            0 <= s <= 4,
            suits@ == seq![Suit::Diamonds, Suit::Clubs, Suit::Hearts, Suit::Spades],
            forall|i: int| 0 <= i < 4 ==> (#[trigger] suits@[i]).value() == i,
            ranks@.len() == 13,
            forall|i: int| 0 <= i < 13 ==> (#[trigger] ranks@[i]).value() == i,
            cards@.len() == 13 * s,
            forall|i: int| 0 <= i < cards@.len() ==> (#[trigger] cards@[i]).key() == i,
        decreases 4 - s,
    {
        let mut k: usize = 0;
        while k < 13
            invariant
                0 <= s < 4,
                0 <= k <= 13,
                suits@.len() == 4,
                forall|i: int| 0 <= i < 4 ==> (#[trigger] suits@[i]).value() == i,
                ranks@.len() == 13,
                forall|i: int| 0 <= i < 13 ==> (#[trigger] ranks@[i]).value() == i,
                cards@.len() == 13 * s + k,
                forall|i: int| 0 <= i < cards@.len() ==> (#[trigger] cards@[i]).key() == i,
            decreases 13 - k,
        {
            cards.push(Card { suit: suits[s], rank: ranks[k] });
            k = k + 1;
        }
        s = s + 1;
    }
    proof {
        assert forall|i: int, j: int|
            0 <= i < cards@.len() && 0 <= j < cards@.len() && i != j implies cards@[i]
            != cards@[j] by {
            assert(cards@[i].key() != cards@[j].key());
        }
    }
    cards
}

/// Cards in ascending card order.
pub open spec fn sorted(cards: Seq<Card>) -> bool {
    forall|i: int, j: int| 0 <= i < j < cards.len() ==> cards[i].key() <= cards[j].key()
}

/// Sorts cards into card order.
pub fn sort_cards(cards: &Vec<Card>) -> (r: Vec<Card>)
    ensures
        sorted(r@),
        r@.to_multiset() == cards@.to_multiset(),
        r@.len() == cards@.len(),
{
    broadcast use vstd::seq_lib::group_to_multiset_ensures;

    let mut r: Vec<Card> = Vec::new();
    let mut i: usize = 0;
    while i < cards.len()
        invariant
            0 <= i <= cards@.len(),
            sorted(r@),
            r@.len() == i,
            r@.to_multiset() == cards@.subrange(0, i as int).to_multiset(),
        decreases cards@.len() - i,
    {
        let c = cards[i];
        let key = c.order_key();
        let mut pos: usize = 0;
        while pos < r.len() && r[pos].order_key() <= key
            invariant
                0 <= pos <= r@.len(),
                key as int == c.key(),
                forall|j: int| 0 <= j < pos ==> (#[trigger] r@[j]).key() <= c.key(),
            decreases r@.len() - pos,
        {
            pos = pos + 1;
        }
        proof {
            assert(pos < r@.len() ==> r@[pos as int].key() > c.key());
        }
        let ghost before = r@;
        r.insert(pos, c);
        proof {
            assert(cards@.subrange(0, i + 1) =~= cards@.subrange(0, i as int).push(c));
            vstd::seq_lib::to_multiset_insert(before, pos as int, c);
            vstd::seq_lib::to_multiset_build(cards@.subrange(0, i as int), c);
            assert(r@.to_multiset() == before.to_multiset().insert(c));
            assert(cards@.subrange(0, i + 1).to_multiset() == cards@.subrange(
                0,
                i as int,
            ).to_multiset().insert(c));
            assert forall|a: int, b: int| 0 <= a < b < r@.len() implies r@[a].key() <= r@[b].key() by {
                if a < pos && b > pos {
                    assert(r@[a] == before[a]);
                    assert(r@[b] == before[b - 1]);
                } else if a < pos && b == pos {
                    assert(r@[a] == before[a]);
                } else if a == pos {
                    assert(r@[b] == before[b - 1]);
                    assert(before[pos as int].key() > c.key());
                    assert(before[pos as int].key() <= before[b - 1].key());
                } else if a < pos {
                    assert(r@[a] == before[a]);
                    assert(r@[b] == before[b]);
                } else {
                    assert(r@[a] == before[a - 1]);
                    assert(r@[b] == before[b - 1]);
                }
            }
        }
        i = i + 1;
    }
    proof {
        assert(cards@.subrange(0, cards@.len() as int) =~= cards@);
    }
    r
}

/// The 13 cards at `start..start + 13` of a deck, sorted.
fn build_hand(cards: &Vec<Card>, start: usize) -> (r: Vec<Card>)
    requires
        start <= 39,
        start + 13 <= cards@.len(),
    ensures
        sorted(r@),
        r@.len() == 13,
        r@.to_multiset() == cards@.subrange(start as int, start + 13).to_multiset(),
{
    let mut chunk: Vec<Card> = Vec::new();
    let mut i: usize = start;
    while i < start + 13
        invariant
            start <= 39,
            start <= i <= start + 13,
            start + 13 <= cards@.len(),
            chunk@ == cards@.subrange(start as int, i as int),
        decreases start + 13 - i,
    {
        chunk.push(cards[i]);
        i = i + 1;
        proof {
            assert(chunk@ =~= cards@.subrange(start as int, i as int));
        }
    }
    sort_cards(&chunk)
}

/// `game` was dealt from `deck`: each seat holds its 13-card share of the
/// deck (User, Left, Dummy, Right in that order), sorted, and the auction
/// has not begun.
pub open spec fn dealt_from(deck: Seq<Card>, game: GameData, first: Position, second: Position) -> bool {
    &&& sorted(game.hand_of(Position::User))
    &&& sorted(game.hand_of(Position::Left))
    &&& sorted(game.hand_of(Position::Dummy))
    &&& sorted(game.hand_of(Position::Right))
    &&& game.hand_of(Position::User).len() == 13
    &&& game.hand_of(Position::Left).len() == 13
    &&& game.hand_of(Position::Dummy).len() == 13
    &&& game.hand_of(Position::Right).len() == 13
    &&& game.hand_of(Position::User).to_multiset() == deck.subrange(0, 13).to_multiset()
    &&& game.hand_of(Position::Left).to_multiset() == deck.subrange(13, 26).to_multiset()
    &&& game.hand_of(Position::Dummy).to_multiset() == deck.subrange(26, 39).to_multiset()
    &&& game.hand_of(Position::Right).to_multiset() == deck.subrange(39, 52).to_multiset()
    &&& game.auction.bid_number == 6
    &&& game.auction.first == first
    &&& game.auction.second == second
    &&& game.auction.first_bids@.len() == 0
    &&& game.auction.second_bids@.len() == 0
}

/// Deals a 52-card deck in chunks of 13 to User, Left, Dummy and Right, each
/// hand sorted, and opens the auction at six tricks with the given bidders.
pub fn deal(cards: &Vec<Card>, first: Position, second: Position) -> (r: GameData)
    requires
        cards@.len() == 52,
    ensures
        dealt_from(cards@, r, first, second),
        r.debug.show_hidden_cards,
        cards@.no_duplicates() ==> r.wf(),
{
    let user_hand = build_hand(cards, 0);
    let left_opponent_hand = build_hand(cards, 13);
    let dummy_hand = build_hand(cards, 26);
    let right_opponet_hand = build_hand(cards, 39);
    let r = GameData {
        hands: Hands { user_hand, dummy_hand, left_opponent_hand, right_opponet_hand },
        auction: Auction {
            bid_number: 6,
            first,
            first_bids: Vec::new(),
            second,
            second_bids: Vec::new(),
        },
        debug: crate::game::Debug { show_hidden_cards: true },
    };
    proof {
        lemma_deal_round_trip(cards@, r, first, second);
    }
    r
}

/// Concatenating the four dealt hands gives back the deck, each card as often
/// as in the deck; for a deck of distinct cards each card exactly once, and
/// the game then accounts for all 52 cards once each.
pub proof fn lemma_deal_round_trip(deck: Seq<Card>, game: GameData, first: Position, second: Position)
    requires
        deck.len() == 52,
        dealt_from(deck, game, first, second),
    ensures
        (game.hand_of(Position::User) + game.hand_of(Position::Left) + game.hand_of(
            Position::Dummy,
        ) + game.hand_of(Position::Right)).to_multiset() == deck.to_multiset(),
        game.held_cards() == deck.to_multiset(),
        deck.no_duplicates() ==> forall|c: Card|
            deck.contains(c) ==> #[trigger] game.held_cards().count(c) == 1,
        deck.no_duplicates() ==> game.wf(),
{
    broadcast use vstd::seq_lib::group_to_multiset_ensures;

    let u = game.hand_of(Position::User);
    let l = game.hand_of(Position::Left);
    let d = game.hand_of(Position::Dummy);
    let r = game.hand_of(Position::Right);
    let d0 = deck.subrange(0, 13);
    let d1 = deck.subrange(13, 26);
    let d2 = deck.subrange(26, 39);
    let d3 = deck.subrange(39, 52);
    assert(deck =~= d0 + d1 + d2 + d3);
    vstd::seq_lib::lemma_multiset_commutative(d0 + d1 + d2, d3);
    vstd::seq_lib::lemma_multiset_commutative(d0 + d1, d2);
    vstd::seq_lib::lemma_multiset_commutative(d0, d1);
    vstd::seq_lib::lemma_multiset_commutative(u + l + d, r);
    vstd::seq_lib::lemma_multiset_commutative(u + l, d);
    vstd::seq_lib::lemma_multiset_commutative(u, l);
    assert(game.held_cards() == deck.to_multiset());
    if deck.no_duplicates() {
        deck.lemma_multiset_has_no_duplicates();
        assert forall|c: Card| #[trigger] game.held_cards().count(c) <= 1 by {
            if deck.to_multiset().count(c) > 0 {
                assert(deck.to_multiset().contains(c));
            }
        }
        assert forall|c: Card| deck.contains(c) implies #[trigger] game.held_cards().count(c)
            == 1 by {
            assert(deck.to_multiset().count(c) > 0);
        }
    }
}

/// Creates a new game, dealing a shuffled deck to the four positions.
pub fn new_game(rng: &mut Pcg64, first: Position, second: Position) -> (r: GameData)
    ensures
        r.wf(),
        r.debug.show_hidden_cards,
        exists|deck: Seq<Card>| deck.len() == 52 && dealt_from(deck, r, first, second),
{
    let mut cards = full_deck();
    let ghost ordered = cards@;
    shuffle_cards(&mut cards, rng);
    proof {
        ordered.lemma_multiset_has_no_duplicates();
        assert forall|x: Card| cards@.to_multiset().contains(x) implies cards@.to_multiset().count(
            x,
        ) == 1 by {}
        cards@.lemma_multiset_has_no_duplicates_conv();
    }
    deal(&cards, first, second)
}

} // verus!
