//! The trick-taking engine: playing cards, turn order, legal plays, card
//! power and trick winners.

use std::cmp::Ordering;

use vstd::multiset::Multiset;
use vstd::prelude::*;

use crate::agent::Agent;
use crate::game::{history_cards, CompletedTrick, GameError, PlayPhaseData, PlayedCard, Trick};
use crate::primitives::{Card, CardId, Position, Suit};

verus! {

broadcast use vstd::multiset::group_multiset_axioms;

/// The power of a card in a trick: trump cards above cards of the lead
/// suit, both ordered by rank, and every other card at zero.
pub open spec fn power(trump: Option<Suit>, lead: Option<Suit>, c: Card) -> int {
    if trump == Some(c.suit) {
        26 + c.rank.value()
    } else if lead == Some(c.suit) {
        13 + c.rank.value()
    } else {
        0
    }
}

/// The power of a card in the current trick of a game.
pub open spec fn card_power(data: PlayPhaseData, c: Card) -> int {
    power(data.contract.trump, data.trick.spec_lead_suit(), c)
}

/// The ordering of two integers.
pub open spec fn int_cmp(a: int, b: int) -> Ordering {
    if a < b {
        Ordering::Less
    } else if a == b {
        Ordering::Equal
    } else {
        Ordering::Greater
    }
}

/// The first position in turn order that has not yet played to the trick.
pub open spec fn first_open(t: Trick) -> Option<Position> {
    if t.played(t.order()[0]).is_none() {
        Some(t.order()[0])
    } else if t.played(t.order()[1]).is_none() {
        Some(t.order()[1])
    } else if t.played(t.order()[2]).is_none() {
        Some(t.order()[2])
    } else if t.played(t.order()[3]).is_none() {
        Some(t.order()[3])
    } else {
        None
    }
}

/// The strongest of a sequence of plays; of equal plays the earliest.
pub open spec fn best_play(data: PlayPhaseData, plays: Seq<(Position, Card)>) -> Option<
    (Position, Card),
>
    decreases plays.len(),
{
    if plays.len() == 0 {
        None
    } else {
        match best_play(data, plays.drop_last()) {
            None => Some(plays.last()),
            Some(b) => if card_power(data, plays.last().1) > card_power(data, b.1) {
                Some(plays.last())
            } else {
                Some(b)
            },
        }
    }
}

/// The play that currently wins the trick, if any card has been played.
pub open spec fn winner_of(data: PlayPhaseData) -> Option<(Position, Card)> {
    best_play(data, data.trick.plays())
}

/// The position to act: None once every hand is empty; otherwise the first
/// position in turn order yet to play, or the winner of a full trick.
pub open spec fn player_to_act(data: PlayPhaseData) -> Option<Position> {
    if data.game.all_hands_empty() {
        None
    } else {
        match first_open(data.trick) {
            Some(p) => Some(p),
            None => match winner_of(data) {
                Some(w) => Some(w.0),
                None => None,
            },
        }
    }
}

/// The suit a position must follow: the lead suit of an unfinished trick,
/// when the position holds a card of it.
pub open spec fn suit_to_follow(data: PlayPhaseData, position: Position) -> Option<Suit> {
    if data.trick.complete() {
        None
    } else {
        match data.trick.spec_lead_suit() {
            Some(lead) => if exists|i: int|
                0 <= i < data.game.hand_of(position).len() && (#[trigger] data.game.hand_of(
                    position,
                )[i]).suit == lead {
                Some(lead)
            } else {
                None
            },
            None => None,
        }
    }
}

/// A card may be played by a position: it is that position's turn, and the
/// card follows suit when the position can.
pub open spec fn legal_card(data: PlayPhaseData, position: Position, c: Card) -> bool {
    &&& player_to_act(data) == Some(position)
    &&& match suit_to_follow(data, position) {
        Some(lead) => c.suit == lead,
        None => true,
    }
}

/// The legal plays among the first `k` cards of a position's hand, with
/// their indices, in hand order.
pub open spec fn legal_upto(data: PlayPhaseData, position: Position, k: int) -> Seq<(usize, Card)>
    decreases k,
{
    if k <= 0 {
        seq![]
    } else {
        let c = data.game.hand_of(position)[k - 1];
        if legal_card(data, position, c) {
            legal_upto(data, position, k - 1).push(((k - 1) as usize, c))
        } else {
            legal_upto(data, position, k - 1)
        }
    }
}

/// All legal plays of a position, with their indices, in hand order.
pub open spec fn legal_seq(data: PlayPhaseData, position: Position) -> Seq<(usize, Card)> {
    legal_upto(data, position, data.game.hand_of(position).len() as int)
}

/// Every card of a hand with its index, in hand order.
pub open spec fn indexed(hand: Seq<Card>) -> Seq<(usize, Card)> {
    Seq::new(hand.len(), |i: int| (i as usize, hand[i]))
}

/// `index` names a legal play of `position`.
pub open spec fn legal_index(data: PlayPhaseData, position: Position, index: usize) -> bool {
    index < data.game.hand_of(position).len() && legal_card(
        data,
        position,
        data.game.hand_of(position)[index as int],
    )
}

/// `after` is `before` with the card at `index` of `position`'s hand moved
/// into the current trick.
pub open spec fn card_moved(
    before: PlayPhaseData,
    after: PlayPhaseData,
    position: Position,
    index: usize,
) -> bool {
    let card = before.game.hand_of(position)[index as int];
    &&& after.game.hand_of(position) == before.game.hand_of(position).remove(index as int)
    &&& forall|q: Position|
        q != position ==> #[trigger] after.game.hand_of(q) == before.game.hand_of(q)
    &&& after.game.auction == before.game.auction
    &&& after.game.debug == before.game.debug
    &&& after.trick == before.trick.with_play(position, card)
    &&& after.contract == before.contract
    &&& after.completed_tricks@ == before.completed_tricks@
}

/// Moves the card at `id.index` of a hand into the current trick. Legality
/// is the caller's concern; the position must not have played to this trick.
pub fn play_card(data: &mut PlayPhaseData, id: CardId)
    requires
        id.index < old(data).game.hand_of(id.position).len(),
        old(data).trick.played(id.position).is_none(),
    ensures
        card_moved(*old(data), *final(data), id.position, id.index),
        old(data).wf() ==> final(data).wf(),
{
    let ghost before = *data;
    let card = data.game.hand_mut(id.position).remove(id.index);
    data.trick.set_card_played(id.position, card);
    proof {
        let p = id.position;
        let hand = before.game.hand_of(p);
        vstd::seq_lib::to_multiset_remove(hand, id.index as int);
        assert(hand.to_multiset().count(card) > 0) by {
            vstd::seq_lib::to_multiset_contains(hand, card);
            assert(hand[id.index as int] == card);
        }
        assert(data.all_cards() =~= before.all_cards());
    }
}

/// Returns the next position to act in the play phase: None if every hand
/// is empty; otherwise the next position in turn order yet to play, or the
/// winner of a full trick.
pub fn next_to_play(data: &PlayPhaseData) -> (r: Option<Position>)
    ensures
        r == player_to_act(*data),
{
    if data.game.hand(Position::User).len() == 0 && data.game.hand(Position::Left).len() == 0
        && data.game.hand(Position::Dummy).len() == 0 && data.game.hand(Position::Right).len()
        == 0 {
        return None;
    }
    assert(!data.game.all_hands_empty());
    let order = data.trick.turn_order();
    let mut i: usize = 0;
    while i < 4
        invariant
            0 <= i <= 4,
            order@ == data.trick.order(),
            !data.game.all_hands_empty(),
            forall|j: int| 0 <= j < i ==> (#[trigger] data.trick.played(order@[j])).is_some(),
        decreases 4 - i,
    {
        if data.trick.card_played(order[i]).is_none() {
            proof {
                if i > 0 {
                    assert(data.trick.played(order@[0]).is_some());
                }
                if i > 1 {
                    assert(data.trick.played(order@[1]).is_some());
                }
                if i > 2 {
                    assert(data.trick.played(order@[2]).is_some());
                }
            }
            return Some(order[i]);
        }
        i = i + 1;
    }
    match trick_winner(data) {
        Some((p, _)) => Some(p),
        None => None,
    }
}

/// The position's hand holds a card of `suit`.
fn holds_suit(data: &PlayPhaseData, position: Position, suit: Suit) -> (r: bool)
    ensures
        r == exists|i: int|
            0 <= i < data.game.hand_of(position).len() && (#[trigger] data.game.hand_of(
                position,
            )[i]).suit == suit,
{
    let hand = data.game.hand(position);
    let mut i: usize = 0;
    while i < hand.len()
        invariant
            0 <= i <= hand@.len(),
            hand@ == data.game.hand_of(position),
            forall|j: int| 0 <= j < i ==> (#[trigger] hand@[j]).suit != suit,
        decreases hand@.len() - i,
    {
        if hand[i].suit == suit {
            return true;
        }
        i = i + 1;
    }
    false
}

/// The suit `position` must follow now, if any.
fn follow_suit(data: &PlayPhaseData, position: Position) -> (r: Option<Suit>)
    ensures
        r == suit_to_follow(*data, position),
{
    if data.trick.is_completed() {
        None
    } else {
        match data.trick.lead_suit() {
            Some(lead) => if holds_suit(data, position, lead) {
                Some(lead)
            } else {
                None
            },
            None => None,
        }
    }
}

/// Returns all (index, [Card]) pairs that `position` can legally play now,
/// in hand order: none when it is not this position's turn or the game has
/// ended; all cards when leading or unable to follow suit; otherwise the
/// cards of the lead suit.
pub fn legal_plays(data: &PlayPhaseData, position: Position) -> (r: Vec<(usize, Card)>)
    ensures
        r@ == legal_seq(*data, position),
{
    let turn = next_to_play(data);
    let lead = follow_suit(data, position);
    let hand = data.game.hand(position);
    let mut r: Vec<(usize, Card)> = Vec::new();
    let mut i: usize = 0;
    while i < hand.len()
        invariant
            0 <= i <= hand@.len(),
            hand@ == data.game.hand_of(position),
            turn == player_to_act(*data),
            lead == suit_to_follow(*data, position),
            r@ == legal_upto(*data, position, i as int),
        decreases hand@.len() - i,
    {
        let card = hand[i];
        let legal = match turn {
            Some(t) => t == position && match lead {
                Some(l) => card.suit == l,
                None => true,
            },
            None => false,
        };
        if legal {
            r.push((i, card));
        }
        i = i + 1;
    }
    r
}

/// Whose turn it is not has no legal play; a position to act that leads or
/// cannot follow suit may play every card it holds.
pub proof fn lemma_legal_plays_shape(data: PlayPhaseData, position: Position)
    ensures
        player_to_act(data) != Some(position) ==> legal_seq(data, position).len() == 0,
        player_to_act(data) == Some(position) && suit_to_follow(data, position).is_none()
            ==> legal_seq(data, position) == indexed(data.game.hand_of(position)),
        player_to_act(data) == Some(position) && (data.trick.spec_lead_suit().is_none() || (
        forall|i: int|
            0 <= i < data.game.hand_of(position).len() ==> Some(
                (#[trigger] data.game.hand_of(position)[i]).suit,
            ) != data.trick.spec_lead_suit())) ==> legal_seq(data, position) == indexed(
            data.game.hand_of(position),
        ),
{
    let hand = data.game.hand_of(position);
    lemma_legal_upto_shape(data, position, hand.len() as int);
    if player_to_act(data) == Some(position) && suit_to_follow(data, position).is_none() {
        assert(legal_seq(data, position) =~= indexed(hand));
    }
}

proof fn lemma_legal_upto_shape(data: PlayPhaseData, position: Position, k: int)
    requires
        0 <= k <= data.game.hand_of(position).len(),
    ensures
        player_to_act(data) != Some(position) ==> legal_upto(data, position, k).len() == 0,
        player_to_act(data) == Some(position) && suit_to_follow(data, position).is_none()
            ==> legal_upto(data, position, k) =~= indexed(data.game.hand_of(position)).subrange(
            0,
            k,
        ),
    decreases k,
{
    if k > 0 {
        lemma_legal_upto_shape(data, position, k - 1);
    }
}

/// Every entry of the legal plays names a legal card by its index.
pub proof fn lemma_legal_upto_entries(data: PlayPhaseData, position: Position, k: int)
    requires
        0 <= k <= data.game.hand_of(position).len(),
        data.game.hand_of(position).len() <= usize::MAX,
    ensures
        forall|j: int|
            0 <= j < legal_upto(data, position, k).len() ==> {
                let e = #[trigger] legal_upto(data, position, k)[j];
                &&& e.0 < k
                &&& legal_index(data, position, e.0)
                &&& e.1 == data.game.hand_of(position)[e.0 as int]
            },
        forall|i: int|
            0 <= i < k && legal_card(data, position, data.game.hand_of(position)[i]) ==> exists|
                j: int,
            |
                0 <= j < legal_upto(data, position, k).len() && (#[trigger] legal_upto(
                    data,
                    position,
                    k,
                )[j]).0 == i,
    decreases k,
{
    if k > 0 {
        lemma_legal_upto_entries(data, position, k - 1);
        let prev = legal_upto(data, position, k - 1);
        let c = data.game.hand_of(position)[k - 1];
        if legal_card(data, position, c) {
            let cur = legal_upto(data, position, k);
            assert(cur == prev.push(((k - 1) as usize, c)));
            assert forall|i: int|
                0 <= i < k && legal_card(data, position, data.game.hand_of(position)[i]) implies exists|
                j: int,
            |
                0 <= j < cur.len() && (#[trigger] cur[j]).0 == i by {
                if i == k - 1 {
                    assert(cur[prev.len() as int].0 == i);
                } else {
                    let j = choose|j: int| 0 <= j < prev.len() && (#[trigger] prev[j]).0 == i;
                    assert(cur[j] == prev[j]);
                }
            }
        } else {
            let cur = legal_upto(data, position, k);
            assert(cur == prev);
            assert forall|i: int|
                0 <= i < k && legal_card(data, position, data.game.hand_of(position)[i]) implies exists|
                j: int,
            |
                0 <= j < cur.len() && (#[trigger] cur[j]).0 == i by {
                assert(i != k - 1);
            }
        }
    }
}

/// Compares two cards by their power in the current trick: trump beats
/// non-trump, the lead suit beats other suits, and within trump or the lead
/// suit the higher rank wins. Any other two cards are Equal, even if they
/// differ.
pub fn compare_card_power(data: &PlayPhaseData, a: Card, b: Card) -> (r: Ordering)
    ensures
        r == int_cmp(card_power(*data, a), card_power(*data, b)),
{
    let pa = power_of(data, a);
    let pb = power_of(data, b);
    if pa < pb {
        Ordering::Less
    } else if pa == pb {
        Ordering::Equal
    } else {
        Ordering::Greater
    }
}

fn power_of(data: &PlayPhaseData, c: Card) -> (r: u8)
    ensures
        r as int == card_power(*data, c),
{
    let trump_card = match data.contract.trump {
        Some(t) => t == c.suit,
        None => false,
    };
    let lead_card = match data.trick.lead_suit() {
        Some(l) => l == c.suit,
        None => false,
    };
    if trump_card {
        26 + c.rank.order_value()
    } else if lead_card {
        13 + c.rank.order_value()
    } else {
        0
    }
}

/// Every card is as powerful as itself, and two cards of neither the trump
/// nor the lead suit are equally powerful whatever their ranks.
pub proof fn lemma_compare_card_power_equal(data: PlayPhaseData, a: Card, b: Card)
    ensures
        int_cmp(card_power(data, a), card_power(data, a)) == Ordering::Equal,
        data.contract.trump != Some(a.suit) && data.contract.trump != Some(b.suit)
            && data.trick.spec_lead_suit() != Some(a.suit) && data.trick.spec_lead_suit() != Some(
            b.suit,
        ) ==> int_cmp(card_power(data, a), card_power(data, b)) == Ordering::Equal,
{
}

/// The winning play is one of the plays, at least as powerful as each of
/// them, and strictly more powerful than each play before it.
pub proof fn lemma_best_play(data: PlayPhaseData, plays: Seq<(Position, Card)>)
    ensures
        plays.len() == 0 <==> best_play(data, plays).is_none(),
        best_play(data, plays) matches Some(w) ==> exists|i: int|
            0 <= i < plays.len() && plays[i] == w && (forall|j: int|
                0 <= j < i ==> card_power(data, (#[trigger] plays[j]).1) < card_power(data, w.1)),
        best_play(data, plays) matches Some(w) ==> forall|j: int|
            0 <= j < plays.len() ==> card_power(data, (#[trigger] plays[j]).1) <= card_power(
                data,
                w.1,
            ),
    decreases plays.len(),
{
    if plays.len() > 0 {
        let init = plays.drop_last();
        lemma_best_play(data, init);
        match best_play(data, init) {
            None => {
                assert(plays.len() == 1);
                assert(plays[0] == plays.last());
            },
            Some(b) => {
                let i = choose|i: int|
                    0 <= i < init.len() && init[i] == b && (forall|j: int|
                        0 <= j < i ==> card_power(data, (#[trigger] init[j]).1) < card_power(
                            data,
                            b.1,
                        ));
                assert(plays[i] == b);
                if card_power(data, plays.last().1) > card_power(data, b.1) {
                    let n = plays.len() - 1;
                    assert(plays[n] == plays.last());
                    assert forall|j: int| 0 <= j < n implies card_power(
                        data,
                        (#[trigger] plays[j]).1,
                    ) < card_power(data, plays.last().1) by {
                        assert(plays[j] == init[j]);
                    }
                } else {
                    assert forall|j: int| 0 <= j < i implies card_power(
                        data,
                        (#[trigger] plays[j]).1,
                    ) < card_power(data, b.1) by {
                        assert(plays[j] == init[j]);
                    }
                }
                assert forall|j: int| 0 <= j < plays.len() implies card_power(
                    data,
                    (#[trigger] plays[j]).1,
                ) <= card_power(data, best_play(data, plays).unwrap().1) by {
                    if j < plays.len() - 1 {
                        assert(plays[j] == init[j]);
                    }
                }
            },
        }
    }
}

/// Returns the (position, card) play that currently wins the trick: the most
/// powerful card, the earliest in turn order among equally powerful ones. None
/// if no card has been played.
pub fn trick_winner(data: &PlayPhaseData) -> (r: Option<(Position, Card)>)
    ensures
        r == winner_of(*data),
        r.is_none() <==> data.trick.plays().len() == 0,
        r matches Some(w) ==> data.trick.plays().contains(w),
        r matches Some(w) ==> forall|j: int|
            0 <= j < data.trick.plays().len() ==> card_power(
                *data,
                (#[trigger] data.trick.plays()[j]).1,
            ) <= card_power(*data, w.1),
{
    let plays = data.trick.cards();
    let mut best: Option<(Position, Card)> = None;
    let mut best_power: u8 = 0;
    let mut i: usize = 0;
    while i < plays.len()
        invariant
            0 <= i <= plays@.len(),
            plays@ == data.trick.plays(),
            best == best_play(*data, plays@.subrange(0, i as int)),
            best matches Some(b) ==> best_power as int == card_power(*data, b.1),
        decreases plays@.len() - i,
    {
        proof {
            assert(plays@.subrange(0, i + 1).drop_last() =~= plays@.subrange(0, i as int));
            assert(plays@.subrange(0, i + 1).last() == plays@[i as int]);
        }
        let (p, c) = plays[i];
        let pc = power_of(data, c);
        match best {
            None => {
                best = Some((p, c));
                best_power = pc;
            },
            Some(_) => {
                if pc > best_power {
                    best = Some((p, c));
                    best_power = pc;
                }
            },
        }
        i = i + 1;
    }
    proof {
        assert(plays@.subrange(0, plays@.len() as int) =~= plays@);
        lemma_best_play(*data, plays@);
    }
    best
}

/// The legal plays that would beat the current winner: all legal plays
/// while no card has been played.
pub open spec fn beats_winner(data: PlayPhaseData, c: Card) -> bool {
    match winner_of(data) {
        Some(w) => card_power(data, c) > card_power(data, w.1),
        None => true,
    }
}

/// The winning plays among the first `k` legal plays.
pub open spec fn winning_upto(data: PlayPhaseData, legal: Seq<(usize, Card)>, k: int) -> Seq<
    (usize, Card),
>
    decreases k,
{
    if k <= 0 {
        seq![]
    } else if beats_winner(data, legal[k - 1].1) {
        winning_upto(data, legal, k - 1).push(legal[k - 1])
    } else {
        winning_upto(data, legal, k - 1)
    }
}

/// Returns the [legal_plays] of `position` which are higher in power than
/// the current [trick_winner], or all of them if there is no winner yet.
pub fn winning_plays(data: &PlayPhaseData, position: Position) -> (r: Vec<(usize, Card)>)
    ensures
        r@ == winning_upto(
            *data,
            legal_seq(*data, position),
            legal_seq(*data, position).len() as int,
        ),
{
    let winner = trick_winner(data);
    let legal = legal_plays(data, position);
    let mut r: Vec<(usize, Card)> = Vec::new();
    let mut i: usize = 0;
    while i < legal.len()
        invariant
            0 <= i <= legal@.len(),
            legal@ == legal_seq(*data, position),
            winner == winner_of(*data),
            r@ == winning_upto(*data, legal@, i as int),
        decreases legal@.len() - i,
    {
        let (index, card) = legal[i];
        let wins = match winner {
            Some((_, w)) => matches!(compare_card_power(data, card, w), Ordering::Greater),
            None => true,
        };
        if wins {
            r.push((index, card));
        }
        i = i + 1;
    }
    r
}

/// True if `position` may play `card` now: it holds the card and playing it
/// is legal.
pub fn can_play_card(data: &PlayPhaseData, position: Position, card: Card) -> (r: bool)
    ensures
        r == (data.game.hand_of(position).contains(card) && legal_card(*data, position, card)),
{
    let hand = data.game.hand(position);
    let mut i: usize = 0;
    let mut found = false;
    while i < hand.len()
        invariant
            0 <= i <= hand@.len(),
            hand@ == data.game.hand_of(position),
            found == exists|j: int| 0 <= j < i && hand@[j] == card,
        decreases hand@.len() - i,
    {
        if hand[i] == card {
            found = true;
        }
        i = i + 1;
    }
    if !found {
        return false;
    }
    let legal = match next_to_play(data) {
        Some(t) => t == position && match follow_suit(data, position) {
            Some(l) => card.suit == l,
            None => true,
        },
        None => false,
    };
    legal
}

/// A trick to which nobody has played yet.
pub open spec fn fresh_trick(t: Trick, lead: Position) -> bool {
    &&& t.lead == lead
    &&& t.user_play.is_none() && t.dummy_play.is_none() && t.left_play.is_none()
        && t.right_play.is_none()
}

/// A full trick has plays, so it has a winner.
pub proof fn lemma_complete_has_winner(data: PlayPhaseData)
    requires
        data.trick.complete(),
    ensures
        data.trick.plays().len() == 4,
        winner_of(data).is_some(),
{
    reveal_with_fuel(Trick::plays_upto, 5);
    lemma_best_play(data, data.trick.plays());
}

/// `after` is `before` with its full trick moved to the finished tricks,
/// recorded with its winner, and a fresh trick led by `lead`.
pub open spec fn trick_closed(before: PlayPhaseData, after: PlayPhaseData, lead: Position) -> bool {
    &&& after.game == before.game
    &&& after.contract == before.contract
    &&& after.completed_tricks@ == before.completed_tricks@.push(
        CompletedTrick { trick: before.trick, winner: winner_of(before).unwrap().0 },
    )
    &&& fresh_trick(after.trick, lead)
}

fn close_trick(data: &mut PlayPhaseData, lead: Position)
    requires
        old(data).trick.complete(),
    ensures
        trick_closed(*old(data), *final(data), lead),
        old(data).wf() ==> final(data).wf(),
{
    let ghost before = *data;
    proof {
        lemma_complete_has_winner(*data);
    }
    let winner = match trick_winner(data) {
        Some((p, _)) => p,
        None => lead,
    };
    let mut finished = Trick::new(lead);
    std::mem::swap(&mut data.trick, &mut finished);
    data.completed_tricks.push(CompletedTrick { trick: finished, winner });
    proof {
        let done = CompletedTrick { trick: before.trick, winner };
        assert(data.completed_tricks@.drop_last() =~= before.completed_tricks@);
        assert(history_cards(data.completed_tricks@) == history_cards(
            before.completed_tricks@,
        ).add(before.trick.card_multiset()));
        assert(data.trick.card_multiset() =~= Multiset::empty());
        assert(data.all_cards() =~= before.all_cards());
    }
}

/// A human play of the card at `index` by `position` may go ahead: on a full
/// trick a fresh trick led by `position` is opened first, in which it may
/// play any card while the game is not over; otherwise the play must be
/// legal now.
pub open spec fn move_allowed(data: PlayPhaseData, position: Position, index: usize) -> bool {
    if data.trick.complete() {
        !data.game.all_hands_empty() && index < data.game.hand_of(position).len()
    } else {
        legal_index(data, position, index)
    }
}

/// `after` is `before`, or, when the trick of `before` is full, `before`
/// with that trick closed and a fresh one led by `lead`.
pub open spec fn trick_ready(before: PlayPhaseData, after: PlayPhaseData, lead: Position) -> bool {
    if before.trick.complete() {
        trick_closed(before, after, lead)
    } else {
        after == before
    }
}

/// `after` is `before`, or, when the trick of `before` is unfinished and
/// `position` has a legal play, `before` with the card the agent chooses for
/// `position` played; that card is legal.
pub open spec fn agent_followed<A: Agent>(
    agent: A,
    before: PlayPhaseData,
    after: PlayPhaseData,
    position: Position,
) -> bool {
    if !before.trick.complete() && legal_seq(before, position).len() > 0 {
        let j = agent.play_choice(before, position);
        legal_index(before, position, j) && card_moved(before, after, position, j)
    } else {
        after == before
    }
}

/// Asks the agent for its play for `position` if that position has a legal
/// play in an unfinished trick, and plays it.
fn agent_follow<A: Agent>(data: &mut PlayPhaseData, agent: &A, position: Position)
    ensures
        agent_followed(*agent, *old(data), *final(data), position),
        old(data).wf() ==> final(data).wf(),
{
    if data.trick.is_completed() {
        return;
    }
    let legal = legal_plays(data, position);
    if legal.len() == 0 {
        return;
    }
    let index = agent.select_play(data, position);
    proof {
        assert(player_to_act(*data) == Some(position));
        assert(first_open(data.trick) is Some);
    }
    play_card(data, CardId::new(position, index));
}

/// The outcome of [resolve_card_play_action]: an automated position or a
/// play that is not allowed fails with nothing changed; otherwise the full
/// trick, if any, is closed, the card is played, and the agent's card for the
/// next position follows.
pub open spec fn card_play_resolved<A: Agent>(
    agent: A,
    before: PlayPhaseData,
    after: PlayPhaseData,
    id: CardId,
    r: Result<(), GameError>,
) -> bool {
    if id.position.spec_is_agent() {
        r == Err::<(), GameError>(GameError::NotUsersTurn) && after == before
    } else if !move_allowed(before, id.position, id.index) {
        r == Err::<(), GameError>(GameError::IllegalPlay) && after == before
    } else {
        &&& r is Ok
        &&& before.wf() ==> after.wf()
        &&& exists|ready: PlayPhaseData, played: PlayPhaseData|
            trick_ready(before, ready, id.position) && card_moved(
                ready,
                played,
                id.position,
                id.index,
            ) && agent_followed(agent, played, after, id.position.spec_next())
    }
}

/// Plays the card at `id` for a human position, then lets the agent play for
/// the next position if the trick is still unfinished. If the trick was
/// already full, it is closed first and `id.position` leads a fresh one.
/// Fails, changing nothing, for an automated position or a play that is not
/// allowed.
pub fn resolve_card_play_action<A: Agent>(data: &mut PlayPhaseData, agent: &A, id: CardId) -> (r:
    Result<(), GameError>)
    ensures
        card_play_resolved(*agent, *old(data), *final(data), id, r),
{
    if id.position.is_agent() {
        return Err(GameError::NotUsersTurn);
    }
    let allowed = if data.trick.is_completed() {
        !(data.game.hand(Position::User).len() == 0 && data.game.hand(Position::Left).len() == 0
            && data.game.hand(Position::Dummy).len() == 0 && data.game.hand(Position::Right).len()
            == 0) && id.index < data.game.hand(id.position).len()
    } else {
        id.index < data.game.hand(id.position).len() && can_play_card(
            data,
            id.position,
            data.game.hand(id.position)[id.index],
        )
    };
    if !allowed {
        return Err(GameError::IllegalPlay);
    }
    let ghost start = *data;
    if data.trick.is_completed() {
        close_trick(data, id.position);
    }
    let ghost ready = *data;
    proof {
        if !start.trick.complete() {
            assert(player_to_act(start) == Some(id.position));
            assert(first_open(start.trick) is Some);
        }
    }
    play_card(data, id);
    let ghost played = *data;
    agent_follow(data, agent, id.position.next());
    assert(trick_ready(start, ready, id.position) && card_moved(ready, played, id.position, id.index)
        && agent_followed(*agent, played, *data, id.position.spec_next()));
    Ok(())
}

/// The outcome of [resolve_continue_action]: an unfinished trick fails with
/// nothing changed; a full one is closed, its winner leads a fresh trick,
/// and an automated winner's chosen lead card is played.
pub open spec fn continue_resolved<A: Agent>(
    agent: A,
    before: PlayPhaseData,
    after: PlayPhaseData,
    r: Result<(), GameError>,
) -> bool {
    if !before.trick.complete() {
        r == Err::<(), GameError>(GameError::TrickNotComplete) && after == before
    } else {
        let winner = winner_of(before).unwrap().0;
        &&& r is Ok
        &&& before.wf() ==> after.wf()
        &&& exists|ready: PlayPhaseData|
            trick_closed(before, ready, winner) && if winner.spec_is_agent() {
                agent_followed(agent, ready, after, winner)
            } else {
                after == ready
            }
    }
}

/// Closes the full current trick and opens a new one led by its winner; if
/// the winner is an automated position, the agent plays its lead. Fails,
/// changing nothing, while the trick is unfinished.
pub fn resolve_continue_action<A: Agent>(data: &mut PlayPhaseData, agent: &A) -> (r: Result<
    (),
    GameError,
>)
    ensures
        continue_resolved(*agent, *old(data), *final(data), r),
{
    if !data.trick.is_completed() {
        return Err(GameError::TrickNotComplete);
    }
    proof {
        lemma_complete_has_winner(*data);
    }
    let winner = match trick_winner(data) {
        Some((p, _)) => p,
        None => data.trick.lead,
    };
    close_trick(data, winner);
    let ghost ready = *data;
    if winner.is_agent() {
        agent_follow(data, agent, winner);
    }
    assert(trick_closed(*old(data), ready, winner));
    Ok(())
}

/// A move made through [handle_action].
#[derive(PartialEq, Eq, Structural, Debug, Copy, Clone)]
pub enum PlayPhaseAction {
    /// Play a card from the hand of a position
    PlayCard(PlayedCard),
}

/// Applies an action: plays the named card from the named hand if that play
/// is legal now, and fails, changing nothing, otherwise.
pub fn handle_action(data: &mut PlayPhaseData, action: PlayPhaseAction) -> (r: Result<(), GameError>)
    ensures
        match action {
            PlayPhaseAction::PlayCard(play) => {
                let hand = old(data).game.hand_of(play.played_by);
                if hand.contains(play.card) && legal_card(*old(data), play.played_by, play.card) {
                    &&& r is Ok
                    &&& old(data).wf() ==> final(data).wf()
                    &&& exists|ready: PlayPhaseData, i: usize|
                        i < hand.len() && hand[i as int] == play.card && trick_ready(
                            *old(data),
                            ready,
                            play.played_by,
                        ) && card_moved(ready, *final(data), play.played_by, i)
                } else {
                    r == Err::<(), GameError>(GameError::IllegalPlay) && *final(data) == *old(data)
                }
            },
        },
{
    match action {
        PlayPhaseAction::PlayCard(play) => {
            if !can_play_card(data, play.played_by, play.card) {
                return Err(GameError::IllegalPlay);
            }
            let hand = data.game.hand(play.played_by);
            let mut i: usize = 0;
            while i < hand.len()
                invariant
                    0 <= i <= hand@.len(),
                    hand@ == data.game.hand_of(play.played_by),
                    hand@.contains(play.card),
                    forall|j: int| 0 <= j < i ==> hand@[j] != play.card,
                ensures
                    i < hand@.len() && hand@[i as int] == play.card,
                decreases hand@.len() - i,
            {
                if hand[i] == play.card {
                    break ;
                }
                i = i + 1;
            }
            let ghost start = *data;
            proof {
                assert(player_to_act(*data) == Some(play.played_by));
            }
            if data.trick.is_completed() {
                close_trick(data, play.played_by);
            }
            let ghost ready = *data;
            play_card(data, CardId::new(play.played_by, i));
            assert(trick_ready(start, ready, play.played_by));
            assert(start.game.hand_of(play.played_by)[i as int] == play.card);
            assert(card_moved(ready, *data, play.played_by, i));
            Ok(())
        },
    }
}

} // verus!
