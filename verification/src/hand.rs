//! A party's hand and its blackjack scoring: every ace is first counted
//! high, then a single ten-point downgrade is applied when the total is
//! over 21 and an ace is present.

use vstd::prelude::*;
use crate::card::{Card, Rank, card_points, card_wf};
use crate::deck::Deck;

verus! {

/// Why a draw could not be served: the deck had no card left.
#[derive(Clone, Copy, Debug, PartialEq, Eq, Structural)]
pub enum HandError {
    DeckExhausted,
}

/// The classification of a hand's total: exactly 21 wins at once, over 21
/// busts, anything lower leaves the hand live. Recomputed on demand, never
/// stored.
#[derive(Clone, Copy, Debug, PartialEq, Eq, Structural)]
pub enum HandState {
    Winner,
    Bust(u32),
    Under(u32),
}

/// The sum of the hand's card points with every ace counted high.
pub open spec fn raw_total(s: Seq<Card>) -> int
    decreases s.len(),
{
    if s.len() == 0 {
        0
    } else {
        raw_total(s.drop_last()) + card_points(s.last())
    }
}

/// Whether the hand holds at least one ace.
pub open spec fn has_ace(s: Seq<Card>) -> bool {
    exists|i: int| 0 <= i < s.len() && s[i].rank == Rank::Ace
}

/// The blackjack total: all aces high, then ten points taken back once if
/// that sum is over 21 and an ace is present. The downgrade is applied
/// exactly once, however many aces the hand holds.
pub open spec fn hand_total(s: Seq<Card>) -> int {
    if has_ace(s) && raw_total(s) > 21 {
        raw_total(s) - 10
    } else {
        raw_total(s)
    }
}

/// The state a hand is in, as a function of its total.
pub open spec fn hand_state_of(s: Seq<Card>) -> HandState {
    let t = hand_total(s);
    if t == 21 {
        HandState::Winner
    } else if t > 21 {
        HandState::Bust(t as u32)
    } else {
        HandState::Under(t as u32)
    }
}

/// Each card contributes at most 255 points (a pip card carries a byte),
/// so a hand's raw total is bounded by its size.
pub proof fn lemma_raw_total_bounds(s: Seq<Card>)
    ensures
        0 <= raw_total(s) <= 255 * s.len(),
    decreases s.len(),
{
    if s.len() > 0 {
        lemma_raw_total_bounds(s.drop_last());
    }
}

/// The cards held by one party. A hand grows only as cards are dealt or
/// hit into it and never shrinks; all its cards come from one 52-card
/// deck, so it never holds more than 52.
#[derive(Debug)]
pub struct Hand {
    cards: Vec<Card>,
}

impl View for Hand {
    type V = Seq<Card>;

    closed spec fn view(&self) -> Seq<Card> {
        self.cards@
    }
}

impl Hand {
    /// An empty hand, ready to be dealt.
    pub fn new() -> (h: Hand)
        ensures
            h@ == Seq::<Card>::empty(),
    {
        Hand { cards: Vec::new() }
    }

    /// A hand holding exactly the given cards, kept in order. The ranks
    /// are the caller's to keep well formed.
    pub fn from_cards(cards: Vec<Card>) -> (h: Hand)
        requires
            forall|i: int| 0 <= i < cards@.len() ==> card_wf(#[trigger] cards@[i]),
        ensures
            h@ == cards@,
    {
        Hand { cards }
    }

    /// The cards the hand holds, oldest first.
    pub fn cards(&self) -> (r: &Vec<Card>)
        ensures
            r@ == self@,
    {
        &self.cards
    }

    /// Draws the opening two cards from the front of the deck into an
    /// empty hand. Dealing into a dealt hand, or from a deck that cannot
    /// serve two cards, is a caller error and is ruled out up front.
    pub fn first_deal(&mut self, deck: &mut Deck)
        requires
            old(self)@.len() == 0,
            old(deck)@.len() >= 2,
        ensures
            final(self)@ == old(deck)@.take(2),
            final(deck)@ == old(deck)@.skip(2),
    {
        let cards = deck.draw_2().unwrap();
        let c0 = cards[0];
        let c1 = cards[1];
        self.cards.push(c0);
        self.cards.push(c1);
        assert(self.cards@ =~= old(deck)@.take(2));
    }

    /// Draws one card off the back of the deck and appends it. An empty
    /// deck is reported as exhaustion, with deck and hand untouched.
    pub fn hit(&mut self, deck: &mut Deck) -> (r: Result<(), HandError>)
        ensures
            old(deck)@.len() == 0 ==> r == Result::<(), HandError>::Err(HandError::DeckExhausted)
                && final(self)@ == old(self)@ && final(deck)@ == old(deck)@,
            old(deck)@.len() > 0 ==> r == Result::<(), HandError>::Ok(())
                && final(self)@ == old(self)@.push(old(deck)@.last())
                && final(deck)@ == old(deck)@.drop_last(),
    {
        match deck.draw_1() {
            Some(card) => {
                self.cards.push(card);
                Ok(())
            },
            None => Err(HandError::DeckExhausted),
        }
    }

    /// The hand's blackjack total: aces high, one ten-point downgrade when
    /// the total is over 21 and an ace is present.
    pub fn total(&self) -> (t: u32)
        requires
            self@.len() <= 52,
        ensures
            t == hand_total(self@),
    {
        let n = self.cards.len();
        let mut sum: u32 = 0;
        let mut ace = false;
        let mut i: usize = 0;
        while i < n
            invariant
                i <= n == self.cards@.len() <= 52,
                sum == raw_total(self.cards@.take(i as int)),
                ace == has_ace(self.cards@.take(i as int)),
                sum <= 255 * i,
            decreases n - i,
        {
            let c = self.cards[i];
            let ghost prefix = self.cards@.take(i as int);
            assert(self.cards@.take(i + 1).drop_last() =~= prefix);
            assert(self.cards@.take(i + 1).last() == self.cards@[i as int]);
            match c.rank {
                Rank::Number(x) => {
                    sum = sum + x as u32;
                },
                Rank::Ace => {
                    ace = true;
                    sum = sum + 11;
                },
                _ => {
                    sum = sum + 10;
                },
            }
            proof {
                let s1 = self.cards@.take(i + 1);
                assert(forall|k: int| 0 <= k < i ==> prefix[k] == #[trigger] s1[k]);
                if c.rank == Rank::Ace {
                    assert(s1[i as int].rank == Rank::Ace);
                } else if has_ace(prefix) {
                    let k = choose|k: int| 0 <= k < prefix.len() && prefix[k].rank == Rank::Ace;
                    assert(s1[k].rank == Rank::Ace);
                } else if has_ace(s1) {
                    let k = choose|k: int| 0 <= k < s1.len() && s1[k].rank == Rank::Ace;
                    assert(k == i || prefix[k] == s1[k]);
                    assert(false);
                }
            }
            i = i + 1;
        }
        assert(self.cards@.take(n as int) =~= self.cards@);
        if ace && sum > 21 {
            sum - 10
        } else {
            sum
        }
    }

    /// Scores the hand and classifies the result: 21 is a winner, more
    /// busts with the total, less stays under with the total.
    pub fn evaluate(&self) -> (state: HandState)
        requires
            self@.len() <= 52,
        ensures
            state == hand_state_of(self@),
    {
        let t = self.total();
        if t == 21 {
            HandState::Winner
        } else if t > 21 {
            HandState::Bust(t)
        } else {
            HandState::Under(t)
        }
    }
}

} // verus!
