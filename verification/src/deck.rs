//! The draw pile: a shuffled 52-card deck with draw-from-front and
//! draw-from-back operations.

use vstd::prelude::*;
use crate::card::{
    Card, Rank, Suit, card_wf, standard_card, standard_deck, lemma_standard_deck_no_duplicates,
};
use crate::hand::HandError;

verus! {

/// The random generator the engine is handed. Declared so that verified
/// code can carry it; nothing is assumed of the values it yields.
#[verifier::external_type_specification]
#[verifier::external_body]
pub struct ExStdRng(rand::rngs::StdRng);

/// Relies on rand's `SliceRandom::shuffle` (a Fisher-Yates swap loop): it
/// reorders the slice in place and neither adds, drops nor alters an
/// element, whatever the generator yields.
#[verifier::external_body]
fn shuffle_cards(cards: &mut Vec<Card>, rng: &mut rand::rngs::StdRng)
    ensures
        final(cards)@.to_multiset() == old(cards)@.to_multiset(),
        final(cards)@.len() == old(cards)@.len(),
{
    rand::seq::SliceRandom::shuffle(cards.as_mut_slice(), rng);
}

/// An ordered draw pile. A deck never holds more than the 52 standard
/// cards and never holds a card twice; it only shrinks as cards are drawn.
pub struct Deck {
    cards: Vec<Card>,
}

impl View for Deck {
    type V = Seq<Card>;

    closed spec fn view(&self) -> Seq<Card> {
        self.cards@
    }
}

/// The card at one index of the fixed enumeration order.
fn card_at_index(i: usize) -> (c: Card)
    requires
        i < 52,
    ensures
        c == standard_card(i as int),
{
    let b = i / 4;
    let rank = if b <= 8 {
        Rank::Number((b + 2) as u8)
    } else if b == 9 {
        Rank::Jack
    } else if b == 10 {
        Rank::Queen
    } else if b == 11 {
        Rank::King
    } else {
        Rank::Ace
    };
    let off = i % 4;
    let suit = if off == 0 {
        Suit::Hearts
    } else if off == 1 {
        Suit::Diamonds
    } else if off == 2 {
        Suit::Spades
    } else {
        Suit::Clubs
    };
    Card { rank, suit }
}

impl Deck {
    /// Builds the full 52-card set in the fixed enumeration order, then
    /// permutes it with the injected random generator. The result holds
    /// every standard card exactly once.
    pub fn new(rng: &mut rand::rngs::StdRng) -> (deck: Deck)
        ensures
            deck@.len() == 52,
            deck@.to_multiset() == standard_deck().to_multiset(),
            deck@.no_duplicates(),
    {
        let mut cards: Vec<Card> = Vec::new();
        let mut i: usize = 0;
        while i < 52
            invariant
                i <= 52,
                cards@.len() == i,
                forall|k: int| 0 <= k < i ==> cards@[k] == standard_card(k),
            decreases 52 - i,
        {
            let c = card_at_index(i);
            cards.push(c);
            i = i + 1;
        }
        assert(cards@ =~= standard_deck());
        proof {
            lemma_standard_deck_no_duplicates();
        }
        let ghost built = cards@;
        shuffle_cards(&mut cards, rng);
        proof {
            built.lemma_multiset_has_no_duplicates();
            cards@.lemma_multiset_has_no_duplicates_conv();
        }
        Deck { cards }
    }

    /// Builds a draw pile holding exactly the given cards, kept in order.
    /// The deck invariant is the caller's to meet: well-formed ranks, no
    /// duplicates, at most the 52 standard cards.
    pub fn from_cards(cards: Vec<Card>) -> (deck: Deck)
        requires
            forall|i: int| 0 <= i < cards@.len() ==> card_wf(#[trigger] cards@[i]),
            cards@.no_duplicates(),
            cards@.len() <= 52,
        ensures
            deck@ == cards@,
    {
        Deck { cards }
    }

    /// How many cards are left to draw.
    pub fn len(&self) -> (n: usize)
        ensures
            n == self@.len(),
    {
        self.cards.len()
    }

    /// Removes and returns the last card, or reports the empty deck by
    /// returning nothing rather than failing.
    pub fn draw_1(&mut self) -> (r: Option<Card>)
        ensures
            old(self)@.len() == 0 ==> r is None && final(self)@ == old(self)@,
            old(self)@.len() > 0 ==> r == Some(old(self)@.last())
                && final(self)@ == old(self)@.drop_last(),
    {
        self.cards.pop()
    }

    /// Removes and returns the first `n` cards. When fewer than `n` remain
    /// the draw is refused whole: the deck is left untouched and the
    /// exhaustion is reported.
    pub fn draw_many(&mut self, n: usize) -> (r: Result<Vec<Card>, HandError>)
        ensures
            n <= old(self)@.len() ==> r is Ok && r->Ok_0@ == old(self)@.take(n as int)
                && final(self)@ == old(self)@.skip(n as int),
            n > old(self)@.len() ==> r == Result::<Vec<Card>, HandError>::Err(
                HandError::DeckExhausted,
            ) && final(self)@ == old(self)@,
    {
        if n > self.cards.len() {
            return Err(HandError::DeckExhausted);
        }
        let mut drawn: Vec<Card> = Vec::new();
        let mut i: usize = 0;
        while i < n
            invariant
                i <= n <= self.cards@.len(),
                drawn@.len() == i,
                forall|k: int| 0 <= k < i ==> drawn@[k] == self.cards@[k],
            decreases n - i,
        {
            let c = self.cards[i];
            drawn.push(c);
            i = i + 1;
        }
        let mut rest: Vec<Card> = Vec::new();
        let mut j: usize = n;
        while j < self.cards.len()
            invariant
                n <= j <= self.cards@.len(),
                rest@.len() == j - n,
                forall|k: int| 0 <= k < j - n ==> rest@[k] == self.cards@[n + k],
            decreases self.cards@.len() - j,
        {
            let c = self.cards[j];
            rest.push(c);
            j = j + 1;
        }
        assert(drawn@ =~= old(self)@.take(n as int));
        assert(rest@ =~= old(self)@.skip(n as int));
        self.cards = rest;
        Ok(drawn)
    }

    /// Removes and returns the first two cards, refusing the draw whole
    /// when fewer than two remain.
    pub fn draw_2(&mut self) -> (r: Result<Vec<Card>, HandError>)
        ensures
            2 <= old(self)@.len() ==> r is Ok && r->Ok_0@ == old(self)@.take(2) && final(self)@
                == old(self)@.skip(2),
            2 > old(self)@.len() ==> r == Result::<Vec<Card>, HandError>::Err(
                HandError::DeckExhausted,
            ) && final(self)@ == old(self)@,
    {
        self.draw_many(2)
    }
}

/// Two successive two-card draws from one duplicate-free pile yield four
/// pairwise distinct cards: the pairs cannot overlap. Together the two
/// draws shorten the pile by exactly four cards.
pub proof fn lemma_successive_draws_disjoint(s: Seq<Card>)
    requires
        s.no_duplicates(),
        s.len() >= 4,
    ensures
        forall|a: int, b: int|
            #![trigger s.take(2)[a], s.skip(2).take(2)[b]]
            0 <= a < 2 && 0 <= b < 2 ==> s.take(2)[a] != s.skip(2).take(2)[b],
        s.skip(2).skip(2).len() == s.len() - 4,
{
    assert forall|a: int, b: int|
        #![trigger s.take(2)[a], s.skip(2).take(2)[b]]
        0 <= a < 2 && 0 <= b < 2 implies s.take(2)[a] != s.skip(2).take(2)[b] by {
        assert(s.take(2)[a] == s[a]);
        assert(s.skip(2).take(2)[b] == s[b + 2]);
    }
}

} // verus!
