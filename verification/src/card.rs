//! Card identity: suits, ranks, and the fixed enumeration order of the
//! standard 52-card deck.

use vstd::prelude::*;

verus! {

/// One of the four suits. A pure identity tag with no behaviour.
#[derive(Clone, Copy, Debug, PartialEq, Eq, Structural)]
pub enum Suit {
    Hearts,
    Diamonds,
    Spades,
    Clubs,
}

/// A card's rank: a pip value (2 through 10) or one of the four face ranks.
#[derive(Clone, Copy, Debug, PartialEq, Eq, Structural)]
pub enum Rank {
    Number(u8),
    Jack,
    Queen,
    King,
    Ace,
}

/// An immutable card: a rank and a suit, compared by value.
#[derive(Clone, Copy, Debug, PartialEq, Eq, Structural)]
pub struct Card {
    pub rank: Rank,
    pub suit: Suit,
}

/// A numeric rank must lie in 2..=10; the face ranks are always well formed.
pub open spec fn rank_wf(r: Rank) -> bool {
    match r {
        Rank::Number(n) => 2 <= n && n <= 10,
        _ => true,
    }
}

/// A card is well formed when its rank is.
pub open spec fn card_wf(c: Card) -> bool {
    rank_wf(c.rank)
}

/// The blackjack points of a single card, with the ace counted high (11).
pub open spec fn card_points(c: Card) -> int {
    match c.rank {
        Rank::Number(n) => n as int,
        Rank::Jack => 10,
        Rank::Queen => 10,
        Rank::King => 10,
        Rank::Ace => 11,
    }
}

/// The suit in one column of the enumeration order: hearts, diamonds,
/// spades, clubs.
pub open spec fn suit_at(j: int) -> Suit {
    if j == 0 {
        Suit::Hearts
    } else if j == 1 {
        Suit::Diamonds
    } else if j == 2 {
        Suit::Spades
    } else {
        Suit::Clubs
    }
}

/// The rank in one row of the enumeration order: 2 through 10, then jack,
/// queen, king, ace.
pub open spec fn rank_at(b: int) -> Rank {
    if b <= 8 {
        Rank::Number((b + 2) as u8)
    } else if b == 9 {
        Rank::Jack
    } else if b == 10 {
        Rank::Queen
    } else if b == 11 {
        Rank::King
    } else {
        Rank::Ace
    }
}

/// The card at one index of the standard enumeration: four suits per rank,
/// ranks in the fixed row order.
pub open spec fn standard_card(i: int) -> Card {
    Card { rank: rank_at(i / 4), suit: suit_at(i % 4) }
}

/// The full standard deck, in its fixed enumeration order.
pub open spec fn standard_deck() -> Seq<Card> {
    Seq::new(52, |i: int| standard_card(i))
}

/// Distinct indices of the standard enumeration name distinct cards.
pub proof fn lemma_standard_card_injective(i: int, j: int)
    requires
        0 <= i < 52,
        0 <= j < 52,
        standard_card(i) == standard_card(j),
    ensures
        i == j,
{
    vstd::arithmetic::div_mod::lemma_fundamental_div_mod(i, 4);
    vstd::arithmetic::div_mod::lemma_fundamental_div_mod(j, 4);
    assert(rank_at(i / 4) == rank_at(j / 4));
    assert(suit_at(i % 4) == suit_at(j % 4));
    assert(i / 4 == j / 4);
    assert(i % 4 == j % 4);
}

/// The standard deck holds no card twice.
pub proof fn lemma_standard_deck_no_duplicates()
    ensures
        standard_deck().no_duplicates(),
{
    assert forall|i: int, j: int|
        0 <= i < 52 && 0 <= j < 52 && i != j implies standard_deck()[i]
        != standard_deck()[j] by {
        if standard_deck()[i] == standard_deck()[j] {
            lemma_standard_card_injective(i, j);
        }
    }
}

} // verus!
