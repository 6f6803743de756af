use blackjack::card::{Card, Rank, Suit};
use blackjack::deck::Deck;
use blackjack::hand::HandError;
use rand::SeedableRng;

fn num(n: u8, suit: Suit) -> Card {
    Card { rank: Rank::Number(n), suit }
}

/// The standard 52 cards in the fixed enumeration order.
fn full_deck_cards() -> Vec<Card> {
    let mut cards = Vec::new();
    let suits = [Suit::Hearts, Suit::Diamonds, Suit::Spades, Suit::Clubs];
    for n in 2..=10u8 {
        for suit in suits {
            cards.push(num(n, suit));
        }
    }
    for rank in [Rank::Jack, Rank::Queen, Rank::King, Rank::Ace] {
        for suit in suits {
            cards.push(Card { rank, suit });
        }
    }
    cards
}

#[test]
fn fresh_deck_has_52_distinct_cards() {
    let mut rng = rand::rngs::StdRng::seed_from_u64(7);
    let mut deck = Deck::new(&mut rng);
    assert_eq!(deck.len(), 52);
    let cards = deck.draw_many(52).unwrap();
    assert_eq!(cards.len(), 52);
    for i in 0..cards.len() {
        for j in 0..i {
            assert_ne!(cards[i], cards[j]);
        }
    }
    for expected in full_deck_cards() {
        let count = cards.iter().filter(|c| **c == expected).count();
        assert_eq!(count, 1);
    }
}

#[test]
fn shuffle_keeps_the_multiset() {
    // Whatever order the shuffle picked, the multiset of cards is the
    // pre-shuffle standard enumeration: each card exactly once.
    let mut rng = rand::rngs::StdRng::seed_from_u64(20260101);
    let mut deck = Deck::new(&mut rng);
    let cards = deck.draw_many(52).unwrap();
    for expected in full_deck_cards() {
        let count = cards.iter().filter(|c| **c == expected).count();
        assert_eq!(count, 1);
    }
}

#[test]
fn successive_draws_do_not_overlap() {
    let mut rng = rand::rngs::StdRng::seed_from_u64(99);
    let mut deck = Deck::new(&mut rng);
    let first = deck.draw_many(2).unwrap();
    let second = deck.draw_many(2).unwrap();
    assert_eq!(first.len(), 2);
    assert_eq!(second.len(), 2);
    for a in &first {
        for b in &second {
            assert_ne!(a, b);
        }
    }
    assert_eq!(deck.len(), 48);
}

#[test]
fn draw_many_refuses_a_short_deck_whole() {
    let cards = vec![
        num(2, Suit::Hearts),
        num(3, Suit::Hearts),
        num(4, Suit::Hearts),
        num(5, Suit::Hearts),
    ];
    let mut deck = Deck::from_cards(cards.clone());
    assert_eq!(deck.draw_many(5), Err(HandError::DeckExhausted));
    assert_eq!(deck.len(), 4);
    assert_eq!(deck.draw_many(4), Ok(cards));
    assert_eq!(deck.len(), 0);
}

#[test]
fn draw_one_takes_the_last_card() {
    let mut deck = Deck::from_cards(vec![num(2, Suit::Hearts), num(9, Suit::Clubs)]);
    assert_eq!(deck.draw_1(), Some(num(9, Suit::Clubs)));
    assert_eq!(deck.draw_1(), Some(num(2, Suit::Hearts)));
    assert_eq!(deck.draw_1(), None);
}

#[test]
fn draw_two_takes_the_first_two_in_order() {
    let mut deck = Deck::from_cards(vec![
        num(2, Suit::Hearts),
        num(3, Suit::Spades),
        num(4, Suit::Clubs),
    ]);
    assert_eq!(
        deck.draw_2(),
        Ok(vec![num(2, Suit::Hearts), num(3, Suit::Spades)])
    );
    assert_eq!(deck.len(), 1);
}
