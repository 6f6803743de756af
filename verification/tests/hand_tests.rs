use blackjack::card::{Card, Rank, Suit};
use blackjack::deck::Deck;
use blackjack::hand::{Hand, HandError, HandState};

fn num(n: u8, suit: Suit) -> Card {
    Card { rank: Rank::Number(n), suit }
}

fn face(rank: Rank, suit: Suit) -> Card {
    Card { rank, suit }
}

#[test]
fn evaluate_ten_and_ace_is_a_winner() {
    let hand = Hand::from_cards(vec![num(10, Suit::Hearts), face(Rank::Ace, Suit::Spades)]);
    assert_eq!(hand.evaluate(), HandState::Winner);
}

#[test]
fn evaluate_ten_nine_five_busts_at_24() {
    let hand = Hand::from_cards(vec![
        num(10, Suit::Hearts),
        num(9, Suit::Hearts),
        num(5, Suit::Hearts),
    ]);
    assert_eq!(hand.evaluate(), HandState::Bust(24));
}

#[test]
fn evaluate_seven_eight_is_under_15() {
    let hand = Hand::from_cards(vec![num(7, Suit::Hearts), num(8, Suit::Hearts)]);
    assert_eq!(hand.evaluate(), HandState::Under(15));
}

#[test]
fn evaluate_two_aces_and_nine_downgrades_once() {
    // The ten-point ace downgrade is applied exactly once, however many
    // aces the hand holds: 11 + 11 + 9 = 31, minus 10 is exactly 21.
    let hand = Hand::from_cards(vec![
        face(Rank::Ace, Suit::Spades),
        face(Rank::Ace, Suit::Hearts),
        num(9, Suit::Clubs),
    ]);
    assert_eq!(hand.evaluate(), HandState::Winner);
}

#[test]
fn evaluate_counts_every_face_card_as_ten() {
    let hand = Hand::from_cards(vec![
        face(Rank::Jack, Suit::Hearts),
        face(Rank::Queen, Suit::Spades),
    ]);
    assert_eq!(hand.evaluate(), HandState::Under(20));
    let hand = Hand::from_cards(vec![face(Rank::King, Suit::Clubs), num(2, Suit::Hearts)]);
    assert_eq!(hand.evaluate(), HandState::Under(12));
}

#[test]
fn hit_on_an_empty_deck_reports_exhaustion() {
    let mut hand = Hand::new();
    let mut deck = Deck::from_cards(Vec::new());
    assert_eq!(hand.hit(&mut deck), Err(HandError::DeckExhausted));
    assert_eq!(hand.cards().len(), 0);
}

#[test]
fn hit_appends_the_deck_last_card() {
    let mut hand = Hand::from_cards(vec![num(2, Suit::Hearts)]);
    let mut deck = Deck::from_cards(vec![num(5, Suit::Clubs), num(6, Suit::Clubs)]);
    assert_eq!(hand.hit(&mut deck), Ok(()));
    assert_eq!(
        hand.cards().as_slice(),
        &[num(2, Suit::Hearts), num(6, Suit::Clubs)]
    );
    assert_eq!(deck.len(), 1);
}

#[test]
fn first_deal_takes_the_first_two_cards() {
    let mut hand = Hand::new();
    let mut deck = Deck::from_cards(vec![
        num(2, Suit::Hearts),
        num(3, Suit::Spades),
        num(4, Suit::Clubs),
    ]);
    hand.first_deal(&mut deck);
    assert_eq!(
        hand.cards().as_slice(),
        &[num(2, Suit::Hearts), num(3, Suit::Spades)]
    );
    assert_eq!(deck.len(), 1);
}
