//! A single-player blackjack round engine: a shuffled 52-card deck, hands
//! with soft-ace scoring, and a turn controller that plays the dealer's
//! fixed policy and resolves the round.

pub mod card;
pub mod deck;
pub mod hand;
pub mod round;
