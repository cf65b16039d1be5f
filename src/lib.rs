//! Poker hand classification: the best hand that a table of three to five cards and a
//! two-card hand make, every hand they make, and a total order on hands.
pub mod card;
pub mod hand;
pub mod rules;
pub mod deck;
pub mod detect;
pub mod laws;
pub mod text;

pub use card::{Card, Rank, Suit};
pub use deck::Deck;
pub use hand::Hand;
pub use text::DeckFormatter;
