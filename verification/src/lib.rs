//! A single-player blackjack round engine: cards, a deck, hands with the
//! soft-ace rule, and the rules of a round, each with its contract.

pub mod card;
pub mod deck;
pub mod display;
pub mod game;
pub mod hand;
pub mod session;
pub mod text;
