//! Core rules of the card game Set: a card is a 4-tuple of 3-valued
//! features, a triple of cards is a "set" when every feature is either
//! shared by all three cards or pairwise distinct, and a board is a draw
//! of distinct cards from the 81-card deck with a required number of sets.

pub mod card;
pub mod config;
pub mod features;
pub mod game;
mod rng;
pub mod triple;

pub use game::CardGame;

pub use config::Config;
pub use features::AllSameOrAllDifferent;
pub use triple::SetStatus;
pub use triple::Triple;

pub use card::Card;
pub use card::Color;
pub use card::Number;
pub use card::Shading;
pub use card::Shape;
