//! Decoding and rendering of trading-card catalog records: a closed card
//! taxonomy, validated card and deck entities, a total display order, deck
//! aggregation, and the plain-text renderings of cards and decks.

pub mod error;
pub mod taxonomy;
pub mod card;
pub mod render;
pub mod aggregate;
pub mod deck;
pub mod search;
pub mod session;
