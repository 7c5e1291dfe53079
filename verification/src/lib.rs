//! A standard 52-card deck: construct the fresh ordered deck, shuffle it
//! in place with a uniform random permutation, and deal cards off its end.

pub mod card;
pub mod deck;
mod shuffle;
