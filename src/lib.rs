//! A chat assistant's core: two input surfaces read into one command model,
//! reproducible draws seeded from time buckets, and the tokens of its buttons.
pub mod book_of_answers;
pub mod clow_cards;
pub mod commands;
pub mod custom_id;
pub mod data;
pub mod format;
pub mod interaction;
pub mod relationship_level;
pub mod response_data;
pub mod rng;
pub mod seed;
pub mod text;
