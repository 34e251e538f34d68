//! Core of a terminal typing test: the typed-text state machine, its
//! statistics, the word generator and the screen layout arithmetic.
pub mod config;
pub mod game;
pub mod laws;
pub mod layout;
pub mod rng;
pub mod text;
pub mod words;
