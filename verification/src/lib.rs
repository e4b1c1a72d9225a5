//! A parallel brute-force search for a lottery-style guess: workers draw
//! random candidate combinations until one matches the guessed target.
//!
//! The library holds the verified core: guess validation and input parsing,
//! the draw generator, match evaluation, the one-way termination signal, the
//! typed progress channel, and the coordinator's accounting.  Thread spawning
//! and text output live outside, in the surrounding application.

pub mod channel;
pub mod clock;
pub mod game;
pub mod parse;
pub mod rules;
pub mod runner;
pub mod signal;
