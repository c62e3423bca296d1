//! A rules engine for single-player blackjack against a dealer that follows
//! a fixed house policy: a verified deck, hand scoring with soft aces, and
//! the five-state game machine that deals, hits and stands, emitting an
//! ordered log of presentation events for any front end to render.

pub mod deck;
pub mod hand;
pub mod game;
pub mod actions;
pub mod texture;
