//! Rules engine for Onitama with the Wind Spirit variant.
//!
//! The crate owns the game state, validates and applies moves, enumerates
//! the legal moves of a position and sets up new games.  Card movement
//! patterns are supplied by the caller as a [`cards::Catalogue`].

pub mod models;
pub mod cards;
pub mod rules;
pub mod board;
pub mod random;
pub mod agents;
pub mod setup;
pub mod laws;
