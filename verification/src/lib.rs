//! A turn-based engine for an UNO-style card game.
//!
//! The engine owns the piles, the hands and the turn order; it decides which
//! cards may be placed and what a placed card does. Prompting and printing are
//! left to the program that drives it.
//!
//! * `card`: the cards and the matching rule.
//! * `composition`: what a full set holds.
//! * `deck`: shuffling, dealing, the first discard, drawing with recycling.
//! * `turn`: seat, direction and the hot flag.
//! * `player`: what a player may decide, and how an automated one decides.
//! * `state`: a game as plain values, its moves and what holds of them.
//! * `game`: the game that callers hold, and its operations.
//! * `error`: what can go wrong.
//! * `chance`: the calls into the `rand` crate. Their contracts are taken on
//!   trust; everything else is proved against them.
//!
//! Randomness comes only from the generator that the caller passes in, so a
//! seeded generator replays a game.

pub mod card;
pub mod chance;
pub mod composition;
pub mod deck;
pub mod error;
pub mod game;
pub mod player;
pub mod state;
pub mod turn;
