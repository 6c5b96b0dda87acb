//! The ways in which the engine refuses a request or ends a game.

use vstd::prelude::*;

verus! {

/// Why an operation did not do what was asked.
#[derive(Clone, Copy, Debug, PartialEq, Eq, Structural)]
pub enum EngineError {
    /// The chosen move is not allowed now. The player may decide again.
    IllegalPlay,
    /// A required draw found no card anywhere. The game ends without a winner.
    Starvation,
    /// No coloured card came to the front of the draw pile within the
    /// allowed number of reshuffles.
    DeckExhausted,
    /// A coloured card was held against a wild card that has no colour bound.
    InvalidWildColorBinding,
    /// The draw pile is too small to deal every player a full hand.
    InsufficientCards,
    /// The number of opponents is outside the supported range.
    InvalidPlayerCount,
}

impl EngineError {
    /// Whether the game can go on after this error. A refused play and a
    /// refused number of opponents can be asked for again; every other error
    /// ends the game or shows that the engine was misused.
    pub open spec fn recoverable(&self) -> bool {
        *self is IllegalPlay || *self is InvalidPlayerCount
    }

    /// Whether the game can go on after this error.
    #[verifier::when_used_as_spec(recoverable)]
    pub fn is_recoverable(&self) -> (ok: bool)
        ensures
            ok == self.recoverable(),
    {
        match self {
            EngineError::IllegalPlay => true,
            EngineError::InvalidPlayerCount => true,
            EngineError::Starvation => false,
            EngineError::DeckExhausted => false,
            EngineError::InvalidWildColorBinding => false,
            EngineError::InsufficientCards => false,
        }
    }
}

} // verus!
