//! Whose turn it is, which way play runs round the table, and whether the card
//! on top still weighs on the player about to act.
//!
//! The direction is a signed step, `1` or `-1`, so that a reversal is one
//! change of sign. After a play the turn moves on by one seat, or by two where
//! the card skips the next player. A reversal between exactly two players
//! counts as a skip: the direction changes and the same player acts again.
//!
//! Every play leaves the state hot; a turn that passes without a play leaves
//! it cold. A skip is settled by the play itself. A forced draw is not: while
//! the state is hot, a draw card on top makes the acting player draw and lose
//! the turn, after which the state is cold and the card asks nothing more.
//! A game starts cold, so the first card of the discard pile asks nothing.

use crate::card::{Action, Card, WildAction};
use vstd::arithmetic::div_mod::{
    lemma_add_mod_noop,
    lemma_add_mod_noop_right,
    lemma_mod_add_multiples_vanish,
    lemma_mod_twice,
    lemma_small_mod,
    lemma_sub_mod_noop_right,
};
use vstd::prelude::*;

verus! {

/// The smallest table the engine plays at.
pub const MIN_PLAYERS: usize = 2;

/// The largest table the engine plays at.
pub const MAX_PLAYERS: usize = 10;

/// What a turn led to.
#[derive(Clone, Copy, Debug, PartialEq, Eq, Structural)]
pub enum Effect {
    /// A card was placed; what it asks of the next player is still open.
    Hot,
    /// The turn passed without a card being placed.
    Normal,
    /// The player with this index placed their last card and has won.
    Win(usize),
}

/// The seat of the acting player, the direction of play and the hot flag.
#[derive(Clone, Copy, Debug, PartialEq, Eq, Structural)]
pub struct TurnState {
    pub current: usize,
    pub direction: i8,
    pub hot: bool,
}

/// The seat reached from `current` after `steps` seats in `direction` at a
/// table of `players`.
pub open spec fn seat_after(current: int, direction: int, steps: int, players: int) -> int {
    (current + steps * direction) % players
}

/// Whether placing `card` makes the next player lose their turn at once.
pub open spec fn skips_next(card: Card, players: int) -> bool {
    card matches Card::Action { action, .. } && (action == Action::Skip || (action
        == Action::Reverse && players == 2))
}

/// How many seats the turn moves on after `card` was placed.
pub open spec fn steps_after(card: Card, players: int) -> int {
    if skips_next(card, players) {
        2
    } else {
        1
    }
}

/// How many cards `top` forces a player to draw while it is hot.
pub open spec fn forced_draw(top: Card) -> nat {
    match top {
        Card::Action { action: Action::Draw2, .. } => 2,
        Card::Wild(WildAction::Draw4) => 4,
        _ => 0,
    }
}

impl TurnState {
    /// The state is one of a table of `players`.
    pub open spec fn wf(&self, players: int) -> bool {
        &&& 0 <= self.current < players <= usize::MAX
        &&& self.direction == 1 || self.direction == -1
    }

    /// The direction after `card` was placed.
    pub open spec fn direction_after(&self, card: Card) -> i8 {
        if card matches Card::Action { action: Action::Reverse, .. } {
            (-self.direction) as i8
        } else {
            self.direction
        }
    }

    /// The state after the acting player placed `card` and still holds cards.
    pub open spec fn after_play(&self, card: Card, players: int) -> TurnState {
        TurnState {
            current: seat_after(
                self.current as int,
                self.direction_after(card) as int,
                steps_after(card, players),
                players,
            ) as usize,
            direction: self.direction_after(card),
            hot: true,
        }
    }

    /// The state after the acting player placed `card` as their last one: the
    /// turn stays with the winner.
    pub open spec fn after_last_play(&self, card: Card) -> TurnState {
        TurnState { current: self.current, direction: self.direction_after(card), hot: true }
    }

    /// The state after the acting player's turn passed without a play.
    pub open spec fn after_pass(&self, players: int) -> TurnState {
        TurnState {
            current: seat_after(self.current as int, self.direction as int, 1, players) as usize,
            direction: self.direction,
            hot: false,
        }
    }

    /// How many cards the acting player owes before anything else, given the
    /// card on top.
    pub open spec fn pending_draw_spec(&self, top: Card) -> nat {
        if self.hot {
            forced_draw(top)
        } else {
            0
        }
    }

    /// The state at the start of a game: the first seat acts, play runs
    /// forward, and the card on top asks nothing of anyone.
    pub fn new() -> (turn: TurnState)
        ensures
            turn == (TurnState { current: 0, direction: 1, hot: false }),
    {
        TurnState { current: 0, direction: 1, hot: false }
    }

    /// Moves the turn on by `steps` seats in the current direction.
    pub fn advance(&mut self, steps: usize, players: usize)
        requires
            old(self).wf(players as int),
            2 * players <= usize::MAX,
        ensures
            final(self).current == seat_after(
                old(self).current as int,
                old(self).direction as int,
                steps as int,
                players as int,
            ),
            final(self).direction == old(self).direction,
            final(self).hot == old(self).hot,
            final(self).wf(players as int),
    {
        let within = steps % players;
        let ghost c = self.current as int;
        let ghost m = players as int;
        if self.direction == 1 {
            proof {
                lemma_seat_after_unfolds(c, 1, steps as int, m);
                lemma_add_mod_noop_right(c, steps as int, m);
            }
            self.current = (self.current + within) % players;
        } else {
            proof {
                lemma_seat_after_unfolds(c, -1, steps as int, m);
                lemma_sub_mod_noop_right(c, steps as int, m);
                lemma_mod_add_multiples_vanish(c - within, m);
            }
            self.current = (self.current + players - within) % players;
        }
    }

    /// Turns the direction of play round.
    pub fn reverse(&mut self)
        requires
            old(self).direction == 1 || old(self).direction == -1,
        ensures
            final(self).direction == -old(self).direction,
            final(self).current == old(self).current,
            final(self).hot == old(self).hot,
    {
        self.direction = -self.direction;
    }

    /// Records that the acting player placed `card` and still holds cards.
    pub fn play_made(&mut self, card: &Card, players: usize)
        requires
            old(self).wf(players as int),
            2 * players <= usize::MAX,
        ensures
            *final(self) == old(self).after_play(*card, players as int),
            final(self).wf(players as int),
    {
        let mut steps: usize = 1;
        match card {
            Card::Action { action, .. } => {
                match action {
                    Action::Reverse => {
                        self.reverse();
                        if players == 2 {
                            steps = 2;
                        }
                    },
                    Action::Skip => {
                        steps = 2;
                    },
                    Action::Draw2 => {},
                }
            },
            _ => {},
        }
        self.advance(steps, players);
        self.hot = true;
    }

    /// Records that the acting player placed `card` as their last one.
    pub fn last_play_made(&mut self, card: &Card)
        requires
            old(self).direction == 1 || old(self).direction == -1,
        ensures
            *final(self) == old(self).after_last_play(*card),
    {
        match card {
            Card::Action { action, .. } => {
                match action {
                    Action::Reverse => {
                        self.reverse();
                    },
                    _ => {},
                }
            },
            _ => {},
        }
        self.hot = true;
    }

    /// Records that the acting player's turn passed without a play.
    pub fn turn_passed(&mut self, players: usize)
        requires
            old(self).wf(players as int),
            2 * players <= usize::MAX,
        ensures
            *final(self) == old(self).after_pass(players as int),
            final(self).wf(players as int),
    {
        self.advance(1, players);
        self.hot = false;
    }

    /// How many cards the acting player owes before anything else, given the
    /// card on top.
    pub fn pending_draw(&self, top: &Card) -> (owed: u32)
        ensures
            owed == self.pending_draw_spec(*top),
    {
        if !self.hot {
            return 0;
        }
        match top {
            Card::Action { action, .. } => {
                match action {
                    Action::Draw2 => 2,
                    _ => 0,
                }
            },
            Card::Wild(wild_action) => {
                match wild_action {
                    WildAction::Draw4 => 4,
                    WildAction::ChangeColor => 0,
                }
            },
            Card::Number { .. } => 0,
        }
    }
}

/// The seat one place on from `current`, written without a remainder.
pub open spec fn neighbour(current: int, direction: int, players: int) -> int {
    if direction == 1 {
        if current + 1 == players {
            0
        } else {
            current + 1
        }
    } else {
        if current == 0 {
            players - 1
        } else {
            current - 1
        }
    }
}

/// Stepping in direction `1` adds the steps, stepping in direction `-1` takes
/// them away.
proof fn lemma_seat_after_unfolds(current: int, direction: int, steps: int, players: int)
    requires
        direction == 1 || direction == -1,
    ensures
        seat_after(current, direction, steps, players) == if direction == 1 {
            (current + steps) % players
        } else {
            (current - steps) % players
        },
{
    assert(steps * direction == if direction == 1 {
        steps
    } else {
        -steps
    }) by (nonlinear_arith)
        requires
            direction == 1 || direction == -1,
    ;
}

/// One step leads to the neighbour.
proof fn lemma_one_seat(current: int, direction: int, players: int)
    requires
        0 <= current < players,
        direction == 1 || direction == -1,
    ensures
        seat_after(current, direction, 1, players) == neighbour(current, direction, players),
        0 <= neighbour(current, direction, players) < players,
{
    lemma_seat_after_unfolds(current, direction, 1, players);
    if direction == 1 {
        if current + 1 == players {
            lemma_mod_add_multiples_vanish(0, players);
            lemma_small_mod(0, players as nat);
        } else {
            lemma_small_mod((current + 1) as nat, players as nat);
        }
    } else {
        if current == 0 {
            lemma_mod_add_multiples_vanish(-1, players);
            lemma_small_mod((players - 1) as nat, players as nat);
        } else {
            lemma_small_mod((current - 1) as nat, players as nat);
        }
    }
}

/// Two steps lead to the neighbour's neighbour.
proof fn lemma_two_seats(current: int, direction: int, players: int)
    requires
        0 <= current < players,
        direction == 1 || direction == -1,
    ensures
        seat_after(current, direction, 2, players) == neighbour(
            neighbour(current, direction, players),
            direction,
            players,
        ),
        seat_after(current, direction, 2, players) == (current + 2 * direction) % players,
{
    lemma_seat_after_unfolds(current, direction, 2, players);
    lemma_one_seat(current, direction, players);
    let next = neighbour(current, direction, players);
    lemma_one_seat(next, direction, players);
    lemma_seat_after_unfolds(current, direction, 1, players);
    lemma_seat_after_unfolds(next, direction, 1, players);
    if direction == 1 {
        lemma_add_mod_noop(current + 1, 1, players);
        lemma_mod_twice(current + 1, players);
        if players > 1 {
            lemma_small_mod(1, players as nat);
        }
    } else {
        lemma_add_mod_noop(current - 1, -1, players);
        lemma_mod_twice(current - 1, players);
        lemma_mod_add_multiples_vanish(-1, players);
        if players > 1 {
            lemma_small_mod((players - 1) as nat, players as nat);
            lemma_add_mod_noop_right(next, -1, players);
        }
    }
}

/// Moving on by one seat is moving to the neighbour in the direction of play,
/// and `after_play` and `after_pass` keep the state within the table.
pub proof fn lemma_turn_stays_seated(turn: TurnState, players: int, card: Card)
    requires
        turn.wf(players),
    ensures
        turn.after_play(card, players).wf(players),
        turn.after_pass(players).wf(players),
        turn.after_pass(players).current == neighbour(
            turn.current as int,
            turn.direction as int,
            players,
        ),
        !skips_next(card, players) ==> turn.after_play(card, players).current == neighbour(
            turn.current as int,
            turn.direction_after(card) as int,
            players,
        ),
        skips_next(card, players) ==> turn.after_play(card, players).current == neighbour(
            neighbour(turn.current as int, turn.direction_after(card) as int, players),
            turn.direction_after(card) as int,
            players,
        ),
{
    let c = turn.current as int;
    lemma_one_seat(c, turn.direction as int, players);
    lemma_one_seat(c, turn.direction_after(card) as int, players);
    lemma_two_seats(c, turn.direction_after(card) as int, players);
    lemma_one_seat(
        neighbour(c, turn.direction_after(card) as int, players),
        turn.direction_after(card) as int,
        players,
    );
}

/// Two reversals in a row undo each other: the direction is what it was, and
/// the turn is back with the player who placed the first of them.
pub proof fn lemma_two_reversals_restore(
    turn: TurnState,
    players: int,
    first: Card,
    second: Card,
)
    requires
        turn.wf(players),
        first matches Card::Action { action: Action::Reverse, .. },
        second matches Card::Action { action: Action::Reverse, .. },
    ensures
        turn.after_play(first, players).wf(players),
        turn.after_play(first, players).direction == -turn.direction,
        turn.after_play(first, players).after_play(second, players).direction == turn.direction,
        turn.after_play(first, players).after_play(second, players).current == turn.current,
{
    let mid = turn.after_play(first, players);
    lemma_turn_stays_seated(turn, players, first);
    lemma_turn_stays_seated(mid, players, second);
}

/// A skip passes over exactly one player: after it the turn is two seats on
/// in the direction of play, and not with the player one seat on.
pub proof fn lemma_skip_passes_one_player(turn: TurnState, players: int, card: Card)
    requires
        turn.wf(players),
        players >= 2,
        card matches Card::Action { action: Action::Skip, .. },
    ensures
        turn.after_play(card, players).current == (turn.current + 2 * turn.direction) % players,
        turn.after_play(card, players).current != (turn.current + turn.direction) % players,
        turn.after_play(card, players).direction == turn.direction,
        turn.after_play(card, players).wf(players),
{
    let c = turn.current as int;
    let d = turn.direction as int;
    lemma_turn_stays_seated(turn, players, card);
    lemma_two_seats(c, d, players);
    lemma_one_seat(c, d, players);
    lemma_seat_after_unfolds(c, d, 1, players);
}

} // verus!
