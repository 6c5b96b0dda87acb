//! Card identity and the rule that says which card may cover which.

use crate::error::EngineError;
use vstd::prelude::*;

verus! {

/// The four suits of coloured cards.
#[derive(Clone, Copy, Debug, Hash, PartialEq, Eq, Structural)]
pub enum Color {
    Red,
    Blue,
    Green,
    Yellow,
}

/// What a coloured action card does when it is placed.
#[derive(Clone, Copy, Debug, Hash, PartialEq, Eq, Structural)]
pub enum Action {
    Draw2,
    Reverse,
    Skip,
}

/// What a wild card does besides binding a colour.
#[derive(Clone, Copy, Debug, Hash, PartialEq, Eq, Structural)]
pub enum WildAction {
    ChangeColor,
    Draw4,
}

/// A single card. Wild cards carry no colour of their own: whoever places one
/// names the colour that stands for it while it is on top.
#[derive(Clone, Copy, Debug, Hash, PartialEq, Eq, Structural)]
pub enum Card {
    Number { number: u8, color: Color },
    Action { action: Action, color: Color },
    Wild(WildAction),
}

/// The highest rank a number card can have.
pub const MAX_RANK: u8 = 9;

impl Color {
    /// The colour that stands for a number drawn from 0 to 3. Numbers above 3
    /// count as 3.
    pub open spec fn from_index_spec(index: u8) -> Color {
        if index == 0 {
            Color::Red
        } else if index == 1 {
            Color::Blue
        } else if index == 2 {
            Color::Yellow
        } else {
            Color::Green
        }
    }

    /// The colour that stands for a number drawn from 0 to 3.
    #[verifier::when_used_as_spec(from_index_spec)]
    pub fn from_index(index: u8) -> (color: Color)
        ensures
            color == Color::from_index_spec(index),
    {
        match index {
            0 => Color::Red,
            1 => Color::Blue,
            2 => Color::Yellow,
            _ => Color::Green,
        }
    }
}

impl Card {
    /// The colour printed on the card, if it has one.
    pub open spec fn color_spec(&self) -> Option<Color> {
        match *self {
            Card::Number { color, .. } => Some(color),
            Card::Action { color, .. } => Some(color),
            Card::Wild(_) => None,
        }
    }

    /// A card that can occur in a deck: number cards have a rank of at most
    /// `MAX_RANK`.
    pub open spec fn valid(&self) -> bool {
        *self matches Card::Number { number, .. } ==> number <= MAX_RANK
    }

    /// The matching table. `self` is the card on top of the discard pile,
    /// `other` the card a player wants to place on it.
    ///
    /// * any card may be covered by a wild card;
    /// * on a wild card, only the bound colour matches;
    /// * two number cards match by colour or by rank;
    /// * two action cards match by colour or by kind;
    /// * a number card and an action card match by colour.
    pub open spec fn accepts_spec(&self, other: &Card, wild_color: Option<Color>) -> bool {
        match (*self, *other) {
            (_, Card::Wild(_)) => true,
            (Card::Wild(_), _) => other.color_spec() == wild_color,
            (
                Card::Number { number, color },
                Card::Number { number: other_number, color: other_color },
            ) => color == other_color || number == other_number,
            (
                Card::Action { action, color },
                Card::Action { action: other_action, color: other_color },
            ) => color == other_color || action == other_action,
            (Card::Number { color, .. }, Card::Action { color: other_color, .. }) => color
                == other_color,
            (Card::Action { color, .. }, Card::Number { color: other_color, .. }) => color
                == other_color,
        }
    }

    /// The inputs on which matching is defined: a wild card on top needs a
    /// bound colour as soon as a coloured card is held against it.
    pub open spec fn binding_present(&self, other: &Card, wild_color: Option<Color>) -> bool {
        (*self is Wild && !(*other is Wild)) ==> wild_color is Some
    }

    /// The colour printed on the card, if it has one.
    #[verifier::when_used_as_spec(color_spec)]
    pub fn color(&self) -> (c: Option<Color>)
        ensures
            c == self.color_spec(),
    {
        match self {
            Card::Number { color, .. } => Some(*color),
            Card::Action { color, .. } => Some(*color),
            Card::Wild(_) => None,
        }
    }

    /// Whether the card is a wild card.
    pub fn is_wild(&self) -> (b: bool)
        ensures
            b == (*self is Wild),
    {
        match self {
            Card::Wild(_) => true,
            _ => false,
        }
    }

    /// Whether `other` may be placed on `self`, the top of the discard pile.
    #[verifier::when_used_as_spec(accepts_spec)]
    pub fn accepts(&self, other: &Card, wild_color: Option<Color>) -> (ok: bool)
        requires
            self.binding_present(other, wild_color),
        ensures
            ok == self.accepts_spec(other, wild_color),
    {
        match (self, other) {
            (
                Card::Number { color, number },
                Card::Number { color: other_color, number: other_number },
            ) => *color == *other_color || *number == *other_number,
            (Card::Number { color, .. }, Card::Action { color: other_color, .. }) => *color
                == *other_color,
            (Card::Action { color, .. }, Card::Number { color: other_color, .. }) => *color
                == *other_color,
            (
                Card::Action { color, action },
                Card::Action { action: other_action, color: other_color },
            ) => *color == *other_color || *action == *other_action,
            (_, Card::Wild(_)) => true,
            (Card::Wild(_), Card::Number { color, .. }) => *color == wild_color.unwrap(),
            (Card::Wild(_), Card::Action { color, .. }) => *color == wild_color.unwrap(),
        }
    }

    /// Like `accepts`, for callers that cannot vouch for the binding: where a
    /// coloured card is held against a wild card and no colour is bound, the
    /// result is `InvalidWildColorBinding`.
    pub fn try_accepts(&self, other: &Card, wild_color: Option<Color>) -> (res: Result<
        bool,
        EngineError,
    >)
        ensures
            self.binding_present(other, wild_color) ==> res == Ok::<bool, EngineError>(
                self.accepts_spec(other, wild_color),
            ),
            !self.binding_present(other, wild_color) ==> res == Err::<bool, EngineError>(
                EngineError::InvalidWildColorBinding,
            ),
    {
        if self.is_wild() && !other.is_wild() && wild_color.is_none() {
            Err(EngineError::InvalidWildColorBinding)
        } else {
            Ok(self.accepts(other, wild_color))
        }
    }
}

/// Two coloured cards of the same colour match, whichever of them lies on top
/// and whatever colour is bound.
pub proof fn lemma_same_color_accepts(top: Card, other: Card, wild_color: Option<Color>)
    requires
        top.color_spec() is Some,
        top.color_spec() == other.color_spec(),
    ensures
        top.accepts_spec(&other, wild_color),
{
}

/// A wild card may be placed on every card, whatever colour is bound.
pub proof fn lemma_wild_always_accepted(top: Card, other: Card, wild_color: Option<Color>)
    requires
        other is Wild,
    ensures
        top.accepts_spec(&other, wild_color),
{
}

/// On a wild card a coloured card matches exactly when it has the bound
/// colour.
pub proof fn lemma_wild_top_accepts_bound_color(top: Card, other: Card, bound: Color)
    requires
        top is Wild,
        !(other is Wild),
    ensures
        top.accepts_spec(&other, Some(bound)) <==> other.color_spec() == Some(bound),
{
}

/// Between coloured cards matching is mutual, and every card matches a card
/// equal to itself.
pub proof fn lemma_accepts_symmetric(first: Card, second: Card, wild_color: Option<Color>)
    requires
        !(first is Wild),
        !(second is Wild),
    ensures
        first.accepts_spec(&second, wild_color) == second.accepts_spec(&first, wild_color),
        first.accepts_spec(&first, wild_color),
{
}

} // verus!
