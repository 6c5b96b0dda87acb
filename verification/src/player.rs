//! Who decides, and what a decision may be.
//!
//! A player is either a person, whose wish comes from outside and is checked
//! here, or an automated opponent, which picks at random among the cards it
//! may place. Both answer the same question: given a hand, the card on top
//! and the bound colour, place which card, or draw?

use crate::card::{Card, Color};
use crate::chance::{pick, roll_quarter};
use rand::rngs::StdRng;
use vstd::prelude::*;
use vstd::seq_lib::group_filter_ensures;

verus! {

/// The positions in `hand`, in rising order, of the cards that may be placed
/// on `top`.
pub open spec fn legal_indices(hand: Seq<Card>, top: Card, wild_color: Option<Color>) -> Seq<
    usize,
> {
    Seq::new(hand.len(), |i: int| i as usize).filter(
        |i: usize| top.accepts_spec(&hand[i as int], wild_color),
    )
}

/// What a player decides to do with their turn.
#[derive(Clone, Copy, Debug, PartialEq, Eq, Structural)]
pub enum PlayChoice {
    /// Place the card at `index` of the hand; `color` is the colour to bind if
    /// that card is wild.
    Play { index: usize, color: Option<Color> },
    /// Draw a card from the draw pile.
    Draw,
}

/// The two kinds of player.
#[derive(Clone, Copy, Debug, PartialEq, Eq, Structural)]
pub enum Player {
    Human,
    Automated,
}

impl PlayChoice {
    /// The choice can be carried out: drawing always can; placing needs a
    /// position within the hand, a card that `top` accepts and, for a wild
    /// card, a colour.
    pub open spec fn allowed(&self, hand: Seq<Card>, top: Card, wild_color: Option<Color>) -> bool {
        match *self {
            PlayChoice::Draw => true,
            PlayChoice::Play { index, color } => {
                &&& index < hand.len()
                &&& top.accepts_spec(&hand[index as int], wild_color)
                &&& hand[index as int] is Wild ==> color is Some
            },
        }
    }

    /// What an automated opponent may come up with: it places one of the cards
    /// that may be placed, naming a colour exactly when the card is wild, and
    /// draws only when no card may be placed.
    pub open spec fn automated(
        &self,
        hand: Seq<Card>,
        top: Card,
        wild_color: Option<Color>,
    ) -> bool {
        match *self {
            PlayChoice::Draw => legal_indices(hand, top, wild_color).len() == 0,
            PlayChoice::Play { index, color } => {
                &&& index < hand.len()
                &&& top.accepts_spec(&hand[index as int], wild_color)
                &&& hand[index as int] is Wild <==> color is Some
            },
        }
    }

    /// Whether the choice can be carried out.
    pub fn is_allowed(&self, hand: &Vec<Card>, top: &Card, wild_color: Option<Color>) -> (ok: bool)
        requires
            *top is Wild ==> wild_color is Some,
        ensures
            ok == self.allowed(hand@, *top, wild_color),
    {
        match self {
            PlayChoice::Draw => true,
            PlayChoice::Play { index, color } => {
                *index < hand.len() && top.accepts(&hand[*index], wild_color) && (
                !hand[*index].is_wild() || color.is_some())
            },
        }
    }
}

/// The cards of `hand` that `top` accepts are exactly those at the positions
/// that `legal_indices` lists.
pub proof fn lemma_legal_indices(hand: Seq<Card>, top: Card, wild_color: Option<Color>)
    requires
        hand.len() <= usize::MAX,
    ensures
        forall|k: int|
            0 <= k < legal_indices(hand, top, wild_color).len() ==> {
                let index = #[trigger] legal_indices(hand, top, wild_color)[k];
                index < hand.len() && top.accepts_spec(&hand[index as int], wild_color)
            },
        forall|i: int|
            0 <= i < hand.len() && top.accepts_spec(&hand[i], wild_color) ==> legal_indices(
                hand,
                top,
                wild_color,
            ).contains(i as usize),
{
    broadcast use group_filter_ensures;

    let all = Seq::new(hand.len(), |i: int| i as usize);
    let pred = |i: usize| top.accepts_spec(&hand[i as int], wild_color);
    let legal = legal_indices(hand, top, wild_color);
    assert forall|k: int| 0 <= k < legal.len() implies {
        let index = #[trigger] legal[k];
        index < hand.len() && top.accepts_spec(&hand[index as int], wild_color)
    } by {
        let index = legal[k];
        assert(pred(index));
        assert(all.filter(pred).contains(index));
        all.lemma_filter_contains_rev(pred, index);
        let j = choose|j: int| 0 <= j < all.len() && all[j] == index;
        assert(index == j);
    }
    assert forall|i: int|
        0 <= i < hand.len() && top.accepts_spec(&hand[i], wild_color) implies legal.contains(
        i as usize,
    ) by {
        assert(all[i] == i as usize);
        assert(pred(all[i]));
        all.lemma_filter_contains(pred, i);
    }
}

/// The positions in `hand`, in rising order, of the cards that may be placed
/// on `top`.
pub fn legal_plays(hand: &Vec<Card>, top: &Card, wild_color: Option<Color>) -> (indices: Vec<usize>)
    requires
        *top is Wild ==> wild_color is Some,
    ensures
        indices@ == legal_indices(hand@, *top, wild_color),
{
    let ghost pred = |i: usize| top.accepts_spec(&hand@[i as int], wild_color);
    let mut indices: Vec<usize> = Vec::new();
    let mut i: usize = 0;
    proof {
        reveal(Seq::filter);
        assert(Seq::new(0, |i: int| i as usize).filter(pred) =~= Seq::<usize>::empty());
    }
    while i < hand.len()
        invariant
            i <= hand.len(),
            *top is Wild ==> wild_color is Some,
            pred == |i: usize| top.accepts_spec(&hand@[i as int], wild_color),
            indices@ == Seq::new(i as nat, |i: int| i as usize).filter(pred),
        decreases hand.len() - i,
    {
        proof {
            let seen = Seq::new(i as nat, |i: int| i as usize);
            seen.lemma_filter_push(i, pred);
            assert(seen.push(i) =~= Seq::new((i + 1) as nat, |i: int| i as usize));
        }
        if top.accepts(&hand[i], wild_color) {
            indices.push(i);
        }
        i += 1;
    }
    indices
}

/// A colour drawn at random: the colour that `Color::from_index` gives for a
/// number that the generator draws from 0 to 3. Each of the four colours
/// stands for one of these numbers, so every colour can come out and nothing
/// is promised of the result.
fn random_color(rng: &mut StdRng) -> Color {
    Color::from_index(roll_quarter(rng))
}

/// The colour an automated opponent binds when it places `card`: one drawn at
/// random for a wild card, none for a coloured card.
pub fn color_for(card: &Card, rng: &mut StdRng) -> (color: Option<Color>)
    ensures
        color is Some <==> *card is Wild,
{
    if card.is_wild() {
        Some(random_color(rng))
    } else {
        None
    }
}

/// The decision of an automated opponent: one of the cards that may be
/// placed, picked at random, or a draw where there is none.
pub fn decide_automated(
    hand: &Vec<Card>,
    top: &Card,
    wild_color: Option<Color>,
    rng: &mut StdRng,
) -> (choice: PlayChoice)
    requires
        *top is Wild ==> wild_color is Some,
    ensures
        choice.automated(hand@, *top, wild_color),
        choice.allowed(hand@, *top, wild_color),
        choice is Draw <==> legal_indices(hand@, *top, wild_color).len() == 0,
{
    let legal = legal_plays(hand, top, wild_color);
    proof {
        assert(hand@.len() == hand.len());
        lemma_legal_indices(hand@, *top, wild_color);
    }
    match pick(&legal, rng) {
        Some(index) => {
            proof {
                let k = choose|k: int| 0 <= k < legal@.len() && legal@[k] == index;
                assert(legal@[k] == index);
            }
            PlayChoice::Play { index, color: color_for(&hand[index], rng) }
        },
        None => PlayChoice::Draw,
    }
}

impl Player {
    /// The player's decision, or `None` where a person's wish cannot be
    /// carried out and has to be asked for again.
    ///
    /// A person decides what `request` says, provided that it is allowed. An
    /// automated opponent takes no request and decides by itself.
    pub fn decide(
        &self,
        hand: &Vec<Card>,
        top: &Card,
        wild_color: Option<Color>,
        request: Option<PlayChoice>,
        rng: &mut StdRng,
    ) -> (choice: Option<PlayChoice>)
        requires
            *top is Wild ==> wild_color is Some,
        ensures
            choice matches Some(c) ==> c.allowed(hand@, *top, wild_color),
            *self is Human ==> choice == (if request is Some && request->0.allowed(
                hand@,
                *top,
                wild_color,
            ) {
                request
            } else {
                None
            }),
            *self is Automated ==> (choice matches Some(c) && c.automated(hand@, *top, wild_color)),
    {
        match self {
            Player::Human => {
                match request {
                    Some(wish) => {
                        if wish.is_allowed(hand, top, wild_color) {
                            Some(wish)
                        } else {
                            None
                        }
                    },
                    None => None,
                }
            },
            Player::Automated => Some(decide_automated(hand, top, wild_color, rng)),
        }
    }
}

} // verus!
