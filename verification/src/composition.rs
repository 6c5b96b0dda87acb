//! What a full set of cards holds, and the code that lays one out in order.
//!
//! Per colour there is one card of rank 0, two cards of each rank from 1 to 9
//! and two cards of each action; besides these there are four wild cards of
//! each kind.

use crate::card::{Action, Card, Color, WildAction, MAX_RANK};
use vstd::multiset::Multiset;
use vstd::prelude::*;
use vstd::seq_lib::{group_to_multiset_ensures, lemma_multiset_commutative};

verus! {

/// The number of cards in a full set.
pub const FULL_SET_SIZE: usize = 108;

/// How many copies of `card` a full set holds.
pub open spec fn copies(card: Card) -> nat {
    match card {
        Card::Number { number, .. } => if number == 0 {
            1
        } else if number <= MAX_RANK {
            2
        } else {
            0
        },
        Card::Action { .. } => 2,
        Card::Wild(_) => 4,
    }
}

/// The number cards of ranks 1 to 9 in one colour, in rising order.
pub open spec fn number_run(color: Color) -> Seq<Card> {
    Seq::new(9, |i: int| Card::Number { number: (i + 1) as u8, color })
}

/// The three action cards of one colour.
pub open spec fn action_run(color: Color) -> Seq<Card> {
    seq![
        Card::Action { action: Action::Draw2, color },
        Card::Action { action: Action::Reverse, color },
        Card::Action { action: Action::Skip, color },
    ]
}

/// All cards of one colour, as they are laid out: the zero, then twice the
/// ranks 1 to 9 followed by the actions.
pub open spec fn color_block(color: Color) -> Seq<Card> {
    seq![Card::Number { number: 0, color }] + number_run(color) + action_run(color) + number_run(
        color,
    ) + action_run(color)
}

/// Four copies of one wild card.
pub open spec fn wild_run(action: WildAction) -> Seq<Card> {
    Seq::new(4, |i: int| Card::Wild(action))
}

/// A full set before it is shuffled: the colours in the order red, blue,
/// green, yellow, then the wild cards.
pub open spec fn ordered_full_set() -> Seq<Card> {
    color_block(Color::Red) + color_block(Color::Blue) + color_block(Color::Green) + color_block(
        Color::Yellow,
    ) + wild_run(WildAction::ChangeColor) + wild_run(WildAction::Draw4)
}

/// The cards of a full set, without regard to order.
pub open spec fn full_set() -> Multiset<Card> {
    ordered_full_set().to_multiset()
}

proof fn lemma_number_run_count(color: Color, card: Card)
    ensures
        number_run(color).to_multiset().count(card) == if card matches Card::Number {
            number,
            color: c,
        } && c == color && 1 <= number <= 9 {
            1nat
        } else {
            0nat
        },
{
    broadcast use group_to_multiset_ensures;

    let run = number_run(color);
    assert(run.no_duplicates());
    run.lemma_multiset_has_no_duplicates();
    if let Card::Number { number, color: c } = card {
        if c == color && 1 <= number <= 9 {
            assert(run[number - 1] == card);
            assert(run.contains(card));
        }
    }
}

proof fn lemma_action_run_count(color: Color, card: Card)
    ensures
        action_run(color).to_multiset().count(card) == if card matches Card::Action {
            color: c,
            ..
        } && c == color {
            1nat
        } else {
            0nat
        },
{
    broadcast use group_to_multiset_ensures;

    let run = action_run(color);
    assert(run.no_duplicates());
    run.lemma_multiset_has_no_duplicates();
    if let Card::Action { action, color: c } = card {
        if c == color {
            let i: int = match action {
                Action::Draw2 => 0,
                Action::Reverse => 1,
                Action::Skip => 2,
            };
            assert(run[i] == card);
            assert(run.contains(card));
        }
    }
}

proof fn lemma_color_block_count(color: Color, card: Card)
    ensures
        color_block(color).to_multiset().count(card) == if card.color_spec() == Some(color) {
            copies(card)
        } else {
            0nat
        },
{
    broadcast use group_to_multiset_ensures;

    let zero = seq![Card::Number { number: 0, color }];
    let numbers = number_run(color);
    let actions = action_run(color);
    lemma_multiset_commutative(zero, numbers);
    lemma_multiset_commutative(zero + numbers, actions);
    lemma_multiset_commutative(zero + numbers + actions, numbers);
    lemma_multiset_commutative(zero + numbers + actions + numbers, actions);
    lemma_number_run_count(color, card);
    lemma_action_run_count(color, card);
    assert(zero =~= Seq::<Card>::empty().push(Card::Number { number: 0, color }));
    assert(Seq::<Card>::empty().to_multiset().count(card) == 0);
}

proof fn lemma_wild_run_count(action: WildAction, card: Card)
    ensures
        wild_run(action).to_multiset().count(card) == if card == Card::Wild(action) {
            4nat
        } else {
            0nat
        },
{
    broadcast use group_to_multiset_ensures;

    let w = Card::Wild(action);
    let none = Seq::<Card>::empty();
    assert(none.to_multiset().count(card) == 0);
    assert(wild_run(action) =~= none.push(w).push(w).push(w).push(w));
}

/// Every card occurs in a full set exactly as often as `copies` says, so the
/// set holds no card of a rank above `MAX_RANK`; it has `FULL_SET_SIZE` cards.
pub proof fn lemma_full_set_counts()
    ensures
        forall|card: Card| #[trigger] full_set().count(card) == copies(card),
        forall|card: Card| #[trigger] full_set().count(card) > 0 ==> card.valid(),
        full_set().len() == FULL_SET_SIZE,
        ordered_full_set().len() == FULL_SET_SIZE,
{
    broadcast use group_to_multiset_ensures;

    let red = color_block(Color::Red);
    let blue = color_block(Color::Blue);
    let green = color_block(Color::Green);
    let yellow = color_block(Color::Yellow);
    let change = wild_run(WildAction::ChangeColor);
    let draw4 = wild_run(WildAction::Draw4);
    lemma_multiset_commutative(red, blue);
    lemma_multiset_commutative(red + blue, green);
    lemma_multiset_commutative(red + blue + green, yellow);
    lemma_multiset_commutative(red + blue + green + yellow, change);
    lemma_multiset_commutative(red + blue + green + yellow + change, draw4);
    assert forall|card: Card| #[trigger] full_set().count(card) == copies(card) by {
        lemma_color_block_count(Color::Red, card);
        lemma_color_block_count(Color::Blue, card);
        lemma_color_block_count(Color::Green, card);
        lemma_color_block_count(Color::Yellow, card);
        lemma_wild_run_count(WildAction::ChangeColor, card);
        lemma_wild_run_count(WildAction::Draw4, card);
    }
}

/// The number cards of a full set.
pub open spec fn number_cards() -> Multiset<Card> {
    full_set().filter(|card: Card| card is Number)
}

/// The action cards of a full set.
pub open spec fn action_cards() -> Multiset<Card> {
    full_set().filter(|card: Card| card is Action)
}

/// The wild cards of a full set.
pub open spec fn wild_cards() -> Multiset<Card> {
    full_set().filter(|card: Card| card is Wild)
}

/// A full set holds 76 number cards, 24 action cards and 8 wild cards.
pub proof fn lemma_full_set_kinds()
    ensures
        number_cards().len() == 76,
        action_cards().len() == 24,
        wild_cards().len() == 8,
{
    broadcast use group_to_multiset_ensures;
    broadcast use vstd::multiset::group_multiset_axioms;

    lemma_full_set_counts();
    let numbers = numbers_of(Color::Red) + numbers_of(Color::Blue) + numbers_of(Color::Green)
        + numbers_of(Color::Yellow);
    let actions = actions_of(Color::Red) + actions_of(Color::Blue) + actions_of(Color::Green)
        + actions_of(Color::Yellow);
    let wilds = wild_run(WildAction::ChangeColor) + wild_run(WildAction::Draw4);
    lemma_multiset_commutative(numbers_of(Color::Red), numbers_of(Color::Blue));
    lemma_multiset_commutative(
        numbers_of(Color::Red) + numbers_of(Color::Blue),
        numbers_of(Color::Green),
    );
    lemma_multiset_commutative(
        numbers_of(Color::Red) + numbers_of(Color::Blue) + numbers_of(Color::Green),
        numbers_of(Color::Yellow),
    );
    lemma_multiset_commutative(actions_of(Color::Red), actions_of(Color::Blue));
    lemma_multiset_commutative(
        actions_of(Color::Red) + actions_of(Color::Blue),
        actions_of(Color::Green),
    );
    lemma_multiset_commutative(
        actions_of(Color::Red) + actions_of(Color::Blue) + actions_of(Color::Green),
        actions_of(Color::Yellow),
    );
    lemma_multiset_commutative(wild_run(WildAction::ChangeColor), wild_run(WildAction::Draw4));
    assert forall|card: Card|
        number_cards().count(card) == numbers.to_multiset().count(card) by {
        lemma_numbers_of_count(Color::Red, card);
        lemma_numbers_of_count(Color::Blue, card);
        lemma_numbers_of_count(Color::Green, card);
        lemma_numbers_of_count(Color::Yellow, card);
        assert(full_set().count(card) == copies(card));
    }
    assert forall|card: Card|
        action_cards().count(card) == actions.to_multiset().count(card) by {
        lemma_actions_of_count(Color::Red, card);
        lemma_actions_of_count(Color::Blue, card);
        lemma_actions_of_count(Color::Green, card);
        lemma_actions_of_count(Color::Yellow, card);
        assert(full_set().count(card) == copies(card));
    }
    assert forall|card: Card| wild_cards().count(card) == wilds.to_multiset().count(card) by {
        lemma_wild_run_count(WildAction::ChangeColor, card);
        lemma_wild_run_count(WildAction::Draw4, card);
        assert(full_set().count(card) == copies(card));
    }
    assert(number_cards() =~= numbers.to_multiset());
    assert(action_cards() =~= actions.to_multiset());
    assert(wild_cards() =~= wilds.to_multiset());
    assert(numbers.len() == 76);
    assert(actions.len() == 24);
    assert(wilds.len() == 8);
}

/// The number cards of one colour: the zero and twice the ranks 1 to 9.
spec fn numbers_of(color: Color) -> Seq<Card> {
    seq![Card::Number { number: 0, color }] + number_run(color) + number_run(color)
}

/// The action cards of one colour: each action twice.
spec fn actions_of(color: Color) -> Seq<Card> {
    action_run(color) + action_run(color)
}

proof fn lemma_numbers_of_count(color: Color, card: Card)
    ensures
        numbers_of(color).to_multiset().count(card) == if card is Number && card.color_spec()
            == Some(color) {
            copies(card)
        } else {
            0nat
        },
{
    broadcast use group_to_multiset_ensures;

    let zero = seq![Card::Number { number: 0, color }];
    lemma_multiset_commutative(zero, number_run(color));
    lemma_multiset_commutative(zero + number_run(color), number_run(color));
    lemma_number_run_count(color, card);
    assert(zero =~= Seq::<Card>::empty().push(Card::Number { number: 0, color }));
    assert(Seq::<Card>::empty().to_multiset().count(card) == 0);
}

proof fn lemma_actions_of_count(color: Color, card: Card)
    ensures
        actions_of(color).to_multiset().count(card) == if card is Action && card.color_spec()
            == Some(color) {
            copies(card)
        } else {
            0nat
        },
{
    lemma_multiset_commutative(action_run(color), action_run(color));
    lemma_action_run_count(color, card);
}

/// Appends the ranks 1 to 9 of one colour.
fn push_number_run(deck: &mut Vec<Card>, color: Color)
    ensures
        final(deck)@ == old(deck)@ + number_run(color),
{
    let ghost before = deck@;
    let mut number: u8 = 1;
    while number <= 9
        invariant
            1 <= number <= 10,
            deck@ == before + number_run(color).take(number - 1),
        decreases 10 - number,
    {
        deck.push(Card::Number { number, color });
        number += 1;
    }
}

/// Appends the three action cards of one colour.
fn push_action_run(deck: &mut Vec<Card>, color: Color)
    ensures
        final(deck)@ == old(deck)@ + action_run(color),
{
    deck.push(Card::Action { action: Action::Draw2, color });
    deck.push(Card::Action { action: Action::Reverse, color });
    deck.push(Card::Action { action: Action::Skip, color });
}

/// Appends all cards of one colour.
fn push_color_block(deck: &mut Vec<Card>, color: Color)
    ensures
        final(deck)@ == old(deck)@ + color_block(color),
{
    deck.push(Card::Number { number: 0, color });
    let mut round: u8 = 0;
    while round < 2
        invariant
            round <= 2,
            deck@ == old(deck)@ + seq![Card::Number { number: 0, color }] + if round == 0 {
                Seq::<Card>::empty()
            } else if round == 1 {
                number_run(color) + action_run(color)
            } else {
                number_run(color) + action_run(color) + number_run(color) + action_run(color)
            },
        decreases 2 - round,
    {
        push_number_run(deck, color);
        push_action_run(deck, color);
        round += 1;
    }
}

/// Appends four copies of one wild card.
fn push_wild_run(deck: &mut Vec<Card>, action: WildAction)
    ensures
        final(deck)@ == old(deck)@ + wild_run(action),
{
    let mut copy: u8 = 0;
    while copy < 4
        invariant
            copy <= 4,
            deck@ == old(deck)@ + wild_run(action).take(copy as int),
        decreases 4 - copy,
    {
        deck.push(Card::Wild(action));
        copy += 1;
    }
}

/// Lays out a full set in its fixed order.
pub fn ordered_deck() -> (deck: Vec<Card>)
    ensures
        deck@ == ordered_full_set(),
{
    let mut deck: Vec<Card> = Vec::with_capacity(112);
    push_color_block(&mut deck, Color::Red);
    push_color_block(&mut deck, Color::Blue);
    push_color_block(&mut deck, Color::Green);
    push_color_block(&mut deck, Color::Yellow);
    push_wild_run(&mut deck, WildAction::ChangeColor);
    push_wild_run(&mut deck, WildAction::Draw4);
    deck
}

} // verus!
