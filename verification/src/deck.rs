//! The life of the cards: a shuffled full set, the first hands, the first card
//! of the discard pile, and drawing with recycling of the discard pile.
//!
//! A pile is a `Vec<Card>` whose last element is the accessible end: the next
//! card to be dealt from the draw pile, or the top of the discard pile.
//! Cards are only ever moved; every operation states that the cards of the
//! piles and hands it touches are, taken together, the same before and after.

use crate::card::Card;
use crate::chance::shuffle;
use crate::composition::{copies, full_set, lemma_full_set_counts, ordered_deck, FULL_SET_SIZE};
use crate::error::EngineError;
use rand::rngs::StdRng;
use vstd::multiset::Multiset;
use vstd::prelude::*;
use vstd::seq_lib::{group_to_multiset_ensures, lemma_multiset_commutative};

verus! {

/// The number of cards each player holds when the game starts.
pub const INITIAL_CARDS_PER_PLAYER: usize = 7;

/// How often the draw pile is reshuffled in search of a coloured first card.
pub const MAX_RESHUFFLES: u32 = 1000;

/// The cards of two piles and a hand, taken together.
pub open spec fn pooled(draw: Seq<Card>, discard: Seq<Card>, hand: Seq<Card>) -> Multiset<Card> {
    draw.to_multiset().add(discard.to_multiset()).add(hand.to_multiset())
}

/// The `n` cards at the accessible end of `pile`, in the order in which they
/// are dealt: the last card of the pile comes first.
pub open spec fn dealt(pile: Seq<Card>, n: int) -> Seq<Card> {
    Seq::new(n as nat, |j: int| pile[pile.len() - 1 - j])
}

/// The hand that the player with index `player` is dealt from `pile` when
/// hands are dealt one after the other.
pub open spec fn dealt_hand(pile: Seq<Card>, player: int) -> Seq<Card> {
    Seq::new(
        INITIAL_CARDS_PER_PLAYER as nat,
        |j: int| pile[pile.len() - 1 - (INITIAL_CARDS_PER_PLAYER * player + j)],
    )
}

/// How many cards a draw can still reach: the draw pile, and the discard pile
/// but for its top card.
pub open spec fn reachable(draw: Seq<Card>, discard: Seq<Card>) -> int {
    if discard.len() == 0 {
        draw.len() as int
    } else {
        draw.len() + discard.len() - 1
    }
}

/// What a transfer of `n` cards does to the two piles and the hand; `ok` says
/// whether it succeeded.
///
/// * It succeeds exactly when `n` cards can be reached.
/// * The cards of piles and hand together are the same before and after.
/// * On success the hand has grown by `n` cards, and as many fewer can be
///   reached.
/// * On failure the draw pile is empty, the discard pile holds only its top,
///   and the hand has taken every card that could be reached.
/// * While the draw pile suffices, the cards leave it from its accessible end
///   and join the hand in that order; the discard pile is untouched.
/// * Otherwise the whole draw pile joins the hand first, in that order, and
///   the discard pile is left with its top card. What is drawn after the
///   recycling is up to the shuffle.
pub open spec fn transferred(
    n: int,
    draw_before: Seq<Card>,
    discard_before: Seq<Card>,
    hand_before: Seq<Card>,
    draw_after: Seq<Card>,
    discard_after: Seq<Card>,
    hand_after: Seq<Card>,
    ok: bool,
) -> bool {
    &&& ok <==> n <= reachable(draw_before, discard_before)
    &&& pooled(draw_after, discard_after, hand_after) == pooled(
        draw_before,
        discard_before,
        hand_before,
    )
    &&& ok ==> hand_after.len() == hand_before.len() + n && reachable(draw_after, discard_after)
        == reachable(draw_before, discard_before) - n
    &&& !ok ==> draw_after.len() == 0 && discard_after.len() == 1 && hand_after.len()
        == hand_before.len() + reachable(draw_before, discard_before)
    &&& n <= draw_before.len() ==> draw_after == draw_before.take(draw_before.len() - n)
        && discard_after == discard_before && hand_after == hand_before + dealt(draw_before, n)
    &&& n > draw_before.len() ==> discard_after == seq![discard_before.last()]
        && hand_after.take(hand_before.len() + draw_before.len() as int) == hand_before + dealt(
        draw_before,
        draw_before.len() as int,
    )
}

/// Recycling keeps drawing alive. A transfer fails only when the draw pile is
/// empty and the discard pile holds nothing but its top card; before that
/// point every card of the draw pile and every card below the top of the
/// discard pile has been drawn. In particular a single card can always be
/// drawn while the discard pile holds more than its top card.
pub proof fn lemma_starvation_only_when_dry(
    n: int,
    draw_before: Seq<Card>,
    discard_before: Seq<Card>,
    hand_before: Seq<Card>,
    draw_after: Seq<Card>,
    discard_after: Seq<Card>,
    hand_after: Seq<Card>,
    ok: bool,
)
    requires
        discard_before.len() >= 1,
        transferred(
            n,
            draw_before,
            discard_before,
            hand_before,
            draw_after,
            discard_after,
            hand_after,
            ok,
        ),
    ensures
        !ok ==> draw_after.len() == 0 && discard_after == seq![discard_before.last()],
        !ok ==> n > draw_before.len() + discard_before.len() - 1,
        !ok ==> hand_after.len() == hand_before.len() + draw_before.len() + discard_before.len()
            - 1,
        discard_before.len() > 1 && n <= 1 ==> ok,
        draw_before.len() == 0 && discard_before.len() == 1 && n >= 1 ==> !ok,
        discard_after.len() >= 1 && discard_after.last() == discard_before.last(),
{
    if n > draw_before.len() {
        assert(seq![discard_before.last()].last() == discard_before.last());
    }
}

/// The cards at the accessible end of a pile and the rest of it make up the
/// pile.
pub proof fn lemma_dealt_multiset(pile: Seq<Card>, n: int)
    requires
        0 <= n <= pile.len(),
    ensures
        pile.to_multiset() == pile.take(pile.len() - n).to_multiset().add(
            dealt(pile, n).to_multiset(),
        ),
    decreases n,
{
    broadcast use group_to_multiset_ensures;
    broadcast use vstd::multiset::group_multiset_axioms;

    if n == 0 {
        assert(pile.take(pile.len() - 0) =~= pile);
        assert(dealt(pile, 0) =~= Seq::<Card>::empty());
        assert(pile.to_multiset() =~= pile.to_multiset().add(
            Seq::<Card>::empty().to_multiset(),
        ));
    } else {
        lemma_dealt_multiset(pile, n - 1);
        let rest = pile.take(pile.len() - n);
        let card = pile[pile.len() - n];
        assert(pile.take(pile.len() - (n - 1)) =~= rest.push(card));
        assert(dealt(pile, n) =~= dealt(pile, n - 1).push(card));
        assert(pile.to_multiset() =~= rest.to_multiset().add(dealt(pile, n).to_multiset()));
    }
}

/// A full set of cards in random order.
///
/// Whatever the generator yields, the result holds each card exactly as often
/// as `copies` says.
pub fn generate_full_set(rng: &mut StdRng) -> (deck: Vec<Card>)
    ensures
        deck@.to_multiset() == full_set(),
        deck@.len() == FULL_SET_SIZE,
        forall|card: Card| #[trigger] deck@.to_multiset().count(card) == copies(card),
{
    let mut deck = ordered_deck();
    shuffle(&mut deck, rng);
    proof {
        broadcast use group_to_multiset_ensures;

        lemma_full_set_counts();
    }
    deck
}

/// Moves `n` cards from the accessible end of the draw pile to the hand, one
/// at a time.
pub fn take_cards(n: usize, draw_pile: &mut Vec<Card>, hand: &mut Vec<Card>)
    requires
        n <= old(draw_pile)@.len(),
    ensures
        final(draw_pile)@ == old(draw_pile)@.take(old(draw_pile)@.len() - n),
        final(hand)@ == old(hand)@ + dealt(old(draw_pile)@, n as int),
{
    let mut moved: usize = 0;
    while moved < n
        invariant
            moved <= n <= old(draw_pile)@.len(),
            draw_pile@ == old(draw_pile)@.take(old(draw_pile)@.len() - moved),
            hand@ == old(hand)@ + dealt(old(draw_pile)@, moved as int),
        decreases n - moved,
    {
        let card = draw_pile.pop().unwrap();
        hand.push(card);
        moved += 1;
    }
}

/// Deals each of `players` players a hand of `INITIAL_CARDS_PER_PLAYER` cards
/// from the accessible end of the draw pile, one whole hand after the other.
///
/// Where the pile holds too few cards, nothing is dealt.
pub fn deal_initial_hands(players: usize, draw_pile: &mut Vec<Card>) -> (res: Result<
    Vec<Vec<Card>>,
    EngineError,
>)
    ensures
        INITIAL_CARDS_PER_PLAYER * players > old(draw_pile)@.len() ==> {
            &&& res == Err::<Vec<Vec<Card>>, EngineError>(EngineError::InsufficientCards)
            &&& final(draw_pile)@ == old(draw_pile)@
        },
        INITIAL_CARDS_PER_PLAYER * players <= old(draw_pile)@.len() ==> {
            &&& res matches Ok(hands)
            &&& hands@.len() == players
            &&& forall|i: int|
                0 <= i < players ==> (#[trigger] hands@[i])@ == dealt_hand(old(draw_pile)@, i)
            &&& final(draw_pile)@ == old(draw_pile)@.take(
                old(draw_pile)@.len() - INITIAL_CARDS_PER_PLAYER * players,
            )
        },
{
    if players > draw_pile.len() / INITIAL_CARDS_PER_PLAYER {
        return Err(EngineError::InsufficientCards);
    }
    let mut hands: Vec<Vec<Card>> = Vec::new();
    let mut player: usize = 0;
    while player < players
        invariant
            player <= players,
            INITIAL_CARDS_PER_PLAYER * players <= old(draw_pile)@.len(),
            hands@.len() == player,
            draw_pile@ == old(draw_pile)@.take(
                old(draw_pile)@.len() - INITIAL_CARDS_PER_PLAYER * player,
            ),
            forall|i: int| 0 <= i < player ==> (#[trigger] hands@[i])@ == dealt_hand(
                old(draw_pile)@,
                i,
            ),
        decreases players - player,
    {
        let mut hand: Vec<Card> = Vec::new();
        let ghost before = draw_pile@;
        take_cards(INITIAL_CARDS_PER_PLAYER, draw_pile, &mut hand);
        proof {
            assert(hand@ =~= dealt_hand(old(draw_pile)@, player as int));
        }
        hands.push(hand);
        player += 1;
    }
    Ok(hands)
}

/// Moves the front card of the draw pile to the discard pile if it is a
/// coloured card, and returns it; does nothing if the draw pile is empty or
/// its front card is wild.
pub fn seed_from_front(draw_pile: &mut Vec<Card>, discard_pile: &mut Vec<Card>) -> (seed: Option<
    Card,
>)
    ensures
        old(draw_pile)@.len() > 0 && !(old(draw_pile)@.last() is Wild) ==> {
            &&& seed == Some(old(draw_pile)@.last())
            &&& final(draw_pile)@ == old(draw_pile)@.drop_last()
            &&& final(discard_pile)@ == old(discard_pile)@.push(old(draw_pile)@.last())
        },
        old(draw_pile)@.len() == 0 || old(draw_pile)@.last() is Wild ==> {
            &&& seed is None
            &&& final(draw_pile)@ == old(draw_pile)@
            &&& final(discard_pile)@ == old(discard_pile)@
        },
{
    let len = draw_pile.len();
    if len == 0 || draw_pile[len - 1].is_wild() {
        return None;
    }
    let card = draw_pile.pop().unwrap();
    discard_pile.push(card);
    Some(card)
}

/// Starts the discard pile with a coloured card.
///
/// The draw pile is reshuffled, at most `MAX_RESHUFFLES` times, until a
/// coloured card lies at its front; that card then moves to the discard pile.
/// If the front card is coloured to begin with, it is taken without a
/// shuffle. If the pile holds no coloured card, the result is
/// `DeckExhausted`. In between the shuffles decide, and either way the cards
/// of the draw pile stay the same but for the one that left.
pub fn establish_discard_seed(
    draw_pile: &mut Vec<Card>,
    discard_pile: &mut Vec<Card>,
    rng: &mut StdRng,
) -> (res: Result<Card, EngineError>)
    ensures
        res matches Ok(card) ==> {
            &&& !(card is Wild)
            &&& final(discard_pile)@ == old(discard_pile)@.push(card)
            &&& final(draw_pile)@.to_multiset().insert(card) == old(draw_pile)@.to_multiset()
            &&& final(draw_pile)@.len() + 1 == old(draw_pile)@.len()
        },
        res matches Err(e) ==> {
            &&& e == EngineError::DeckExhausted
            &&& final(discard_pile)@ == old(discard_pile)@
            &&& final(draw_pile)@.to_multiset() == old(draw_pile)@.to_multiset()
        },
        old(draw_pile)@.len() > 0 && !(old(draw_pile)@.last() is Wild) ==> {
            &&& res == Ok::<Card, EngineError>(old(draw_pile)@.last())
            &&& final(draw_pile)@ == old(draw_pile)@.drop_last()
        },
        (forall|i: int| 0 <= i < old(draw_pile)@.len() ==> old(draw_pile)@[i] is Wild)
            ==> res is Err,
{
    let mut reshuffles: u32 = 0;
    loop
        invariant
            reshuffles <= MAX_RESHUFFLES,
            discard_pile@ == old(discard_pile)@,
            draw_pile@.to_multiset() == old(draw_pile)@.to_multiset(),
            reshuffles == 0 ==> draw_pile@ == old(draw_pile)@,
            reshuffles > 0 ==> old(draw_pile)@.len() == 0 || old(draw_pile)@.last() is Wild,
        decreases MAX_RESHUFFLES - reshuffles,
    {
        let ghost before = draw_pile@;
        match seed_from_front(draw_pile, discard_pile) {
            Some(card) => {
                proof {
                    broadcast use group_to_multiset_ensures;

                    assert(before =~= draw_pile@.push(card));
                    assert(before.last() == card);
                    assert(before.to_multiset() =~= draw_pile@.to_multiset().insert(card));
                    assert(before.to_multiset().len() == old(draw_pile)@.to_multiset().len());
                    assert(before.to_multiset().count(card) > 0);
                    assert(old(draw_pile)@.contains(card));
                }
                return Ok(card);
            },
            None => {},
        }
        if reshuffles == MAX_RESHUFFLES {
            return Err(EngineError::DeckExhausted);
        }
        shuffle(draw_pile, rng);
        reshuffles += 1;
    }
}

/// Moves every card of the discard pile but its top into the draw pile and
/// shuffles the draw pile.
pub fn recycle(draw_pile: &mut Vec<Card>, discard_pile: &mut Vec<Card>, rng: &mut StdRng)
    requires
        old(discard_pile)@.len() >= 1,
    ensures
        final(discard_pile)@ == seq![old(discard_pile)@.last()],
        final(draw_pile)@.to_multiset() == old(draw_pile)@.to_multiset().add(
            old(discard_pile)@.drop_last().to_multiset(),
        ),
        final(draw_pile)@.len() == old(draw_pile)@.len() + old(discard_pile)@.len() - 1,
        final(draw_pile)@.to_multiset().add(final(discard_pile)@.to_multiset())
            == old(draw_pile)@.to_multiset().add(old(discard_pile)@.to_multiset()),
{
    let top = discard_pile.pop().unwrap();
    draw_pile.append(discard_pile);
    discard_pile.push(top);
    let ghost gathered = draw_pile@;
    shuffle(draw_pile, rng);
    proof {
        broadcast use group_to_multiset_ensures;
        broadcast use vstd::multiset::group_multiset_axioms;

        let rest = old(discard_pile)@.drop_last();
        lemma_multiset_commutative(old(draw_pile)@, rest);
        assert(gathered =~= old(draw_pile)@ + rest);
        assert(draw_pile@.len() == gathered.len()) by {
            assert(draw_pile@.to_multiset().len() == gathered.to_multiset().len());
        }
        assert(discard_pile@ =~= seq![top]);
        assert(old(discard_pile)@ =~= rest.push(top));
        assert(seq![top] =~= Seq::<Card>::empty().push(top));
        assert(draw_pile@.to_multiset().add(discard_pile@.to_multiset())
            =~= old(draw_pile)@.to_multiset().add(old(discard_pile)@.to_multiset()));
    }
}

/// Moves `n` cards from the draw pile to the hand, one at a time.
///
/// When the draw pile is found empty, the discard pile but for its top card
/// is recycled into it and shuffled, and drawing goes on. When there is
/// nothing to recycle either, the result is `Starvation`; the hand keeps what
/// it drew until then.
///
/// The transfer succeeds exactly when `n` cards can be reached. As long as the
/// draw pile alone suffices, what moves is fixed; after a recycling the
/// shuffle decides which cards are drawn.
pub fn transfer(
    n: u32,
    draw_pile: &mut Vec<Card>,
    discard_pile: &mut Vec<Card>,
    hand: &mut Vec<Card>,
    rng: &mut StdRng,
) -> (res: Result<(), EngineError>)
    requires
        n > old(draw_pile)@.len() ==> old(discard_pile)@.len() >= 1,
    ensures
        res is Err ==> res == Err::<(), EngineError>(EngineError::Starvation),
        transferred(
            n as int,
            old(draw_pile)@,
            old(discard_pile)@,
            old(hand)@,
            final(draw_pile)@,
            final(discard_pile)@,
            final(hand)@,
            res is Ok,
        ),
{
    let ghost draw0 = draw_pile@;
    let ghost discard0 = discard_pile@;
    let ghost hand0 = hand@;
    let ghost mut recycled = false;
    let mut moved: u32 = 0;
    while moved < n
        invariant
            moved <= n,
            draw0 == old(draw_pile)@,
            discard0 == old(discard_pile)@,
            hand0 == old(hand)@,
            n > draw0.len() ==> discard0.len() >= 1,
            hand@.len() == hand0.len() + moved,
            pooled(draw_pile@, discard_pile@, hand@) == pooled(draw0, discard0, hand0),
            !recycled ==> moved <= draw0.len() && draw_pile@ == draw0.take(draw0.len() - moved)
                && discard_pile@ == discard0 && hand@ == hand0 + dealt(draw0, moved as int),
            recycled ==> moved >= draw0.len() && n > draw0.len() && discard_pile@
                == seq![discard0.last()] && draw_pile@.len() == draw0.len() + discard0.len() - 1
                - moved && hand@.take(hand0.len() + draw0.len() as int) == hand0 + dealt(
                draw0,
                draw0.len() as int,
            ),
        ensures
            moved == n,
        decreases
                n - moved,
                (if draw_pile@.len() == 0 {
                    1int
                } else {
                    0int
                }),
    {
        let ghost draw_before = draw_pile@;
        let ghost hand_before = hand@;
        match draw_pile.pop() {
            Some(card) => {
                hand.push(card);
                moved += 1;
                proof {
                    broadcast use group_to_multiset_ensures;
                    broadcast use vstd::multiset::group_multiset_axioms;

                    assert(draw_before =~= draw_pile@.push(card));
                    assert(pooled(draw_pile@, discard_pile@, hand@) =~= pooled(
                        draw_before,
                        discard_pile@,
                        hand_before,
                    ));
                    if !recycled {
                        assert(hand@ =~= hand0 + dealt(draw0, moved as int));
                        assert(draw_pile@ =~= draw0.take(draw0.len() - moved));
                    } else {
                        assert(hand@.take(hand0.len() + draw0.len() as int) =~= hand_before.take(
                            hand0.len() + draw0.len() as int,
                        ));
                    }
                }
            },
            None => {
                proof {
                    if !recycled {
                        assert(draw0.len() == moved);
                        assert(hand@.take(hand0.len() + draw0.len() as int) =~= hand@);
                    }
                }
                if discard_pile.len() == 1 {
                    proof {
                        assert(discard_pile@ =~= seq![discard0.last()]);
                    }
                    return Err(EngineError::Starvation);
                }
                let ghost discard_before = discard_pile@;
                recycle(draw_pile, discard_pile, rng);
                proof {
                    broadcast use vstd::multiset::group_multiset_axioms;

                    recycled = true;
                }
            },
        }
    }
    Ok(())
}

} // verus!
