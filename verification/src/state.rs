//! The state of a game as plain values: what it is made of, when the engine
//! can work on it, what each move makes of it, and what holds of every move.

use crate::card::{Action, Card, Color};
use crate::composition::{full_set, FULL_SET_SIZE};
use crate::deck::{dealt, dealt_hand, pooled, reachable, transferred, INITIAL_CARDS_PER_PLAYER};
use crate::error::EngineError;
use crate::game::TurnReport;
use crate::player::legal_indices;
use crate::turn::{
    lemma_skip_passes_one_player,
    lemma_turn_stays_seated,
    Effect,
    TurnState,
    MAX_PLAYERS,
    MIN_PLAYERS,
};
use vstd::multiset::Multiset;
use vstd::prelude::*;
use vstd::seq_lib::group_to_multiset_ensures;

verus! {

/// What a game is made of, as plain values.
pub struct GameView {
    pub draw_pile: Seq<Card>,
    pub discard_pile: Seq<Card>,
    pub hands: Seq<Seq<Card>>,
    pub wild_color: Option<Color>,
    pub turn: TurnState,
}

/// The cards of all hands, taken together.
pub open spec fn hands_cards(hands: Seq<Seq<Card>>) -> Multiset<Card>
    decreases hands.len(),
{
    if hands.len() == 0 {
        Multiset::empty()
    } else {
        hands_cards(hands.drop_last()).add(hands.last().to_multiset())
    }
}

impl GameView {
    /// The number of players.
    pub open spec fn players(&self) -> int {
        self.hands.len() as int
    }

    /// The card on top of the discard pile.
    pub open spec fn top(&self) -> Card {
        self.discard_pile.last()
    }

    /// The hand of the acting player.
    pub open spec fn hand(&self) -> Seq<Card> {
        self.hands[self.turn.current as int]
    }

    /// A state the engine can work on: the table has a supported size, the
    /// turn is with one of the players, the discard pile has a top card, and
    /// a wild card on top has a colour bound.
    pub open spec fn wf(&self) -> bool {
        &&& MIN_PLAYERS <= self.hands.len() <= MAX_PLAYERS
        &&& self.turn.wf(self.players())
        &&& self.discard_pile.len() >= 1
        &&& self.top() is Wild ==> self.wild_color is Some
    }

    /// All cards of the game, taken together.
    pub open spec fn cards(&self) -> Multiset<Card> {
        self.draw_pile.to_multiset().add(self.discard_pile.to_multiset()).add(
            hands_cards(self.hands),
        )
    }

    /// How many cards the acting player has to draw before anything else.
    pub open spec fn pending_draw(&self) -> nat {
        self.turn.pending_draw_spec(self.top())
    }

    /// The acting player holds a card at `index` that the top card accepts.
    pub open spec fn legal(&self, index: int) -> bool {
        &&& 0 <= index < self.hand().len()
        &&& self.top().accepts_spec(&self.hand()[index], self.wild_color)
    }

    /// The acting player may place the card at `index` now, binding `chosen`
    /// if it is wild.
    pub open spec fn playable(&self, index: int, chosen: Option<Color>) -> bool {
        &&& self.pending_draw() == 0
        &&& self.legal(index)
        &&& self.hand()[index] is Wild ==> chosen is Some
    }

    /// What placing a card leads to: a win if it is the acting player's last
    /// card, a hot state otherwise.
    pub open spec fn effect_of_play(&self) -> Effect {
        if self.hand().len() == 1 {
            Effect::Win(self.turn.current)
        } else {
            Effect::Hot
        }
    }

    /// The state after the acting player placed the card at `index`.
    ///
    /// The last card of the hand takes the place of the card that left. The
    /// card is the new top of the discard pile; it binds `chosen` if it is
    /// wild and clears the binding otherwise. The turn moves on as
    /// `TurnState::after_play` says, unless the hand is now empty.
    pub open spec fn after_play(&self, index: int, chosen: Option<Color>) -> GameView {
        let card = self.hand()[index];
        let hand = self.hand().update(index, self.hand().last()).drop_last();
        GameView {
            draw_pile: self.draw_pile,
            discard_pile: self.discard_pile.push(card),
            hands: self.hands.update(self.turn.current as int, hand),
            wild_color: if card is Wild {
                chosen
            } else {
                None
            },
            turn: if hand.len() == 0 {
                self.turn.after_last_play(card)
            } else {
                self.turn.after_play(card, self.players())
            },
        }
    }

    /// `after` differs from this state by a transfer of `n` cards to the
    /// acting player and nothing else; `ok` says whether the transfer
    /// succeeded.
    pub open spec fn drew(&self, n: int, after: GameView, ok: bool) -> bool {
        &&& transferred(
            n,
            self.draw_pile,
            self.discard_pile,
            self.hand(),
            after.draw_pile,
            after.discard_pile,
            after.hands[self.turn.current as int],
            ok,
        )
        &&& after.hands == self.hands.update(
            self.turn.current as int,
            after.hands[self.turn.current as int],
        )
        &&& after.wild_color == self.wild_color
        &&& after.turn == self.turn
    }

    /// This state with another turn state.
    pub open spec fn with_turn(&self, turn: TurnState) -> GameView {
        GameView { turn, ..*self }
    }

    /// `after` is this state after the acting player drew the one card `card`.
    ///
    /// The card is the last of the player's hand. It comes from the
    /// accessible end of the draw pile or, where that pile is empty, from the
    /// recycled discard pile. If the top card does not accept it, the turn has
    /// passed on; otherwise the player still acts.
    pub open spec fn drew_one(&self, after: GameView, card: Card) -> bool {
        &&& self.drew(1, after.with_turn(self.turn), true)
        &&& after.hands[self.turn.current as int] == self.hand().push(card)
        &&& after.turn == if self.top().accepts_spec(&card, self.wild_color) {
            self.turn
        } else {
            self.turn.after_pass(self.players())
        }
        &&& self.draw_pile.len() > 0 ==> card == self.draw_pile.last() && after.draw_pile
            == self.draw_pile.drop_last() && after.discard_pile == self.discard_pile
        &&& self.draw_pile.len() == 0 ==> after.discard_pile == seq![self.top()]
            && after.draw_pile.to_multiset().insert(card)
            == self.discard_pile.drop_last().to_multiset()
    }

    /// This state as it is once the acting player has drawn `card` and before
    /// anything else happens, read off from `after`, the state in which that
    /// card has been placed as well.
    pub open spec fn holding(&self, card: Card, after: GameView) -> GameView {
        GameView {
            draw_pile: after.draw_pile,
            discard_pile: after.discard_pile.drop_last(),
            hands: self.hands.update(self.turn.current as int, self.hand().push(card)),
            wild_color: self.wild_color,
            turn: self.turn,
        }
    }

    /// What a turn of an automated opponent that owes no forced draw leads
    /// to; `after` is the state it leaves and `res` its result.
    ///
    /// * Where the hand holds a card that may be placed, one such card is
    ///   placed, with a colour exactly if it is wild.
    /// * Where it holds none and no card can be reached, the turn fails and
    ///   nothing changes.
    /// * Otherwise one card is drawn. If the top card accepts it, it is
    ///   placed at once, with a colour exactly if it is wild; if not, the
    ///   turn has passed on.
    pub open spec fn bot_moved(
        &self,
        after: GameView,
        res: Result<TurnReport, EngineError>,
    ) -> bool {
        if legal_indices(self.hand(), self.top(), self.wild_color).len() > 0 {
            &&& res matches Ok(report)
            &&& report.forced == 0
            &&& report.drew is None
            &&& report.placed matches Some(index)
            &&& self.legal(index as int)
            &&& self.hand()[index as int] is Wild <==> report.color is Some
            &&& after == self.after_play(index as int, report.color)
            &&& report.effect == self.effect_of_play()
        } else if reachable(self.draw_pile, self.discard_pile) == 0 {
            &&& res is Err
            &&& after == *self
        } else {
            &&& res matches Ok(report)
            &&& report.forced == 0
            &&& report.drew matches Some(card)
            &&& if self.top().accepts_spec(&card, self.wild_color) {
                let drawn = self.holding(card, after);
                &&& self.drew_one(drawn, card)
                &&& report.placed == Some(self.hand().len() as usize)
                &&& card is Wild <==> report.color is Some
                &&& after == drawn.after_play(self.hand().len() as int, report.color)
                &&& report.effect == drawn.effect_of_play()
            } else {
                &&& self.drew_one(after, card)
                &&& report.placed is None
                &&& report.color is None
                &&& report.effect == Effect::Normal
            }
        }
    }

    /// A game that has just been set up for `players` players from `deck`:
    /// the hands are those dealt from the accessible end of the deck, the
    /// discard pile holds one coloured card that came from the rest of the
    /// deck, the draw pile holds what is left of that rest, no colour is
    /// bound and the first player acts.
    pub open spec fn dealt_from(&self, deck: Seq<Card>, players: int) -> bool {
        let stock = deck.take(deck.len() - INITIAL_CARDS_PER_PLAYER * players);
        &&& self.hands.len() == players
        &&& forall|i: int| 0 <= i < players ==> #[trigger] self.hands[i] == dealt_hand(deck, i)
        &&& self.discard_pile.len() == 1
        &&& !(self.top() is Wild)
        &&& self.draw_pile.to_multiset().insert(self.top()) == stock.to_multiset()
        &&& self.wild_color is None
        &&& self.turn == (TurnState { current: 0, direction: 1, hot: false })
        &&& self.cards() == deck.to_multiset()
    }

    /// A game that has just been set up for `players` players: every hand
    /// holds `INITIAL_CARDS_PER_PLAYER` cards, the discard pile holds one
    /// coloured card, no colour is bound, the first player acts, and the
    /// cards of the game are those of a full set.
    pub open spec fn started(&self, players: int) -> bool {
        &&& self.hands.len() == players
        &&& forall|i: int|
            0 <= i < players ==> (#[trigger] self.hands[i]).len() == INITIAL_CARDS_PER_PLAYER
        &&& self.discard_pile.len() == 1
        &&& !(self.top() is Wild)
        &&& self.wild_color is None
        &&& self.turn == (TurnState { current: 0, direction: 1, hot: false })
        &&& self.cards() == full_set()
        &&& self.draw_pile.len() == FULL_SET_SIZE - INITIAL_CARDS_PER_PLAYER * players - 1
    }

    /// `after` is this state after the acting player took the forced draw of
    /// `n` cards; `ok` says whether the cards sufficed. If they did, the turn
    /// has passed on.
    pub open spec fn drew_forced(&self, n: int, after: GameView, ok: bool) -> bool {
        &&& self.drew(n, after.with_turn(self.turn), ok)
        &&& after.turn == if ok {
            self.turn.after_pass(self.players())
        } else {
            self.turn
        }
    }
}

/// Replacing one hand changes the cards of all hands by exactly the cards of
/// that hand.
pub proof fn lemma_hands_cards_update(hands: Seq<Seq<Card>>, i: int, hand: Seq<Card>)
    requires
        0 <= i < hands.len(),
    ensures
        hands_cards(hands.update(i, hand)).add(hands[i].to_multiset()) == hands_cards(hands).add(
            hand.to_multiset(),
        ),
    decreases hands.len(),
{
    broadcast use vstd::multiset::group_multiset_axioms;

    let changed = hands.update(i, hand);
    let front = hands.drop_last();
    let was = hands[i].to_multiset();
    let is = hand.to_multiset();
    assert(hands_cards(hands) == hands_cards(front).add(hands.last().to_multiset()));
    assert(hands_cards(changed) == hands_cards(changed.drop_last()).add(
        changed.last().to_multiset(),
    ));
    if i == hands.len() - 1 {
        assert(changed.drop_last() =~= front);
        assert forall|card: Card|
            hands_cards(changed).add(was).count(card) == hands_cards(hands).add(is).count(
                card,
            ) by {}
    } else {
        lemma_hands_cards_update(front, i, hand);
        assert(changed.drop_last() =~= front.update(i, hand));
        assert(front[i] == hands[i]);
        let left = hands_cards(front.update(i, hand)).add(was);
        let right = hands_cards(front).add(is);
        assert(left == right);
        assert forall|card: Card|
            hands_cards(changed).add(was).count(card) == hands_cards(hands).add(is).count(
                card,
            ) by {
            assert(left.count(card) == right.count(card));
        }
    }
    assert(hands_cards(changed).add(was) =~= hands_cards(hands).add(is));
}

/// A hand from which one card left, its last card taking the vacant place,
/// holds the cards it held before but for that one.
proof fn lemma_swap_remove_cards(hand: Seq<Card>, index: int)
    requires
        0 <= index < hand.len(),
    ensures
        hand.update(index, hand.last()).drop_last().to_multiset().insert(hand[index])
            == hand.to_multiset(),
{
    broadcast use group_to_multiset_ensures;
    broadcast use vstd::multiset::group_multiset_axioms;

    let moved = hand.update(index, hand.last());
    let rest = moved.drop_last();
    let front = hand.drop_last();
    assert(hand =~= front.push(hand.last()));
    if index == hand.len() - 1 {
        assert(rest =~= front);
    } else {
        assert(rest =~= front.update(index, hand.last()));
        assert(front[index] == hand[index]);
        assert(front.contains(front[index]));
        assert(front.to_multiset().count(hand[index]) > 0);
        assert(rest.to_multiset() == front.to_multiset().insert(hand.last()).remove(hand[index]));
        assert forall|card: Card|
            rest.to_multiset().insert(hand[index]).count(card) == hand.to_multiset().count(
                card,
            ) by {}
    }
    assert(rest.to_multiset().insert(hand[index]) =~= hand.to_multiset());
}

/// Placing a card moves it from the hand to the discard pile and leaves all
/// other cards where they are.
pub proof fn lemma_play_keeps_cards(game: GameView, index: int, chosen: Option<Color>)
    requires
        0 <= game.turn.current < game.hands.len(),
        0 <= index < game.hand().len(),
    ensures
        game.after_play(index, chosen).cards() == game.cards(),
{
    broadcast use group_to_multiset_ensures;
    broadcast use vstd::multiset::group_multiset_axioms;

    let after = game.after_play(index, chosen);
    let seat = game.turn.current as int;
    let card = game.hand()[index];
    lemma_swap_remove_cards(game.hand(), index);
    lemma_hands_cards_update(game.hands, seat, after.hands[seat]);
    let hands_left = hands_cards(after.hands).add(game.hand().to_multiset());
    let hands_right = hands_cards(game.hands).add(after.hands[seat].to_multiset());
    let hand_left = after.hands[seat].to_multiset().insert(card);
    let hand_right = game.hand().to_multiset();
    assert(hands_left == hands_right);
    assert(hand_left == hand_right);
    assert forall|any: Card| after.cards().count(any) == game.cards().count(any) by {
        assert(hands_left.count(any) == hands_right.count(any));
        assert(hand_left.count(any) == hand_right.count(any));
    }
    assert(after.cards() =~= game.cards());
}

/// A transfer to the acting player leaves the cards of the game, taken
/// together, as they were, and keeps the top card on top.
pub proof fn lemma_draw_keeps_cards(game: GameView, n: int, after: GameView, ok: bool)
    requires
        0 <= game.turn.current < game.hands.len(),
        n > game.draw_pile.len() ==> game.discard_pile.len() >= 1,
        0 <= n,
        game.drew(n, after, ok),
    ensures
        after.cards() == game.cards(),
        game.discard_pile.len() >= 1 ==> after.discard_pile.len() >= 1 && after.top()
            == game.top(),
        after.hands.len() == game.hands.len(),
{
    broadcast use group_to_multiset_ensures;
    broadcast use vstd::multiset::group_multiset_axioms;

    let seat = game.turn.current as int;
    lemma_hands_cards_update(game.hands, seat, after.hands[seat]);
    let hands_left = hands_cards(after.hands).add(game.hand().to_multiset());
    let hands_right = hands_cards(game.hands).add(after.hands[seat].to_multiset());
    let pool_left = pooled(after.draw_pile, after.discard_pile, after.hands[seat]);
    let pool_right = pooled(game.draw_pile, game.discard_pile, game.hand());
    assert(hands_left == hands_right);
    assert(pool_left == pool_right);
    assert forall|any: Card| after.cards().count(any) == game.cards().count(any) by {
        assert(hands_left.count(any) == hands_right.count(any));
        assert(pool_left.count(any) == pool_right.count(any));
    }
    assert(after.cards() =~= game.cards());
    if n > game.draw_pile.len() {
        assert(seq![game.discard_pile.last()].last() == game.discard_pile.last());
    }
}

/// The hands dealt from a pile hold, taken together, the cards at the pile's
/// accessible end.
pub proof fn lemma_dealt_hands_cards(pile: Seq<Card>, hands: Seq<Seq<Card>>)
    requires
        INITIAL_CARDS_PER_PLAYER * hands.len() <= pile.len(),
        forall|i: int| 0 <= i < hands.len() ==> #[trigger] hands[i] == dealt_hand(pile, i),
    ensures
        hands_cards(hands) == dealt(
            pile,
            INITIAL_CARDS_PER_PLAYER * hands.len(),
        ).to_multiset(),
    decreases hands.len(),
{
    broadcast use group_to_multiset_ensures;
    broadcast use vstd::multiset::group_multiset_axioms;

    if hands.len() == 0 {
        assert(dealt(pile, 0) =~= Seq::<Card>::empty());
        assert(dealt(pile, 0).to_multiset().len() == 0);
        assert(hands_cards(hands) =~= dealt(pile, 0).to_multiset());
    } else {
        let front = hands.drop_last();
        let count = front.len() as int;
        assert forall|i: int| 0 <= i < front.len() implies #[trigger] front[i] == dealt_hand(
            pile,
            i,
        ) by {
            assert(front[i] == hands[i]);
        }
        lemma_dealt_hands_cards(pile, front);
        let earlier = dealt(pile, INITIAL_CARDS_PER_PLAYER * count);
        assert(hands.last() == dealt_hand(pile, count));
        assert(dealt(pile, INITIAL_CARDS_PER_PLAYER * hands.len()) =~= earlier + hands.last());
        vstd::seq_lib::lemma_multiset_commutative(earlier, hands.last());
    }
}

/// Placing a card keeps the state one the engine can work on.
pub proof fn lemma_play_keeps_wf(game: GameView, index: int, chosen: Option<Color>)
    requires
        game.wf(),
        game.legal(index),
        game.hand()[index] is Wild ==> chosen is Some,
    ensures
        game.after_play(index, chosen).wf(),
        game.after_play(index, chosen).top() == game.hand()[index],
        game.after_play(index, chosen).cards() == game.cards(),
{
    lemma_turn_stays_seated(game.turn, game.players(), game.hand()[index]);
    lemma_play_keeps_cards(game, index, chosen);
}

/// Two reversals placed one after the other leave the direction of play as it
/// was before the first.
pub proof fn lemma_reverse_twice_restores_direction(
    game: GameView,
    first: int,
    first_color: Option<Color>,
    second: int,
    second_color: Option<Color>,
)
    requires
        game.wf(),
        game.legal(first),
        game.hand()[first] matches Card::Action { action: Action::Reverse, .. },
        game.after_play(first, first_color).legal(second),
        game.after_play(first, first_color).hand()[second] matches Card::Action {
            action: Action::Reverse,
            ..
        },
    ensures
        game.after_play(first, first_color).turn.direction == -game.turn.direction,
        game.after_play(first, first_color).after_play(second, second_color).turn.direction
            == game.turn.direction,
{
    lemma_play_keeps_wf(game, first, first_color);
}

/// A skip placed by a player who still holds cards passes over exactly one
/// player: the turn goes to the player two seats on in the direction of play.
pub proof fn lemma_skip_passes_over_next(game: GameView, index: int, chosen: Option<Color>)
    requires
        game.wf(),
        game.legal(index),
        game.hand().len() > 1,
        game.hand()[index] matches Card::Action { action: Action::Skip, .. },
    ensures
        game.after_play(index, chosen).turn.current == (game.turn.current + 2
            * game.turn.direction) % game.players(),
        game.after_play(index, chosen).turn.current != (game.turn.current
            + game.turn.direction) % game.players(),
        game.after_play(index, chosen).turn.direction == game.turn.direction,
{
    lemma_skip_passes_one_player(game.turn, game.players(), game.hand()[index]);
}

} // verus!
