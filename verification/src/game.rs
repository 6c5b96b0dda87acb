//! The game itself: two piles, the players' hands, the colour bound to a wild
//! card on top, and the turn.
//!
//! A turn goes on in one of three ways. A player who owes a forced draw takes
//! it and is passed over (`resolve_pending`). Otherwise the player places a
//! card (`play`) or draws one (`draw_one`); a drawn card that cannot be placed
//! ends the turn. `bot_turn` is a whole turn of an automated opponent.
//!
//! The engine does not remember that a game is over. A win is reported by the
//! play that empties a hand, a game without winner by `Starvation`; after
//! either the caller stops.

use crate::card::{Card, Color};
use crate::deck::{
    deal_initial_hands,
    dealt,
    establish_discard_seed,
    generate_full_set,
    lemma_dealt_multiset,
    pooled,
    reachable,
    transfer,
    INITIAL_CARDS_PER_PLAYER,
};
use crate::error::EngineError;
use crate::player::{color_for, decide_automated, legal_indices, legal_plays, PlayChoice};
use crate::state::{
    lemma_dealt_hands_cards,
    lemma_draw_keeps_cards,
    lemma_play_keeps_cards,
    GameView,
};
use crate::turn::{lemma_turn_stays_seated, Effect, TurnState, MAX_PLAYERS, MIN_PLAYERS};
use rand::rngs::StdRng;
use vstd::prelude::*;
use vstd::seq_lib::group_to_multiset_ensures;

verus! {

/// The largest number of automated opponents.
pub const MAX_BOTS: u8 = 9;

/// A game in progress.
#[derive(Debug)]
pub struct Game {
    draw_pile: Vec<Card>,
    discard_pile: Vec<Card>,
    hands: Vec<Vec<Card>>,
    wild_color: Option<Color>,
    turn: TurnState,
}

/// What an automated opponent did with its turn.
#[derive(Clone, Copy, Debug, PartialEq, Eq, Structural)]
pub struct TurnReport {
    /// How many cards the card on top forced the player to draw.
    pub forced: u32,
    /// The card the player drew for want of one to place.
    pub drew: Option<Card>,
    /// Where in the hand, as it was at that moment, the placed card lay.
    pub placed: Option<usize>,
    /// The colour the player bound to a wild card.
    pub color: Option<Color>,
    /// What the turn led to.
    pub effect: Effect,
}

/// The hands as sequences of cards.
pub open spec fn hands_view(hands: Seq<Vec<Card>>) -> Seq<Seq<Card>> {
    Seq::new(hands.len(), |i: int| hands[i]@)
}

/// Whether `count` automated opponents can sit at the table.
pub fn valid_bot_count(count: u8) -> (ok: bool)
    ensures
        ok == (1 <= count <= MAX_BOTS),
{
    1 <= count && count <= MAX_BOTS
}

impl View for Game {
    type V = GameView;

    closed spec fn view(&self) -> GameView {
        GameView {
            draw_pile: self.draw_pile@,
            discard_pile: self.discard_pile@,
            hands: hands_view(self.hands@),
            wild_color: self.wild_color,
            turn: self.turn,
        }
    }
}

impl Game {
    /// Sets up a game for one person and `bot_count` automated opponents: a
    /// shuffled full set, a hand for every player, and a coloured first card
    /// on the discard pile.
    ///
    /// The result is `InvalidPlayerCount` where `bot_count` is not between 1
    /// and `MAX_BOTS`. Otherwise the only way to fail is `DeckExhausted`,
    /// which the shuffles decide.
    pub fn new(bot_count: u8, rng: &mut StdRng) -> (res: Result<Game, EngineError>)
        ensures
            !(1 <= bot_count <= MAX_BOTS) ==> (res matches Err(e) && e
                == EngineError::InvalidPlayerCount),
            1 <= bot_count <= MAX_BOTS ==> (res matches Err(e) ==> e
                == EngineError::DeckExhausted),
            res matches Ok(game) ==> game@.wf() && game@.started(bot_count + 1),
    {
        if !valid_bot_count(bot_count) {
            return Err(EngineError::InvalidPlayerCount);
        }
        let deck = generate_full_set(rng);
        let res = Game::with_deck(deck, bot_count, rng);
        proof {
            broadcast use group_to_multiset_ensures;

            if res is Ok {
                let game = res->Ok_0@;
                let stock = deck@.take(deck@.len() - INITIAL_CARDS_PER_PLAYER * (bot_count + 1));
                assert(game.draw_pile.to_multiset().insert(game.top()).len()
                    == stock.to_multiset().len());
            }
        }
        res
    }

    /// Sets up a game for one person and `bot_count` automated opponents from
    /// the cards of `deck`, which are taken as they lie: a hand for every
    /// player from the accessible end, then a coloured first card for the
    /// discard pile.
    ///
    /// The result is `InvalidPlayerCount` where `bot_count` is not between 1
    /// and `MAX_BOTS`, and `InsufficientCards` where the deck is too small
    /// for the hands. If the card that lies at the front after the deal is
    /// coloured, it starts the discard pile and nothing is shuffled. If it is
    /// wild the shuffles decide; `DeckExhausted` is certain only where all
    /// that is left after the deal is wild.
    pub fn with_deck(deck: Vec<Card>, bot_count: u8, rng: &mut StdRng) -> (res: Result<
        Game,
        EngineError,
    >)
        ensures
            !(1 <= bot_count <= MAX_BOTS) ==> (res matches Err(e) && e
                == EngineError::InvalidPlayerCount),
            1 <= bot_count <= MAX_BOTS && INITIAL_CARDS_PER_PLAYER * (bot_count + 1) > deck@.len()
                ==> (res matches Err(e) && e == EngineError::InsufficientCards),
            1 <= bot_count <= MAX_BOTS && INITIAL_CARDS_PER_PLAYER * (bot_count + 1) <= deck@.len()
                ==> {
                let stock = deck@.take(deck@.len() - INITIAL_CARDS_PER_PLAYER * (bot_count + 1));
                &&& res matches Err(e) ==> e == EngineError::DeckExhausted
                &&& stock.len() > 0 && !(stock.last() is Wild) ==> (res matches Ok(game)
                    && game@.draw_pile == stock.drop_last() && game@.top() == stock.last())
                &&& (forall|i: int| 0 <= i < stock.len() ==> stock[i] is Wild) ==> res is Err
            },
            res matches Ok(game) ==> game@.wf() && game@.dealt_from(deck@, bot_count + 1),
    {
        if !valid_bot_count(bot_count) {
            return Err(EngineError::InvalidPlayerCount);
        }
        let players = bot_count as usize + 1;
        let mut draw_pile = deck;
        let hands = match deal_initial_hands(players, &mut draw_pile) {
            Ok(hands) => hands,
            Err(e) => {
                return Err(e);
            },
        };
        let ghost stock = draw_pile@;
        let mut discard_pile: Vec<Card> = Vec::new();
        let seed = match establish_discard_seed(&mut draw_pile, &mut discard_pile, rng) {
            Ok(seed) => seed,
            Err(e) => {
                return Err(e);
            },
        };
        let turn = TurnState::new();
        let game = Game { draw_pile, discard_pile, hands, wild_color: None, turn };
        proof {
            broadcast use group_to_multiset_ensures;
            broadcast use vstd::multiset::group_multiset_axioms;

            let dealt_out = dealt(deck@, INITIAL_CARDS_PER_PLAYER * players);
            lemma_dealt_multiset(deck@, INITIAL_CARDS_PER_PLAYER * players);
            lemma_dealt_hands_cards(deck@, game@.hands);
            assert(game@.discard_pile =~= Seq::<Card>::empty().push(seed));
            assert(Seq::<Card>::empty().to_multiset().len() == 0);
            assert(deck@.to_multiset() == stock.to_multiset().add(dealt_out.to_multiset()));
            assert(game@.draw_pile.to_multiset().insert(seed) == stock.to_multiset());
            assert forall|any: Card|
                game@.cards().count(any) == deck@.to_multiset().count(any) by {
                assert(deck@.to_multiset().count(any) == stock.to_multiset().add(
                    dealt_out.to_multiset(),
                ).count(any));
                assert(game@.draw_pile.to_multiset().insert(seed).count(any)
                    == stock.to_multiset().count(any));
            }
            assert(game@.cards() =~= deck@.to_multiset());
        }
        Ok(game)
    }

    /// Puts a game together from its parts, if they make up a state the
    /// engine can work on.
    pub fn from_parts(
        draw_pile: Vec<Card>,
        discard_pile: Vec<Card>,
        hands: Vec<Vec<Card>>,
        wild_color: Option<Color>,
        turn: TurnState,
    ) -> (game: Option<Game>)
        ensures
            game is Some <==> (GameView {
                draw_pile: draw_pile@,
                discard_pile: discard_pile@,
                hands: hands_view(hands@),
                wild_color,
                turn,
            }).wf(),
            game matches Some(g) ==> g@ == (GameView {
                draw_pile: draw_pile@,
                discard_pile: discard_pile@,
                hands: hands_view(hands@),
                wild_color,
                turn,
            }),
    {
        let game = Game { draw_pile, discard_pile, hands, wild_color, turn };
        if game.is_well_formed() {
            Some(game)
        } else {
            None
        }
    }

    /// Whether the engine can work on this state. Every game that the engine
    /// hands out is well formed and stays so.
    pub fn is_well_formed(&self) -> (ok: bool)
        ensures
            ok == self@.wf(),
    {
        let players = self.hands.len();
        if players < MIN_PLAYERS || players > MAX_PLAYERS {
            return false;
        }
        if self.turn.current >= players {
            return false;
        }
        if self.turn.direction != 1 && self.turn.direction != -1 {
            return false;
        }
        let height = self.discard_pile.len();
        if height == 0 {
            return false;
        }
        !self.discard_pile[height - 1].is_wild() || self.wild_color.is_some()
    }

    /// The number of players.
    pub fn player_count(&self) -> (count: usize)
        ensures
            count == self@.players(),
    {
        self.hands.len()
    }

    /// The index of the acting player.
    pub fn current_player_index(&self) -> (index: usize)
        ensures
            index == self@.turn.current,
    {
        self.turn.current
    }

    /// The card on top of the discard pile.
    pub fn current_top_card(&self) -> (top: &Card)
        requires
            self@.wf(),
        ensures
            *top == self@.top(),
    {
        &self.discard_pile[self.discard_pile.len() - 1]
    }

    /// The colour bound to the card on top, if any.
    pub fn current_wild_color(&self) -> (color: Option<Color>)
        ensures
            color == self@.wild_color,
    {
        self.wild_color
    }

    /// The seat of the acting player, the direction of play and the hot flag.
    pub fn turn(&self) -> (turn: TurnState)
        ensures
            turn == self@.turn,
    {
        self.turn
    }

    /// The draw pile; its last card is the next to be drawn.
    pub fn draw_pile(&self) -> (pile: &Vec<Card>)
        ensures
            pile@ == self@.draw_pile,
    {
        &self.draw_pile
    }

    /// The discard pile; its last card is the top.
    pub fn discard_pile(&self) -> (pile: &Vec<Card>)
        ensures
            pile@ == self@.discard_pile,
    {
        &self.discard_pile
    }

    /// The hand of the player with index `player`, if there is such a player.
    pub fn hand(&self, player: usize) -> (hand: Option<&Vec<Card>>)
        ensures
            player < self@.players() ==> hand is Some && hand->0@ == self@.hands[player as int],
            player >= self@.players() ==> hand is None,
    {
        if player < self.hands.len() {
            Some(&self.hands[player])
        } else {
            None
        }
    }

    /// The hand of the acting player.
    pub fn current_hand(&self) -> (hand: &Vec<Card>)
        requires
            self@.wf(),
        ensures
            hand@ == self@.hand(),
    {
        &self.hands[self.turn.current]
    }

    /// How many cards the acting player has to draw before anything else.
    pub fn pending_draw(&self) -> (owed: u32)
        requires
            self@.wf(),
        ensures
            owed == self@.pending_draw(),
    {
        self.turn.pending_draw(self.current_top_card())
    }

    /// The positions in the acting player's hand of the cards that may be
    /// placed on the top card.
    pub fn legal_plays(&self) -> (indices: Vec<usize>)
        requires
            self@.wf(),
        ensures
            indices@ == legal_indices(self@.hand(), self@.top(), self@.wild_color),
    {
        legal_plays(self.current_hand(), self.current_top_card(), self.wild_color)
    }

    /// Carries out a play that is known to be in order: the acting player
    /// places the card at `index` and binds `chosen` if it is wild.
    pub fn resolve_play(&mut self, index: usize, chosen: Option<Color>) -> (effect: Effect)
        requires
            old(self)@.wf(),
            old(self)@.legal(index as int),
            old(self)@.hand()[index as int] is Wild ==> chosen is Some,
        ensures
            final(self)@ == old(self)@.after_play(index as int, chosen),
            effect == old(self)@.effect_of_play(),
            final(self)@.wf(),
            final(self)@.cards() == old(self)@.cards(),
            final(self)@.top() == old(self)@.hand()[index as int],
    {
        let player = self.turn.current;
        let players = self.hands.len();
        let card = self.hands[player].swap_remove(index);
        self.discard_pile.push(card);
        self.wild_color = if card.is_wild() {
            chosen
        } else {
            None
        };
        let effect = if self.hands[player].len() == 0 {
            self.turn.last_play_made(&card);
            Effect::Win(player)
        } else {
            self.turn.play_made(&card, players);
            Effect::Hot
        };
        proof {
            broadcast use group_to_multiset_ensures;
            broadcast use vstd::multiset::group_multiset_axioms;

            let before = old(self)@;
            let after = before.after_play(index as int, chosen);
            assert(self@.hands =~= after.hands);
            assert(self@ == after);
            lemma_turn_stays_seated(before.turn, players as int, card);
            lemma_play_keeps_cards(before, index as int, chosen);
        }
        effect
    }

    /// The acting player places the card at `index` of their hand; `chosen`
    /// is the colour to bind if the card is wild.
    ///
    /// The play is refused as `IllegalPlay`, and nothing changes, where the
    /// player owes a forced draw, `index` is not a position in the hand, the
    /// top card does not accept the card, or the card is wild and no colour
    /// is named.
    pub fn play(&mut self, index: usize, chosen: Option<Color>) -> (res: Result<
        Effect,
        EngineError,
    >)
        requires
            old(self)@.wf(),
        ensures
            old(self)@.playable(index as int, chosen) ==> res == Ok::<Effect, EngineError>(
                old(self)@.effect_of_play(),
            ) && final(self)@ == old(self)@.after_play(index as int, chosen),
            !old(self)@.playable(index as int, chosen) ==> res == Err::<Effect, EngineError>(
                EngineError::IllegalPlay,
            ) && final(self)@ == old(self)@,
            final(self)@.wf(),
            final(self)@.cards() == old(self)@.cards(),
    {
        if self.pending_draw() != 0 {
            return Err(EngineError::IllegalPlay);
        }
        let choice = PlayChoice::Play { index, color: chosen };
        if !choice.is_allowed(self.current_hand(), self.current_top_card(), self.wild_color) {
            return Err(EngineError::IllegalPlay);
        }
        Ok(self.resolve_play(index, chosen))
    }

    /// The acting player takes the forced draw that the card on top asks for,
    /// if any, and is passed over.
    ///
    /// The result is the number of cards drawn; it is 0, and nothing changes,
    /// where no draw is owed. Where the cards do not suffice the result is
    /// `Starvation`: the player has drawn what could be reached and the turn
    /// stays where it is.
    pub fn resolve_pending(&mut self, rng: &mut StdRng) -> (res: Result<u32, EngineError>)
        requires
            old(self)@.wf(),
        ensures
            old(self)@.pending_draw() == 0 ==> res == Ok::<u32, EngineError>(0) && final(self)@
                == old(self)@,
            old(self)@.pending_draw() > 0 ==> old(self)@.drew_forced(
                old(self)@.pending_draw() as int,
                final(self)@,
                res is Ok,
            ),
            res matches Ok(drawn) ==> drawn == old(self)@.pending_draw(),
            res matches Err(e) ==> e == EngineError::Starvation,
            final(self)@.wf(),
            final(self)@.cards() == old(self)@.cards(),
    {
        let owed = self.pending_draw();
        if owed == 0 {
            return Ok(0);
        }
        let player = self.turn.current;
        let players = self.hands.len();
        let res = transfer(
            owed,
            &mut self.draw_pile,
            &mut self.discard_pile,
            &mut self.hands[player],
            rng,
        );
        proof {
            let before = old(self)@;
            assert(self@.hands =~= before.hands.update(player as int, self@.hands[player as int]));
            lemma_draw_keeps_cards(before, owed as int, self@, res is Ok);
            lemma_turn_stays_seated(before.turn, players as int, before.top());
        }
        match res {
            Ok(()) => {
                self.turn.turn_passed(players);
                Ok(owed)
            },
            Err(e) => Err(e),
        }
    }

    /// The acting player draws one card.
    ///
    /// The draw is refused as `IllegalPlay` where the player owes a forced
    /// draw, and fails as `Starvation` where no card can be reached; in both
    /// cases nothing changes. Otherwise the card joins the player's hand and
    /// is returned. If the top card does not accept it, the turn passes on;
    /// if it does, the player still acts and may place it.
    pub fn draw_one(&mut self, rng: &mut StdRng) -> (res: Result<Card, EngineError>)
        requires
            old(self)@.wf(),
        ensures
            old(self)@.pending_draw() != 0 ==> res == Err::<Card, EngineError>(
                EngineError::IllegalPlay,
            ) && final(self)@ == old(self)@,
            old(self)@.pending_draw() == 0 && reachable(
                old(self)@.draw_pile,
                old(self)@.discard_pile,
            ) == 0 ==> res == Err::<Card, EngineError>(EngineError::Starvation) && final(self)@
                == old(self)@,
            old(self)@.pending_draw() == 0 && reachable(
                old(self)@.draw_pile,
                old(self)@.discard_pile,
            ) > 0 ==> res is Ok && old(self)@.drew_one(final(self)@, res->Ok_0),
            final(self)@.wf(),
            final(self)@.cards() == old(self)@.cards(),
    {
        if self.pending_draw() != 0 {
            return Err(EngineError::IllegalPlay);
        }
        let player = self.turn.current;
        let players = self.hands.len();
        let res = transfer(
            1,
            &mut self.draw_pile,
            &mut self.discard_pile,
            &mut self.hands[player],
            rng,
        );
        proof {
            broadcast use group_to_multiset_ensures;
            broadcast use vstd::multiset::group_multiset_axioms;

            let before = old(self)@;
            let hand = self@.hands[player as int];
            assert(self@.hands =~= before.hands.update(player as int, hand));
            lemma_draw_keeps_cards(before, 1, self@, res is Ok);
            lemma_turn_stays_seated(before.turn, players as int, before.top());
            if res is Err {
                assert(hand =~= hand.take(before.hand().len() as int));
                assert(hand =~= before.hand());
                assert(self@.hands =~= before.hands);
                assert(self@.draw_pile =~= before.draw_pile);
                assert(self@.discard_pile =~= before.discard_pile);
            } else {
                let card = hand.last();
                assert(hand.take(before.hand().len() as int) =~= before.hand());
                assert(hand =~= before.hand().push(card));
                if before.draw_pile.len() > 0 {
                    assert(self@.draw_pile =~= before.draw_pile.drop_last());
                } else {
                    let rest = before.discard_pile.drop_last();
                    assert(before.discard_pile =~= rest.push(before.top()));
                    assert(seq![before.top()] =~= Seq::<Card>::empty().push(before.top()));
                    let left = pooled(self@.draw_pile, self@.discard_pile, hand);
                    let right = pooled(before.draw_pile, before.discard_pile, before.hand());
                    assert(left == right);
                    assert forall|any: Card|
                        self@.draw_pile.to_multiset().insert(card).count(any)
                            == rest.to_multiset().count(any) by {
                        assert(left.count(any) == right.count(any));
                    }
                    assert(self@.draw_pile.to_multiset().insert(card) =~= rest.to_multiset());
                }
            }
        }
        match res {
            Ok(()) => {
                let card = self.hands[player][self.hands[player].len() - 1];
                if !self.discard_pile[self.discard_pile.len() - 1].accepts(&card, self.wild_color) {
                    self.turn.turn_passed(players);
                }
                Ok(card)
            },
            Err(e) => Err(e),
        }
    }

    /// A whole turn of an automated opponent.
    ///
    /// If the player owes a forced draw, it takes it and is passed over.
    /// Otherwise it places one of the cards it may place, picked at random.
    /// If it has none, it draws a card and places that card if the top card
    /// accepts it. A wild card is placed with a colour drawn at random.
    pub fn bot_turn(&mut self, rng: &mut StdRng) -> (res: Result<TurnReport, EngineError>)
        requires
            old(self)@.wf(),
        ensures
            old(self)@.pending_draw() > 0 ==> old(self)@.drew_forced(
                old(self)@.pending_draw() as int,
                final(self)@,
                res is Ok,
            ) && (res matches Ok(report) ==> report == (TurnReport {
                forced: old(self)@.pending_draw() as u32,
                drew: None,
                placed: None,
                color: None,
                effect: Effect::Normal,
            })),
            old(self)@.pending_draw() == 0 ==> old(self)@.bot_moved(final(self)@, res),
            res matches Err(e) ==> e == EngineError::Starvation,
            final(self)@.wf(),
            final(self)@.cards() == old(self)@.cards(),
    {
        if self.pending_draw() > 0 {
            return match self.resolve_pending(rng) {
                Ok(forced) => Ok(
                    TurnReport {
                        forced,
                        drew: None,
                        placed: None,
                        color: None,
                        effect: Effect::Normal,
                    },
                ),
                Err(e) => Err(e),
            };
        }
        let choice = decide_automated(
            self.current_hand(),
            self.current_top_card(),
            self.wild_color,
            rng,
        );
        match choice {
            PlayChoice::Play { index, color } => {
                let effect = self.resolve_play(index, color);
                Ok(TurnReport { forced: 0, drew: None, placed: Some(index), color, effect })
            },
            PlayChoice::Draw => {
                let card = match self.draw_one(rng) {
                    Ok(card) => card,
                    Err(e) => {
                        return Err(e);
                    },
                };
                let ghost drawn = self@;
                if !self.current_top_card().accepts(&card, self.wild_color) {
                    return Ok(
                        TurnReport {
                            forced: 0,
                            drew: Some(card),
                            placed: None,
                            color: None,
                            effect: Effect::Normal,
                        },
                    );
                }
                let index = self.current_hand().len() - 1;
                let color = color_for(&card, rng);
                let effect = self.resolve_play(index, color);
                proof {
                    let before = old(self)@;
                    assert(self@.discard_pile.drop_last() =~= drawn.discard_pile);
                    assert(before.holding(card, self@).hands =~= drawn.hands);
                    assert(before.holding(card, self@) == drawn);
                }
                Ok(TurnReport { forced: 0, drew: Some(card), placed: Some(index), color, effect })
            },
        }
    }
}

} // verus!
