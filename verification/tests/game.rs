use rand::rngs::StdRng;
use rand::SeedableRng;
use uno_engine::card::{Action, Card, Color, WildAction};
use uno_engine::composition::ordered_deck;
use uno_engine::error::EngineError;
use uno_engine::game::{valid_bot_count, Game, TurnReport, MAX_BOTS};
use uno_engine::turn::{Effect, TurnState};

const R: Color = Color::Red;
const B: Color = Color::Blue;
const G: Color = Color::Green;

fn n(number: u8, color: Color) -> Card {
    Card::Number { number, color }
}

fn a(action: Action, color: Color) -> Card {
    Card::Action { action, color }
}

fn fresh() -> TurnState {
    TurnState { current: 0, direction: 1, hot: false }
}

fn game(draw: Vec<Card>, discard: Vec<Card>, hands: Vec<Vec<Card>>) -> Game {
    Game::from_parts(draw, discard, hands, None, fresh()).unwrap()
}

type Snapshot = (Vec<Card>, Vec<Card>, Vec<Vec<Card>>, Option<Color>, TurnState);

fn snapshot(game: &Game) -> Snapshot {
    let mut hands = Vec::new();
    for player in 0..game.player_count() {
        hands.push(game.hand(player).unwrap().clone());
    }
    (
        game.draw_pile().clone(),
        game.discard_pile().clone(),
        hands,
        game.current_wild_color(),
        game.turn(),
    )
}

fn names(cards: &[Card]) -> Vec<String> {
    let mut names: Vec<String> = cards.iter().map(|c| format!("{:?}", c)).collect();
    names.sort();
    names
}

fn all_cards(game: &Game) -> Vec<String> {
    let (draw, discard, hands, _, _) = snapshot(game);
    let mut all = draw;
    all.extend(discard);
    for hand in hands {
        all.extend(hand);
    }
    names(&all)
}

#[test]
fn bot_counts_from_one_to_nine_are_valid() {
    assert_eq!(MAX_BOTS, 9);
    assert!(!valid_bot_count(0));
    for count in 1..=9u8 {
        assert!(valid_bot_count(count));
    }
    assert!(!valid_bot_count(10));
    assert!(!valid_bot_count(255));
}

#[test]
fn a_new_game_is_refused_for_a_bad_number_of_opponents() {
    let mut rng = StdRng::seed_from_u64(1);
    for count in [0u8, 10, 11, 255] {
        assert_eq!(Game::new(count, &mut rng).err(), Some(EngineError::InvalidPlayerCount));
    }
}

#[test]
fn a_new_game_is_set_up_from_a_full_set() {
    for bots in 1..=9u8 {
        for seed in 0..5u64 {
            let mut rng = StdRng::seed_from_u64(seed);
            let game = Game::new(bots, &mut rng).unwrap();
            let players = bots as usize + 1;
            assert_eq!(game.player_count(), players);
            for player in 0..players {
                assert_eq!(game.hand(player).unwrap().len(), 7);
            }
            assert!(game.hand(players).is_none());
            assert_eq!(game.discard_pile().len(), 1);
            assert!(!game.current_top_card().is_wild());
            assert_eq!(game.draw_pile().len(), 108 - 7 * players - 1);
            assert_eq!(game.current_wild_color(), None);
            assert_eq!(game.turn(), fresh());
            assert_eq!(game.current_player_index(), 0);
            assert_eq!(game.pending_draw(), 0);
            assert!(game.is_well_formed());
            assert_eq!(all_cards(&game), names(&ordered_deck()));
        }
    }
}

#[test]
fn the_same_seed_sets_up_the_same_game() {
    let first = Game::new(3, &mut StdRng::seed_from_u64(99)).unwrap();
    let second = Game::new(3, &mut StdRng::seed_from_u64(99)).unwrap();
    assert_eq!(snapshot(&first), snapshot(&second));
}

#[test]
fn a_game_is_put_together_only_from_sound_parts() {
    let hands = vec![vec![n(1, R)], vec![n(2, R)]];
    let discard = vec![n(9, R)];
    let build = |discard: Vec<Card>, hands: Vec<Vec<Card>>, color, turn| {
        Game::from_parts(vec![], discard, hands, color, turn)
    };
    assert!(build(discard.clone(), hands.clone(), None, fresh()).is_some());
    assert!(build(discard.clone(), hands.clone(), Some(B), fresh()).is_some());
    assert!(build(discard.clone(), vec![vec![n(1, R)]], None, fresh()).is_none());
    assert!(build(discard.clone(), vec![], None, fresh()).is_none());
    assert!(build(discard.clone(), vec![vec![]; 10], None, fresh()).is_some());
    assert!(build(discard.clone(), vec![vec![]; 11], None, fresh()).is_none());
    assert!(build(vec![], hands.clone(), None, fresh()).is_none());
    let seat = |current, direction| TurnState { current, direction, hot: true };
    assert!(build(discard.clone(), hands.clone(), None, seat(1, -1)).is_some());
    assert!(build(discard.clone(), hands.clone(), None, seat(2, 1)).is_none());
    assert!(build(discard.clone(), hands.clone(), None, seat(0, 0)).is_none());
    assert!(build(discard.clone(), hands.clone(), None, seat(0, 2)).is_none());
    assert!(build(discard.clone(), hands.clone(), None, seat(0, -2)).is_none());
    let wild = vec![n(9, R), Card::Wild(WildAction::ChangeColor)];
    assert!(build(wild.clone(), hands.clone(), None, fresh()).is_none());
    assert!(build(wild.clone(), hands.clone(), Some(G), fresh()).is_some());
    let buried = vec![Card::Wild(WildAction::ChangeColor), n(9, R)];
    assert!(build(buried, hands.clone(), None, fresh()).is_some());
}

#[test]
fn the_parts_of_a_game_can_be_read_back() {
    let draw = vec![n(1, B), n(2, B)];
    let discard = vec![n(9, R), Card::Wild(WildAction::Draw4)];
    let hands = vec![vec![n(1, R)], vec![n(2, R), n(3, G)], vec![]];
    let turn = TurnState { current: 1, direction: -1, hot: true };
    let game =
        Game::from_parts(draw.clone(), discard.clone(), hands.clone(), Some(G), turn).unwrap();
    assert_eq!(snapshot(&game), (draw, discard, hands.clone(), Some(G), turn));
    assert_eq!(game.current_player_index(), 1);
    assert_eq!(*game.current_top_card(), Card::Wild(WildAction::Draw4));
    assert_eq!(game.current_wild_color(), Some(G));
    assert_eq!(*game.current_hand(), hands[1]);
    assert_eq!(game.player_count(), 3);
    assert_eq!(game.pending_draw(), 4);
    assert_eq!(game.legal_plays(), vec![1]);
    assert!(game.hand(3).is_none());
}

#[test]
fn placing_the_last_card_wins() {
    let mut game = game(vec![], vec![n(9, R)], vec![vec![n(5, R)], vec![n(1, B)]]);
    assert_eq!(game.play(0, None), Ok(Effect::Win(0)));
    assert!(game.hand(0).unwrap().is_empty());
    assert_eq!(*game.current_top_card(), n(5, R));
    assert_eq!(*game.discard_pile(), vec![n(9, R), n(5, R)]);
    assert_eq!(game.current_player_index(), 0);
    assert_eq!(*game.hand(1).unwrap(), vec![n(1, B)]);
}

#[test]
fn placing_a_number_card_passes_the_turn_on() {
    let mut game = game(
        vec![n(0, B)],
        vec![n(9, R)],
        vec![vec![n(5, R), n(7, B), n(1, G)], vec![n(1, B)], vec![n(2, B)]],
    );
    assert_eq!(game.legal_plays(), vec![0]);
    assert_eq!(game.play(0, None), Ok(Effect::Hot));
    assert_eq!(*game.hand(0).unwrap(), vec![n(1, G), n(7, B)]);
    assert_eq!(*game.discard_pile(), vec![n(9, R), n(5, R)]);
    assert_eq!(*game.draw_pile(), vec![n(0, B)]);
    assert_eq!(game.turn(), TurnState { current: 1, direction: 1, hot: true });
    assert_eq!(game.current_wild_color(), None);
    assert_eq!(game.pending_draw(), 0);
}

#[test]
fn an_illegal_play_is_refused_and_changes_nothing() {
    let mut game = game(
        vec![n(0, B)],
        vec![n(9, R)],
        vec![vec![n(5, R), n(7, B), Card::Wild(WildAction::ChangeColor)], vec![n(1, B)]],
    );
    let before = snapshot(&game);
    assert_eq!(game.play(1, None), Err(EngineError::IllegalPlay));
    assert_eq!(game.play(3, None), Err(EngineError::IllegalPlay));
    assert_eq!(game.play(usize::MAX, Some(R)), Err(EngineError::IllegalPlay));
    assert_eq!(game.play(2, None), Err(EngineError::IllegalPlay));
    assert_eq!(snapshot(&game), before);
    assert_eq!(game.play(2, Some(B)), Ok(Effect::Hot));
}

#[test]
fn a_wild_card_binds_the_chosen_colour_until_the_next_play() {
    let mut game = game(
        vec![],
        vec![n(9, R)],
        vec![
            vec![Card::Wild(WildAction::ChangeColor), n(1, R)],
            vec![n(3, R), n(4, G), n(8, G)],
            vec![n(8, B), n(2, B)],
        ],
    );
    assert_eq!(game.play(0, Some(G)), Ok(Effect::Hot));
    assert_eq!(game.current_wild_color(), Some(G));
    assert_eq!(*game.current_top_card(), Card::Wild(WildAction::ChangeColor));
    assert_eq!(game.current_player_index(), 1);
    assert_eq!(game.legal_plays(), vec![1, 2]);
    assert_eq!(game.play(0, None), Err(EngineError::IllegalPlay));
    assert_eq!(game.play(2, Some(R)), Ok(Effect::Hot));
    assert_eq!(game.current_wild_color(), None);
    assert_eq!(*game.current_top_card(), n(8, G));
    assert_eq!(game.legal_plays(), vec![0]);
}

#[test]
fn a_skip_passes_over_the_next_player() {
    let mut game = game(
        vec![],
        vec![n(9, R)],
        vec![vec![a(Action::Skip, R), n(1, R)], vec![n(3, R)], vec![n(8, R)], vec![n(7, R)]],
    );
    assert_eq!(game.play(0, None), Ok(Effect::Hot));
    assert_eq!(game.turn(), TurnState { current: 2, direction: 1, hot: true });
    assert_eq!(game.pending_draw(), 0);
    assert_eq!(*game.hand(1).unwrap(), vec![n(3, R)]);
}

#[test]
fn a_skip_against_the_direction_of_play() {
    let hands = vec![vec![a(Action::Skip, R), n(1, R)], vec![n(3, R)], vec![n(8, R)]];
    let turn = TurnState { current: 0, direction: -1, hot: false };
    let mut game = Game::from_parts(vec![], vec![n(9, R)], hands, None, turn).unwrap();
    assert_eq!(game.play(0, None), Ok(Effect::Hot));
    assert_eq!(game.turn(), TurnState { current: 1, direction: -1, hot: true });
}

#[test]
fn a_skip_between_two_players_lets_the_same_player_act_again() {
    let mut game = game(
        vec![],
        vec![n(9, R)],
        vec![vec![a(Action::Skip, R), n(1, R)], vec![n(3, R)]],
    );
    assert_eq!(game.play(0, None), Ok(Effect::Hot));
    assert_eq!(game.turn(), TurnState { current: 0, direction: 1, hot: true });
    assert_eq!(game.play(0, None), Ok(Effect::Win(0)));
}

#[test]
fn a_reverse_turns_the_direction_round() {
    let mut game = game(
        vec![],
        vec![n(9, R)],
        vec![
            vec![a(Action::Reverse, R), n(1, R)],
            vec![n(3, R)],
            vec![a(Action::Reverse, B), n(8, R)],
        ],
    );
    assert_eq!(game.play(0, None), Ok(Effect::Hot));
    assert_eq!(game.turn(), TurnState { current: 2, direction: -1, hot: true });
    assert_eq!(game.play(0, None), Ok(Effect::Hot));
    assert_eq!(game.turn(), TurnState { current: 0, direction: 1, hot: true });
}

#[test]
fn a_reverse_between_two_players_works_as_a_skip() {
    let mut game = game(
        vec![],
        vec![n(9, R)],
        vec![vec![a(Action::Reverse, R), n(1, R), n(2, R)], vec![n(3, R)]],
    );
    assert_eq!(game.play(0, None), Ok(Effect::Hot));
    assert_eq!(game.turn(), TurnState { current: 0, direction: -1, hot: true });
    assert_eq!(game.play(0, None), Ok(Effect::Hot));
    assert_eq!(game.turn(), TurnState { current: 1, direction: -1, hot: true });
}

#[test]
fn a_draw_two_makes_the_next_player_draw_and_pass() {
    let mut rng = StdRng::seed_from_u64(1);
    let mut game = game(
        vec![n(0, B), n(1, B), n(2, B)],
        vec![n(9, R)],
        vec![vec![a(Action::Draw2, R), n(1, R)], vec![n(3, R)], vec![n(8, R)]],
    );
    assert_eq!(game.play(0, None), Ok(Effect::Hot));
    assert_eq!(game.turn(), TurnState { current: 1, direction: 1, hot: true });
    assert_eq!(game.pending_draw(), 2);
    let before = snapshot(&game);
    assert_eq!(game.play(0, None), Err(EngineError::IllegalPlay));
    assert_eq!(game.draw_one(&mut rng), Err(EngineError::IllegalPlay));
    assert_eq!(snapshot(&game), before);
    assert_eq!(game.resolve_pending(&mut rng), Ok(2));
    assert_eq!(*game.hand(1).unwrap(), vec![n(3, R), n(2, B), n(1, B)]);
    assert_eq!(*game.draw_pile(), vec![n(0, B)]);
    assert_eq!(game.turn(), TurnState { current: 2, direction: 1, hot: false });
    assert_eq!(game.pending_draw(), 0);
    assert_eq!(game.resolve_pending(&mut rng), Ok(0));
    assert_eq!(game.play(0, None), Ok(Effect::Win(2)));
}

#[test]
fn a_draw_four_makes_the_next_player_draw_and_pass() {
    let mut rng = StdRng::seed_from_u64(1);
    let mut game = game(
        vec![n(0, B), n(1, B), n(2, B), n(3, B), n(4, B)],
        vec![n(9, R)],
        vec![vec![Card::Wild(WildAction::Draw4), n(1, R)], vec![n(3, G)], vec![n(8, G), n(8, B)]],
    );
    assert_eq!(game.play(0, Some(G)), Ok(Effect::Hot));
    assert_eq!(game.pending_draw(), 4);
    assert_eq!(game.resolve_pending(&mut rng), Ok(4));
    assert_eq!(*game.hand(1).unwrap(), vec![n(3, G), n(4, B), n(3, B), n(2, B), n(1, B)]);
    assert_eq!(*game.draw_pile(), vec![n(0, B)]);
    assert_eq!(game.turn(), TurnState { current: 2, direction: 1, hot: false });
    assert_eq!(game.current_wild_color(), Some(G));
    assert_eq!(game.legal_plays(), vec![0]);
}

#[test]
fn nothing_is_owed_on_the_first_turn_whatever_lies_on_top() {
    let mut rng = StdRng::seed_from_u64(1);
    let mut game = game(
        vec![n(0, B), n(1, B)],
        vec![a(Action::Draw2, R)],
        vec![vec![n(1, R)], vec![n(3, G)]],
    );
    assert_eq!(game.pending_draw(), 0);
    let before = snapshot(&game);
    assert_eq!(game.resolve_pending(&mut rng), Ok(0));
    assert_eq!(snapshot(&game), before);
    assert_eq!(game.play(0, None), Ok(Effect::Win(0)));
}

#[test]
fn a_forced_draw_can_starve() {
    let mut rng = StdRng::seed_from_u64(1);
    let hands = vec![vec![n(1, R)], vec![n(3, G)]];
    let turn = TurnState { current: 1, direction: 1, hot: true };
    let mut game =
        Game::from_parts(vec![n(0, B)], vec![a(Action::Draw2, R)], hands, None, turn).unwrap();
    assert_eq!(game.resolve_pending(&mut rng), Err(EngineError::Starvation));
    assert_eq!(*game.hand(1).unwrap(), vec![n(3, G), n(0, B)]);
    assert!(game.draw_pile().is_empty());
    assert_eq!(*game.discard_pile(), vec![a(Action::Draw2, R)]);
    assert_eq!(game.turn(), turn);
}

#[test]
fn a_forced_draw_recycles_the_discard_pile() {
    let mut rng = StdRng::seed_from_u64(1);
    let hands = vec![vec![n(1, R)], vec![n(3, G)], vec![n(4, G)]];
    let turn = TurnState { current: 1, direction: -1, hot: true };
    let discard = vec![n(5, B), n(6, B), n(7, B), a(Action::Draw2, R)];
    let mut game = Game::from_parts(vec![n(0, B)], discard, hands, None, turn).unwrap();
    let before = all_cards(&game);
    assert_eq!(game.resolve_pending(&mut rng), Ok(2));
    assert_eq!(game.hand(1).unwrap().len(), 3);
    assert_eq!(game.hand(1).unwrap()[..2], [n(3, G), n(0, B)]);
    assert_eq!(game.draw_pile().len(), 2);
    assert_eq!(*game.discard_pile(), vec![a(Action::Draw2, R)]);
    assert_eq!(game.turn(), TurnState { current: 0, direction: -1, hot: false });
    assert_eq!(all_cards(&game), before);
}

#[test]
fn a_drawn_card_that_does_not_match_ends_the_turn() {
    let mut rng = StdRng::seed_from_u64(1);
    let mut game = game(
        vec![n(0, B), n(2, G)],
        vec![n(9, R)],
        vec![vec![n(1, B)], vec![n(3, G)], vec![n(4, G)]],
    );
    assert_eq!(game.draw_one(&mut rng), Ok(n(2, G)));
    assert_eq!(*game.hand(0).unwrap(), vec![n(1, B), n(2, G)]);
    assert_eq!(*game.draw_pile(), vec![n(0, B)]);
    assert_eq!(*game.discard_pile(), vec![n(9, R)]);
    assert_eq!(game.turn(), TurnState { current: 1, direction: 1, hot: false });
}

#[test]
fn a_drawn_card_that_matches_may_be_placed() {
    let mut rng = StdRng::seed_from_u64(1);
    let hands = vec![vec![n(1, B)], vec![n(3, G)], vec![n(4, G)]];
    let turn = TurnState { current: 0, direction: 1, hot: true };
    let mut game =
        Game::from_parts(vec![n(0, B), n(3, R)], vec![n(9, R)], hands, None, turn).unwrap();
    assert_eq!(game.draw_one(&mut rng), Ok(n(3, R)));
    assert_eq!(*game.hand(0).unwrap(), vec![n(1, B), n(3, R)]);
    assert_eq!(game.turn(), turn);
    assert_eq!(game.legal_plays(), vec![1]);
    assert_eq!(game.play(1, None), Ok(Effect::Hot));
    assert_eq!(*game.hand(0).unwrap(), vec![n(1, B)]);
    assert_eq!(game.current_player_index(), 1);
}

#[test]
fn drawing_starves_when_no_card_can_be_reached() {
    let mut rng = StdRng::seed_from_u64(1);
    let mut game = game(vec![], vec![n(9, R)], vec![vec![n(1, B)], vec![n(3, G)]]);
    let before = snapshot(&game);
    assert_eq!(game.draw_one(&mut rng), Err(EngineError::Starvation));
    assert_eq!(snapshot(&game), before);
}

#[test]
fn drawing_recycles_the_discard_pile() {
    for seed in 0..10u64 {
        let mut rng = StdRng::seed_from_u64(seed);
        let mut game = game(
            vec![],
            vec![n(5, B), n(6, G), n(9, R)],
            vec![vec![n(1, B)], vec![n(3, G)]],
        );
        let card = game.draw_one(&mut rng).unwrap();
        assert!(card == n(5, B) || card == n(6, G));
        assert_eq!(*game.hand(0).unwrap(), vec![n(1, B), card]);
        assert_eq!(*game.discard_pile(), vec![n(9, R)]);
        assert_eq!(game.draw_pile().len(), 1);
        assert_ne!(game.draw_pile()[0], card);
        assert_eq!(game.turn(), TurnState { current: 1, direction: 1, hot: false });
    }
}

#[test]
fn resolve_play_carries_out_a_checked_play() {
    let mut game = game(
        vec![],
        vec![n(9, R)],
        vec![vec![n(1, B), n(9, G), n(2, B)], vec![n(3, G)]],
    );
    assert_eq!(game.resolve_play(1, None), Effect::Hot);
    assert_eq!(*game.hand(0).unwrap(), vec![n(1, B), n(2, B)]);
    assert_eq!(*game.current_top_card(), n(9, G));
    assert_eq!(game.current_player_index(), 1);
}

#[test]
fn a_bot_that_owes_a_draw_takes_it_and_passes() {
    let mut rng = StdRng::seed_from_u64(1);
    let hands = vec![vec![n(1, R)], vec![a(Action::Draw2, G), n(3, R)]];
    let turn = TurnState { current: 1, direction: 1, hot: true };
    let draw = vec![n(0, B), n(1, B), n(2, B)];
    let mut game = Game::from_parts(draw, vec![a(Action::Draw2, R)], hands, None, turn).unwrap();
    let report = game.bot_turn(&mut rng).unwrap();
    assert_eq!(
        report,
        TurnReport { forced: 2, drew: None, placed: None, color: None, effect: Effect::Normal }
    );
    assert_eq!(*game.hand(1).unwrap(), vec![a(Action::Draw2, G), n(3, R), n(2, B), n(1, B)]);
    assert_eq!(game.turn(), TurnState { current: 0, direction: 1, hot: false });
    assert_eq!(*game.discard_pile(), vec![a(Action::Draw2, R)]);
}

#[test]
fn a_bot_places_a_card_if_it_can() {
    for seed in 0..20u64 {
        let mut rng = StdRng::seed_from_u64(seed);
        let mut game = game(
            vec![n(0, B)],
            vec![n(9, R)],
            vec![vec![n(1, B), n(5, R), n(2, G)], vec![n(3, G)]],
        );
        let report = game.bot_turn(&mut rng).unwrap();
        assert_eq!(
            report,
            TurnReport { forced: 0, drew: None, placed: Some(1), color: None, effect: Effect::Hot }
        );
        assert_eq!(*game.current_top_card(), n(5, R));
        assert_eq!(*game.hand(0).unwrap(), vec![n(1, B), n(2, G)]);
        assert_eq!(*game.draw_pile(), vec![n(0, B)]);
        assert_eq!(game.current_player_index(), 1);
    }
}

#[test]
fn a_bot_binds_a_colour_to_a_wild_card() {
    let mut seen = Vec::new();
    for seed in 0..40u64 {
        let mut rng = StdRng::seed_from_u64(seed);
        let mut game = game(
            vec![n(0, B)],
            vec![n(9, R)],
            vec![vec![n(1, B), Card::Wild(WildAction::ChangeColor)], vec![n(3, G)]],
        );
        let report = game.bot_turn(&mut rng).unwrap();
        assert_eq!(report.placed, Some(1));
        assert_eq!(report.drew, None);
        assert_eq!(report.effect, Effect::Hot);
        assert!(report.color.is_some());
        assert_eq!(game.current_wild_color(), report.color);
        assert_eq!(*game.current_top_card(), Card::Wild(WildAction::ChangeColor));
        if !seen.contains(&report.color) {
            seen.push(report.color);
        }
    }
    assert_eq!(seen.len(), 4);
}

#[test]
fn a_bot_without_a_card_to_place_draws_and_places_what_it_drew() {
    let mut rng = StdRng::seed_from_u64(1);
    let mut game = game(
        vec![n(0, B), n(3, R)],
        vec![n(9, R)],
        vec![vec![n(1, B)], vec![n(3, G)]],
    );
    let report = game.bot_turn(&mut rng).unwrap();
    assert_eq!(
        report,
        TurnReport {
            forced: 0,
            drew: Some(n(3, R)),
            placed: Some(1),
            color: None,
            effect: Effect::Hot
        }
    );
    assert_eq!(*game.hand(0).unwrap(), vec![n(1, B)]);
    assert_eq!(*game.discard_pile(), vec![n(9, R), n(3, R)]);
    assert_eq!(*game.draw_pile(), vec![n(0, B)]);
    assert_eq!(game.turn(), TurnState { current: 1, direction: 1, hot: true });
}

#[test]
fn a_bot_that_draws_a_wild_card_places_it_with_a_colour() {
    let mut rng = StdRng::seed_from_u64(1);
    let mut game = game(
        vec![n(0, B), Card::Wild(WildAction::Draw4)],
        vec![n(9, R)],
        vec![vec![n(1, B)], vec![n(3, G)]],
    );
    let report = game.bot_turn(&mut rng).unwrap();
    assert_eq!(report.drew, Some(Card::Wild(WildAction::Draw4)));
    assert_eq!(report.placed, Some(1));
    assert!(report.color.is_some());
    assert_eq!(game.current_wild_color(), report.color);
    assert_eq!(game.pending_draw(), 4);
}

#[test]
fn a_bot_that_draws_a_card_it_cannot_place_passes() {
    let mut rng = StdRng::seed_from_u64(1);
    let mut game = game(
        vec![n(0, B), n(2, G)],
        vec![n(9, R)],
        vec![vec![n(1, B)], vec![n(3, G)]],
    );
    let report = game.bot_turn(&mut rng).unwrap();
    assert_eq!(
        report,
        TurnReport {
            forced: 0,
            drew: Some(n(2, G)),
            placed: None,
            color: None,
            effect: Effect::Normal
        }
    );
    assert_eq!(*game.hand(0).unwrap(), vec![n(1, B), n(2, G)]);
    assert_eq!(*game.discard_pile(), vec![n(9, R)]);
    assert_eq!(game.turn(), TurnState { current: 1, direction: 1, hot: false });
}

#[test]
fn a_bot_starves_when_it_can_neither_place_nor_draw() {
    let mut rng = StdRng::seed_from_u64(1);
    let mut game = game(vec![], vec![n(9, R)], vec![vec![n(1, B)], vec![n(3, G)]]);
    let before = snapshot(&game);
    assert_eq!(game.bot_turn(&mut rng), Err(EngineError::Starvation));
    assert_eq!(snapshot(&game), before);
}

#[test]
fn a_bot_wins_with_its_last_card() {
    let mut rng = StdRng::seed_from_u64(1);
    let hands = vec![vec![n(1, B)], vec![n(3, R)]];
    let turn = TurnState { current: 1, direction: 1, hot: false };
    let mut game = Game::from_parts(vec![], vec![n(9, R)], hands, None, turn).unwrap();
    let report = game.bot_turn(&mut rng).unwrap();
    assert_eq!(report.effect, Effect::Win(1));
    assert_eq!(report.placed, Some(0));
    assert!(game.hand(1).unwrap().is_empty());
}

#[test]
fn games_between_bots_keep_every_card_and_come_to_an_end() {
    let full = names(&ordered_deck());
    let mut wins = 0;
    for seed in 0..12u64 {
        let mut rng = StdRng::seed_from_u64(seed);
        let bots = (seed % 9) as u8 + 1;
        let mut game = Game::new(bots, &mut rng).unwrap();
        let mut ended = false;
        for _ in 0..20000 {
            let player = game.current_player_index();
            let held = game.current_hand().len();
            let outcome = game.bot_turn(&mut rng);
            assert!(game.is_well_formed());
            assert_eq!(all_cards(&game), full);
            assert!(game.current_player_index() < game.player_count());
            assert!(!game.discard_pile().is_empty());
            if game.current_top_card().is_wild() {
                assert!(game.current_wild_color().is_some());
            }
            match outcome {
                Ok(report) => match report.effect {
                    Effect::Win(winner) => {
                        assert_eq!(winner, player);
                        assert!(game.hand(winner).unwrap().is_empty());
                        wins += 1;
                        ended = true;
                        break;
                    }
                    Effect::Hot => {
                        assert!(report.placed.is_some());
                        assert!(game.turn().hot);
                        assert!(!game.hand(player).unwrap().is_empty());
                    }
                    Effect::Normal => {
                        assert!(report.placed.is_none());
                        assert!(!game.turn().hot);
                        assert!(game.hand(player).unwrap().len() > held);
                    }
                },
                Err(error) => {
                    assert_eq!(error, EngineError::Starvation);
                    ended = true;
                    break;
                }
            }
        }
        assert!(ended);
    }
    assert!(wins > 0);
}

#[test]
fn a_game_from_a_given_deck_is_dealt_as_the_cards_lie() {
    let mut rng = StdRng::seed_from_u64(1);
    let deck = ordered_deck();
    let game = Game::with_deck(deck.clone(), 1, &mut rng).unwrap();
    let y = Color::Yellow;
    let d4 = Card::Wild(WildAction::Draw4);
    let cc = Card::Wild(WildAction::ChangeColor);
    assert_eq!(*game.hand(0).unwrap(), vec![d4, d4, d4, d4, cc, cc, cc]);
    assert_eq!(
        *game.hand(1).unwrap(),
        vec![cc, a(Action::Skip, y), a(Action::Reverse, y), a(Action::Draw2, y), n(9, y), n(8, y), n(7, y)]
    );
    assert_eq!(*game.discard_pile(), vec![n(6, y)]);
    assert_eq!(game.draw_pile()[..], deck[..93]);
    assert_eq!(game.current_wild_color(), None);
    assert_eq!(game.turn(), fresh());
}

#[test]
fn a_game_from_too_small_a_deck_is_refused() {
    let mut rng = StdRng::seed_from_u64(1);
    let deck: Vec<Card> = (0..13u8).map(|i| n(i % 10, R)).collect();
    assert_eq!(Game::with_deck(deck, 1, &mut rng).err(), Some(EngineError::InsufficientCards));
    let deck: Vec<Card> = (0..15u8).map(|i| n(i % 10, R)).collect();
    assert_eq!(
        Game::with_deck(deck.clone(), 2, &mut rng).err(),
        Some(EngineError::InsufficientCards)
    );
    assert_eq!(
        Game::with_deck(deck.clone(), 0, &mut rng).err(),
        Some(EngineError::InvalidPlayerCount)
    );
    assert_eq!(
        Game::with_deck(deck.clone(), 10, &mut rng).err(),
        Some(EngineError::InvalidPlayerCount)
    );
    let game = Game::with_deck(deck, 1, &mut rng).unwrap();
    assert_eq!(*game.discard_pile(), vec![n(0, R)]);
    assert!(game.draw_pile().is_empty());
}

#[test]
fn a_game_cannot_start_when_only_wild_cards_are_left_after_the_deal() {
    let mut rng = StdRng::seed_from_u64(1);
    let mut deck = vec![Card::Wild(WildAction::Draw4), Card::Wild(WildAction::ChangeColor)];
    deck.extend((0..14u8).map(|i| n(i % 10, B)));
    assert_eq!(Game::with_deck(deck, 1, &mut rng).err(), Some(EngineError::DeckExhausted));
    let deck: Vec<Card> = (0..14u8).map(|i| n(i % 10, B)).collect();
    assert_eq!(Game::with_deck(deck, 1, &mut rng).err(), Some(EngineError::DeckExhausted));
}

#[test]
fn a_wild_card_at_the_front_after_the_deal_is_shuffled_away() {
    for seed in 0..10u64 {
        let mut rng = StdRng::seed_from_u64(seed);
        let mut deck = vec![n(1, G), n(2, G), n(3, G), Card::Wild(WildAction::Draw4)];
        deck.extend((0..14u8).map(|i| n(i % 10, B)));
        let game = Game::with_deck(deck.clone(), 1, &mut rng).unwrap();
        assert!(!game.current_top_card().is_wild());
        assert_eq!(game.discard_pile().len(), 1);
        assert_eq!(game.draw_pile().len(), 3);
        assert_eq!(all_cards(&game), names(&deck));
        assert_eq!(*game.hand(0).unwrap(), vec![n(3, B), n(2, B), n(1, B), n(0, B), n(9, B), n(8, B), n(7, B)]);
    }
}
