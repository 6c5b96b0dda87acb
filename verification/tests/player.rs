use rand::rngs::StdRng;
use rand::SeedableRng;
use uno_engine::card::{Action, Card, Color, WildAction};
use uno_engine::player::{color_for, decide_automated, legal_plays, PlayChoice, Player};

fn green(number: u8) -> Card {
    Card::Number { number, color: Color::Green }
}

fn yellow(number: u8) -> Card {
    Card::Number { number, color: Color::Yellow }
}

fn mixed_hand() -> Vec<Card> {
    vec![
        green(5),
        yellow(5),
        yellow(2),
        Card::Wild(WildAction::ChangeColor),
        Card::Action { action: Action::Skip, color: Color::Green },
        green(7),
    ]
}

#[test]
fn legal_plays_lists_matching_positions_in_rising_order() {
    let hand = mixed_hand();
    assert_eq!(legal_plays(&hand, &green(7), None), vec![0, 3, 4, 5]);
    assert_eq!(legal_plays(&hand, &yellow(5), None), vec![0, 1, 2, 3]);
    assert_eq!(
        legal_plays(&hand, &Card::Number { number: 9, color: Color::Red }, None),
        vec![3]
    );
    assert_eq!(
        legal_plays(&hand, &Card::Action { action: Action::Skip, color: Color::Red }, None),
        vec![3, 4]
    );
}

#[test]
fn legal_plays_on_a_wild_top_follow_the_bound_color() {
    let hand = mixed_hand();
    let top = Card::Wild(WildAction::Draw4);
    assert_eq!(legal_plays(&hand, &top, Some(Color::Yellow)), vec![1, 2, 3]);
    assert_eq!(legal_plays(&hand, &top, Some(Color::Green)), vec![0, 3, 4, 5]);
    assert_eq!(legal_plays(&hand, &top, Some(Color::Blue)), vec![3]);
}

#[test]
fn legal_plays_of_an_empty_or_hopeless_hand_are_empty() {
    let empty: Vec<Card> = Vec::new();
    assert!(legal_plays(&empty, &green(1), None).is_empty());
    let hand = vec![yellow(2), yellow(3)];
    assert!(legal_plays(&hand, &green(1), None).is_empty());
}

#[test]
fn a_choice_is_allowed_if_it_can_be_carried_out() {
    let hand = mixed_hand();
    let top = green(7);
    assert!(PlayChoice::Draw.is_allowed(&hand, &top, None));
    assert!(PlayChoice::Play { index: 0, color: None }.is_allowed(&hand, &top, None));
    assert!(PlayChoice::Play { index: 0, color: Some(Color::Red) }.is_allowed(&hand, &top, None));
    assert!(!PlayChoice::Play { index: 1, color: None }.is_allowed(&hand, &top, None));
    assert!(!PlayChoice::Play { index: 6, color: None }.is_allowed(&hand, &top, None));
    assert!(!PlayChoice::Play { index: usize::MAX, color: None }.is_allowed(&hand, &top, None));
    assert!(!PlayChoice::Play { index: 3, color: None }.is_allowed(&hand, &top, None));
    assert!(PlayChoice::Play { index: 3, color: Some(Color::Blue) }.is_allowed(&hand, &top, None));
}

#[test]
fn a_person_decides_what_was_asked_if_it_is_allowed() {
    let mut rng = StdRng::seed_from_u64(1);
    let hand = mixed_hand();
    let top = green(7);
    let wish = PlayChoice::Play { index: 5, color: None };
    assert_eq!(Player::Human.decide(&hand, &top, None, Some(wish), &mut rng), Some(wish));
    let bad = PlayChoice::Play { index: 2, color: None };
    assert_eq!(Player::Human.decide(&hand, &top, None, Some(bad), &mut rng), None);
    let colourless = PlayChoice::Play { index: 3, color: None };
    assert_eq!(Player::Human.decide(&hand, &top, None, Some(colourless), &mut rng), None);
    assert_eq!(
        Player::Human.decide(&hand, &top, None, Some(PlayChoice::Draw), &mut rng),
        Some(PlayChoice::Draw)
    );
    assert_eq!(Player::Human.decide(&hand, &top, None, None, &mut rng), None);
}

#[test]
fn an_automated_player_places_a_card_that_may_be_placed() {
    let hand = mixed_hand();
    let top = green(7);
    let mut seen = [false; 6];
    for seed in 0..200u64 {
        let mut rng = StdRng::seed_from_u64(seed);
        match decide_automated(&hand, &top, None, &mut rng) {
            PlayChoice::Play { index, color } => {
                assert!([0usize, 3, 4, 5].contains(&index));
                assert_eq!(color.is_some(), index == 3);
                seen[index] = true;
            }
            PlayChoice::Draw => panic!("a card could be placed"),
        }
    }
    assert_eq!(seen, [true, false, false, true, true, true]);
}

#[test]
fn an_automated_player_draws_only_without_a_card_to_place() {
    let mut rng = StdRng::seed_from_u64(4);
    let hand = vec![yellow(2), yellow(3)];
    assert_eq!(decide_automated(&hand, &green(1), None, &mut rng), PlayChoice::Draw);
    let empty: Vec<Card> = Vec::new();
    assert_eq!(decide_automated(&empty, &green(1), None, &mut rng), PlayChoice::Draw);
    let request = Some(PlayChoice::Play { index: 0, color: None });
    assert_eq!(
        Player::Automated.decide(&hand, &green(1), None, request, &mut rng),
        Some(PlayChoice::Draw)
    );
    assert_eq!(
        Player::Automated.decide(&hand, &yellow(9), None, None, &mut rng).map(|c| c != PlayChoice::Draw),
        Some(true)
    );
}

#[test]
fn a_colour_is_bound_exactly_to_wild_cards() {
    let mut rng = StdRng::seed_from_u64(8);
    assert!(color_for(&Card::Wild(WildAction::ChangeColor), &mut rng).is_some());
    assert!(color_for(&Card::Wild(WildAction::Draw4), &mut rng).is_some());
    assert_eq!(color_for(&green(1), &mut rng), None);
    assert_eq!(
        color_for(&Card::Action { action: Action::Reverse, color: Color::Red }, &mut rng),
        None
    );
}

#[test]
fn random_colours_cover_all_four() {
    let mut rng = StdRng::seed_from_u64(12);
    let mut seen = [0usize; 4];
    for _ in 0..400 {
        match color_for(&Card::Wild(WildAction::ChangeColor), &mut rng) {
            Some(Color::Red) => seen[0] += 1,
            Some(Color::Blue) => seen[1] += 1,
            Some(Color::Green) => seen[2] += 1,
            Some(Color::Yellow) => seen[3] += 1,
            None => panic!("a wild card needs a colour"),
        }
    }
    assert!(seen.iter().all(|n| *n > 50));
    assert_eq!(seen.iter().sum::<usize>(), 400);
}
