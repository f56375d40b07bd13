use std::collections::HashSet;

use cardgame::Card;
use cardgame::CardGame;
use cardgame::Color::{Green, Purple, Red};
use cardgame::Config;
use cardgame::Number::{One, Three, Two};
use cardgame::Shading::Solid;
use cardgame::Shape::{Diamond, Oval, Squiggle};

#[test]
fn card_deck_has_all_possible_cards() {
    let deck = Card::build_deck();
    assert_eq!(deck.len(), 81);
}

#[test]
fn deck_has_no_duplicates_and_a_fixed_order() {
    let deck = Card::build_deck();
    let distinct: HashSet<Card> = deck.iter().cloned().collect();
    assert_eq!(distinct.len(), 81);
    assert_eq!(deck[0], Card(One, Solid, Red, Squiggle));
    assert_eq!(deck[1], Card(One, Solid, Red, Diamond));
    assert_eq!(deck[80], Card(Three, cardgame::Shading::Open, Purple, Oval));
}

#[test]
fn deck_has_all_possible_cards() {
    let deck = Card::build_deck();
    assert_eq!(deck.len(), 81);
}

#[test]
fn game_generate_a_game() {
    let mut rng = rand::thread_rng();
    assert_eq!(CardGame::generate(&Card::build_deck(), 12, &mut rng).0.len(), 12);
}

#[test]
fn generate_a_game() {
    let mut rng = rand::thread_rng();
    assert_eq!(CardGame::generate(&Card::build_deck(), 12, &mut rng).0.len(), 12);
}

#[test]
fn count_sets_in_a_game() {
    let game = CardGame(vec![
        Card(Three, Solid, Red, Diamond),
        Card(Two, Solid, Green, Squiggle),
        Card(One, Solid, Purple, Oval),
        Card(One, Solid, Purple, Diamond),
        Card(One, Solid, Purple, Squiggle),
    ]);

    assert_eq!(game.count_sets(), 2);
}

#[test]
fn count_fixed_sets_in_a_game() {
    let game = CardGame::generate_fixed(12, 6).expect("a 12-card board with 6 sets is common");

    assert_eq!(game.count_sets(), 6);
}

#[test]
fn game_count_sets_in_a_game() {
    let game = CardGame(vec![
        Card::new(Three, Solid, Red, Diamond),
        Card::new(Two, Solid, Green, Squiggle),
        Card::new(One, Solid, Purple, Oval),
        Card::new(One, Solid, Purple, Diamond),
        Card::new(One, Solid, Purple, Squiggle),
    ]);

    assert_eq!(game.count_sets(), 2);
}

#[test]
fn game_count_fixed_sets_in_a_game() {
    let game = CardGame::generate_fixed(12, 6).expect("a 12-card board with 6 sets is common");

    assert_eq!(game.count_sets(), 6);
}

#[test]
fn generated_board_has_distinct_cards_and_the_exact_set_count() {
    let game = CardGame::generate_fixed(12, 6).expect("a 12-card board with 6 sets is common");
    assert_eq!(game.0.len(), 12);
    let distinct: HashSet<Card> = game.0.iter().cloned().collect();
    assert_eq!(distinct.len(), 12);
    assert_eq!(game.count_sets(), 6);
}

#[test]
fn a_board_can_use_the_whole_deck() {
    let mut rng = rand::thread_rng();
    let deck = Card::build_deck();
    let board = CardGame::generate(&deck, 81, &mut rng);
    assert_eq!(board.0.len(), 81);
    let distinct: HashSet<Card> = board.0.iter().cloned().collect();
    assert_eq!(distinct.len(), 81);
}

#[test]
fn the_full_deck_holds_1080_sets() {
    // Any two distinct cards determine exactly one third card completing a
    // set, so the deck holds 81 * 80 / 6 unordered sets.
    let board = CardGame(Card::build_deck());
    assert_eq!(board.count_sets(), 1080);
}

#[test]
fn impossible_set_count_exhausts_the_cap() {
    assert!(CardGame::generate_capped(3, 5, 10).is_none());
}

#[test]
fn below_three_cards_zero_sets_succeeds_at_once() {
    let board = CardGame::generate_capped(2, 0, 1).expect("any two-card draw has zero sets");
    assert_eq!(board.0.len(), 2);
    assert_eq!(board.count_sets(), 0);
    let empty = CardGame::generate_fixed(0, 0).expect("the empty draw has zero sets");
    assert_eq!(empty.0.len(), 0);
}

#[test]
fn below_three_cards_a_positive_set_count_never_comes() {
    assert!(CardGame::generate_capped(2, 1, 5).is_none());
    assert!(CardGame::generate_fixed(1, 6).is_none());
}

#[test]
fn empty_board_has_no_sets() {
    assert_eq!(CardGame(vec![]).count_sets(), 0);
}

#[test]
fn random_cards_are_well_formed() {
    let mut rng = rand::thread_rng();
    for _ in 0..20 {
        let card = Card::random(&mut rng);
        let same = cardgame::Triple(card.clone(), card.clone(), card).is_a_set();
        assert_eq!(same, cardgame::SetStatus::IsASet);
    }
}

#[test]
fn hostname_joins_host_and_port() {
    let config = Config::new("127.0.0.1".to_string(), 3000);
    assert_eq!(config.hostname(), "127.0.0.1:3000");
    let config = Config::new("localhost".to_string(), 80);
    assert_eq!(config.hostname(), "localhost:80");
    let config = Config::new("h".to_string(), 65535);
    assert_eq!(config.hostname(), "h:65535");
    let config = Config::new("h".to_string(), 0);
    assert_eq!(config.hostname(), "h:0");
}

#[test]
fn test_all() {}

#[test]
fn main_test_all() {}

#[test]
fn lib_test_all() {}
