use kikande::bao::board::{Mashumo, ZobristKeys};
use kikande::bao::direction::Direction;
use kikande::bao::game::Game;
use kikande::bao::move_factory::MoveFactory;
use kikande::bao::moves::Move;
use kikande::bao::player::Player;
use kikande::search::evaluate::{INFINITY, NEG_INFINITY};
use kikande::search::negamax::terminal_score;

fn game(
    keys: &ZobristKeys,
    current: ([u8; 16], u8, bool),
    other: ([u8; 16], u8, bool),
) -> Game {
    Game {
        current_player: Player {
            mashumo: Mashumo::from_pits(keys, current.0),
            seeds: current.1,
            nyumba: current.2,
        },
        other_player: Player {
            mashumo: Mashumo::from_pits(keys, other.0),
            seeds: other.1,
            nyumba: other.2,
        },
    }
}

fn legal_moves(game: &Game) -> Vec<Move> {
    let mut factory = MoveFactory::new(game);
    factory.get_legal_moves().to_vec()
}

fn state(game: &Game) -> (([u8; 16], u8, bool), ([u8; 16], u8, bool)) {
    (
        (
            game.current_player.mashumo.mashumo,
            game.current_player.seeds,
            game.current_player.nyumba,
        ),
        (
            game.other_player.mashumo.mashumo,
            game.other_player.seeds,
            game.other_player.nyumba,
        ),
    )
}

#[test]
fn test_opening_move_takes_a_seed_from_the_reserve() {
    let keys = ZobristKeys::random();
    let mut game = Game::new(&keys);
    let m = Move::namua_relay_left(5);
    assert!(legal_moves(&game).contains(&m));
    game.take_turn(&keys, &m);
    assert_eq!(game.other_player.seeds, 21);
    assert_eq!(
        game.other_player.mashumo.mashumo,
        [0, 0, 1, 1, 7, 0, 2, 0, 0, 0, 0, 0, 0, 0, 0, 0]
    );
    assert_eq!(game.current_player.seeds, 22);
}

#[test]
fn test_turn_that_empties_the_front_row_ends_the_game() {
    let keys = ZobristKeys::random();
    let mut game = game(
        &keys,
        ([0, 0, 0, 1, 0, 0, 0, 0, 0, 0, 0, 0, 0, 0, 0, 0], 5, true),
        ([0, 0, 0, 0, 3, 0, 0, 0, 2, 0, 0, 0, 0, 0, 0, 0], 4, true),
    );
    assert_eq!(legal_moves(&game), vec![Move::new(3, 7), Move::new(3, 6)]);
    game.take_turn(&keys, &Move::new(3, 7));
    // The mover is still the player to move: the sides have not changed.
    assert_eq!(
        state(&game),
        (
            ([0, 0, 0, 2, 0, 1, 1, 1, 0, 0, 0, 0, 0, 0, 0, 0], 4, true),
            ([0, 0, 0, 0, 0, 0, 0, 0, 2, 0, 0, 0, 0, 0, 0, 0], 4, false)
        )
    );
    assert_eq!(game.other_player.mashumo.bitboard, 0);
    // The search scores the position as won for the player who just moved.
    let moves = legal_moves(&game);
    assert_eq!(moves.len(), 8);
    assert_eq!(terminal_score(&game, moves.len()), Some(INFINITY));
}

#[test]
fn test_turn_that_leaves_seeds_in_front_changes_sides() {
    let keys = ZobristKeys::random();
    let mut game = game(
        &keys,
        ([1, 0, 2, 0, 0, 3, 0, 1, 0, 0, 0, 0, 0, 0, 0, 0], 2, true),
        ([4, 0, 1, 0, 2, 0, 0, 1, 1, 0, 0, 0, 0, 0, 0, 0], 2, true),
    );
    assert_eq!(
        legal_moves(&game),
        vec![Move::new(7, 7), Move::new(5, 7), Move::new(5, 6), Move::new(0, 6)]
    );
    let mut other = game;
    game.take_turn(&keys, &Move::new(7, 7));
    assert_eq!(
        state(&game),
        (
            ([0, 0, 1, 0, 2, 0, 0, 1, 1, 0, 0, 0, 0, 0, 0, 0], 2, true),
            ([1, 0, 2, 0, 1, 4, 1, 3, 0, 0, 0, 0, 0, 0, 0, 0], 1, true)
        )
    );
    other.take_turn(&keys, &Move::new(0, 6));
    assert_eq!(
        state(&other),
        (
            ([4, 0, 1, 0, 2, 0, 0, 0, 1, 0, 0, 0, 0, 0, 0, 0], 2, true),
            ([0, 1, 3, 1, 0, 3, 0, 1, 0, 0, 0, 0, 0, 0, 0, 0], 1, true)
        )
    );
}

#[test]
fn test_terminal_scores() {
    let keys = ZobristKeys::random();
    let lost = game(
        &keys,
        ([0, 0, 0, 0, 0, 0, 0, 0, 3, 0, 0, 0, 0, 0, 0, 0], 0, true),
        ([1; 16], 0, true),
    );
    assert_eq!(terminal_score(&lost, 2), Some(NEG_INFINITY));
    let no_moves = Game::new(&keys);
    assert_eq!(terminal_score(&no_moves, 0), Some(NEG_INFINITY));
    assert_eq!(terminal_score(&no_moves, 4), None);
    let won = game(
        &keys,
        ([1; 16], 0, true),
        ([0, 0, 0, 0, 0, 0, 0, 0, 3, 0, 0, 0, 0, 0, 0, 0], 0, true),
    );
    assert_eq!(terminal_score(&won, 2), Some(INFINITY));
    // A player without a front row has lost even if the opponent has none.
    let both = game(&keys, ([0; 16], 0, true), ([0; 16], 0, true));
    assert_eq!(terminal_score(&both, 2), Some(NEG_INFINITY));
}

#[test]
fn test_house_gives_up_two_seeds_in_the_opening() {
    let keys = ZobristKeys::random();
    let mut game = Game::new(&keys);
    let end = game.relay(&keys, 4, Direction::CounterClockwise, true, false);
    assert_eq!(end, 2);
    assert_eq!(
        game.current_player.mashumo.mashumo,
        [0, 0, 1, 1, 5, 2, 2, 0, 0, 0, 0, 0, 0, 0, 0, 0]
    );
    assert_eq!(game.current_player.seeds, 21);
    let mut game = Game::new(&keys);
    let end = game.relay(&keys, 4, Direction::Clockwise, true, false);
    assert_eq!(end, 6);
    assert_eq!(
        game.current_player.mashumo.mashumo,
        [0, 0, 0, 0, 5, 3, 3, 0, 0, 0, 0, 0, 0, 0, 0, 0]
    );
    assert!(game.current_player.nyumba);
}

#[test]
fn test_house_with_one_seed_gives_it_up() {
    let keys = ZobristKeys::random();
    let mut game = game(&keys, ([0; 16], 3, true), ([1; 16], 3, true));
    // The reserve seed is the only seed of the house.
    let end = game.relay(&keys, 4, Direction::Clockwise, true, false);
    assert_eq!(end, 5);
    assert_eq!(
        game.current_player.mashumo.mashumo,
        [0, 0, 0, 0, 0, 1, 0, 0, 0, 0, 0, 0, 0, 0, 0, 0]
    );
    assert_eq!(game.current_player.seeds, 2);
}

#[test]
fn test_emptying_the_house_in_a_capture_turn_breaks_it() {
    let keys = ZobristKeys::random();
    let start = game(
        &keys,
        ([0, 0, 0, 0, 3, 0, 0, 0, 0, 0, 0, 0, 0, 0, 0, 0], 0, true),
        ([1, 1, 1, 1, 1, 1, 1, 1, 0, 0, 0, 0, 0, 0, 0, 0], 0, true),
    );
    let mut safari = start;
    assert_eq!(safari.relay(&keys, 4, Direction::Clockwise, false, true), 7);
    assert_eq!(
        safari.current_player.mashumo.mashumo,
        [0, 0, 0, 0, 0, 1, 1, 1, 0, 0, 0, 0, 0, 0, 0, 0]
    );
    assert!(!safari.current_player.nyumba);
    let mut plain = start;
    assert_eq!(plain.relay(&keys, 4, Direction::Clockwise, false, false), 7);
    assert!(plain.current_player.nyumba);
    // Another pit leaves the house alone.
    let mut elsewhere = start;
    elsewhere.relay(&keys, 3, Direction::Clockwise, false, true);
    assert!(elsewhere.current_player.nyumba);
}

#[test]
fn test_capturing_the_house_breaks_it() {
    let keys = ZobristKeys::random();
    let start = game(
        &keys,
        ([0, 0, 0, 1, 0, 0, 0, 0, 0, 0, 0, 0, 0, 0, 0, 0], 3, true),
        ([0, 1, 0, 0, 5, 0, 0, 0, 0, 0, 0, 0, 0, 0, 0, 0], 3, true),
    );
    let mut opening = start;
    assert_eq!(opening.capture(&keys, 3, Direction::Clockwise, true), 4);
    assert_eq!(
        state(&opening),
        (
            ([1, 1, 1, 3, 1, 0, 0, 0, 0, 0, 0, 0, 0, 0, 0, 0], 2, true),
            ([0, 1, 0, 0, 0, 0, 0, 0, 0, 0, 0, 0, 0, 0, 0, 0], 3, false)
        )
    );
    let mut end_phase = start;
    assert_eq!(end_phase.capture(&keys, 3, Direction::CounterClockwise, false), 3);
    assert_eq!(
        state(&end_phase),
        (
            ([0, 0, 0, 2, 1, 1, 1, 1, 0, 0, 0, 0, 0, 0, 0, 0], 3, true),
            ([0, 1, 0, 0, 0, 0, 0, 0, 0, 0, 0, 0, 0, 0, 0, 0], 3, false)
        )
    );
    // A capture of another pit leaves the house intact.
    let mut other = start;
    other.current_player.mashumo.set_seeds(&keys, 6, 1);
    other.capture(&keys, 6, Direction::Clockwise, false);
    assert!(other.other_player.nyumba);
    assert_eq!(other.other_player.mashumo.mashumo[1], 0);
}

#[test]
fn test_follow_up_moves() {
    let keys = ZobristKeys::random();
    let game = game(
        &keys,
        ([2; 16], 0, true),
        ([1, 0, 1, 0, 1, 0, 1, 0, 0, 0, 0, 0, 0, 0, 0, 0], 0, true),
    );
    let factory = MoveFactory::new(&game);
    let cw = Direction::Clockwise;
    let ccw = Direction::CounterClockwise;
    // In a capture turn a pit that faces seeds captures; at the ends the
    // direction is forced.
    assert_eq!(factory.get_follow_up_move_at_index(1, cw, true), Some(Move::new(1, 12)));
    assert_eq!(factory.get_follow_up_move_at_index(1, ccw, true), Some(Move::new(1, 12)));
    assert_eq!(factory.get_follow_up_move_at_index(3, cw, true), Some(Move::new(3, 13)));
    assert_eq!(factory.get_follow_up_move_at_index(3, ccw, true), Some(Move::new(3, 12)));
    assert_eq!(factory.get_follow_up_move_at_index(5, cw, true), Some(Move::new(5, 13)));
    assert_eq!(factory.get_follow_up_move_at_index(7, ccw, true), Some(Move::new(7, 13)));
    // A pit that faces nothing relays on in the same direction.
    assert_eq!(factory.get_follow_up_move_at_index(0, cw, true), Some(Move::new(0, 9)));
    assert_eq!(factory.get_follow_up_move_at_index(0, ccw, true), Some(Move::new(0, 8)));
    assert_eq!(factory.get_follow_up_move_at_index(12, cw, true), Some(Move::new(12, 9)));
    assert_eq!(factory.get_follow_up_move_at_index(4, cw, true), Some(Move::new(4, 9)));
    // Without a capture at the start nothing captures, and the house stops
    // the chain.
    assert_eq!(factory.get_follow_up_move_at_index(3, cw, false), Some(Move::new(3, 9)));
    assert_eq!(factory.get_follow_up_move_at_index(3, ccw, false), Some(Move::new(3, 8)));
    assert_eq!(factory.get_follow_up_move_at_index(4, cw, false), None);
    assert_eq!(factory.get_follow_up_move_at_index(4, ccw, false), None);
    // A pit of fewer than two seeds ends the chain.
    let thin = Game::new(&keys);
    let factory = MoveFactory::new(&thin);
    assert_eq!(factory.get_follow_up_move_at_index(0, cw, true), None);
    assert_eq!(factory.get_follow_up_move_at_index(7, ccw, false), None);
    assert_eq!(factory.get_follow_up_move_at_index(5, cw, false), Some(Move::new(5, 9)));
}

#[test]
fn test_legal_moves_at_the_start() {
    let keys = ZobristKeys::random();
    let game = Game::new(&keys);
    assert_eq!(
        legal_moves(&game),
        vec![
            Move::namua_relay_right(6),
            Move::namua_relay_left(6),
            Move::namua_relay_right(5),
            Move::namua_relay_left(5)
        ]
    );
}

#[test]
fn test_legal_moves_of_the_opening() {
    let keys = ZobristKeys::random();
    // Only the house can move.
    let only_house = game(
        &keys,
        ([0, 0, 0, 0, 5, 0, 0, 0, 0, 0, 0, 0, 0, 0, 0, 0], 3, true),
        ([0, 0, 0, 0, 0, 0, 1, 0, 0, 0, 0, 0, 0, 0, 0, 0], 0, true),
    );
    assert_eq!(legal_moves(&only_house), vec![Move::new(4, 3), Move::new(4, 2)]);
    // Nothing in front: nothing to move.
    let empty_front = game(
        &keys,
        ([0, 0, 0, 0, 0, 0, 0, 0, 1, 1, 1, 1, 1, 1, 1, 1], 3, true),
        ([0, 0, 0, 0, 0, 0, 1, 0, 0, 0, 0, 0, 0, 0, 0, 0], 0, true),
    );
    assert_eq!(legal_moves(&empty_front), Vec::<Move>::new());
    // Captures everywhere: forced directions at the ends.
    let captures = game(
        &keys,
        ([1, 1, 1, 1, 1, 1, 1, 1, 0, 0, 0, 0, 0, 0, 0, 0], 3, true),
        ([1, 1, 1, 1, 1, 1, 1, 1, 0, 0, 0, 0, 0, 0, 0, 0], 0, true),
    );
    assert_eq!(
        legal_moves(&captures),
        vec![
            Move::new(7, 7),
            Move::new(6, 7),
            Move::new(5, 7),
            Move::new(5, 6),
            Move::new(4, 7),
            Move::new(4, 6),
            Move::new(3, 7),
            Move::new(3, 6),
            Move::new(2, 7),
            Move::new(2, 6),
            Move::new(1, 6),
            Move::new(0, 6)
        ]
    );
}

#[test]
fn test_legal_moves_of_the_end_phase() {
    let keys = ZobristKeys::random();
    // Sowing the two seeds of pit 0 clockwise ends in pit 2, which faces a
    // seeded pit: a capture, and the only legal move.
    let capture = game(
        &keys,
        ([2, 0, 3, 0, 0, 0, 0, 1, 0, 0, 0, 0, 0, 0, 3, 0], 0, true),
        ([1, 0, 0, 0, 0, 1, 0, 0, 0, 0, 0, 0, 0, 0, 0, 0], 0, true),
    );
    assert_eq!(legal_moves(&capture), vec![Move::mtaji_capture_right(0)]);
    // No capture: every pit of two or more seeds relays both ways.
    let relays = game(
        &keys,
        ([2, 0, 3, 0, 0, 0, 0, 1, 0, 0, 0, 0, 0, 0, 3, 0], 0, true),
        ([0, 0, 0, 0, 0, 0, 1, 0, 0, 0, 0, 0, 0, 0, 0, 0], 0, true),
    );
    assert_eq!(
        legal_moves(&relays),
        vec![
            Move::mtaji_relay_right(0),
            Move::mtaji_relay_left(0),
            Move::mtaji_relay_right(2),
            Move::mtaji_relay_left(2),
            Move::mtaji_relay_right(14),
            Move::mtaji_relay_left(14)
        ]
    );
    // Thirty-two moves at most.
    let full = game(&keys, ([2; 16], 0, true), ([0; 16], 0, true));
    assert_eq!(legal_moves(&full).len(), 32);
}

#[test]
fn test_which_moves_a_game_accepts() {
    let keys = ZobristKeys::random();
    let game = Game::new(&keys);
    assert!(game.accepts(&Move::namua_relay_left(5)));
    assert!(game.accepts(&Move::mtaji_relay_left(15)));
    assert!(game.accepts(&Move::namua_capture_left(7)));
    assert!(!game.accepts(&Move::mtaji_capture_left(8)));
    assert!(!game.accepts(&Move::new(16, 0)));
    assert!(!game.accepts(&Move::new(-1, 0)));
    let mut spent = game;
    spent.current_player.seeds = 0;
    assert!(!spent.accepts(&Move::namua_relay_left(5)));
    assert!(spent.accepts(&Move::mtaji_relay_left(5)));
}

#[test]
fn test_seeds_are_conserved() {
    let keys = ZobristKeys::random();
    let mut game = Game::new(&keys);
    for _ in 0..60 {
        let moves = legal_moves(&game);
        let Some(m) = moves.iter().find(|m| game.accepts(m)) else {
            break;
        };
        game.take_turn(&keys, m);
        let on_board: u32 = game
            .current_player
            .mashumo
            .mashumo
            .iter()
            .chain(game.other_player.mashumo.mashumo.iter())
            .map(|seeds| *seeds as u32)
            .sum();
        assert_eq!(
            on_board + game.current_player.seeds as u32 + game.other_player.seeds as u32,
            64
        );
        if game.other_player.mashumo.bitboard == 0 {
            break;
        }
    }
}
