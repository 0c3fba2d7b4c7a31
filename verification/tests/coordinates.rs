use board_brain::games::connect4spin::space_count;
use board_brain::games::connect4spin::Game;
use board_brain::games::connect4spin::BOARD_COLUMNS;
use board_brain::games::connect4spin::BOARD_ROWS;
use board_brain::games::BoardGame;
use board_brain::games::Move;
use board_brain::games::Player;
use board_brain::Named;

#[test]
fn linear_index_is_x_plus_y_times_columns() {
    assert_eq!(Move(0, 0).to_1d(5), 0);
    assert_eq!(Move(3, 0).to_1d(5), 3);
    assert_eq!(Move(3, 2).to_1d(5), 13);
    assert_eq!(Move(4, 7).to_1d(5), 39);
    assert_eq!(Move(2, 3).to_1d(7), 23);
}

#[test]
fn coordinate_of_linear_index() {
    assert_eq!(Move::from_1d(0, 5), Move(0, 0));
    assert_eq!(Move::from_1d(13, 5), Move(3, 2));
    assert_eq!(Move::from_1d(39, 5), Move(4, 7));
    assert_eq!(Move::from_1d(23, 7), Move(2, 3));
    assert_eq!(Move::from_1d(6, 1), Move(0, 6));
}

#[test]
fn round_trip_over_whole_boards() {
    for (columns, rows) in [(1usize, 1usize), (1, 9), (5, 8), (7, 6), (4, 4), (13, 3)] {
        for index in 0..columns * rows {
            let m = Move::from_1d(index, columns);
            assert!(m.0 < columns);
            assert!(m.1 < rows);
            assert_eq!(m.to_1d(columns), index);
        }
    }
}

#[test]
fn flip_swaps_the_players_and_keeps_empty() {
    assert_eq!(Player::One.flip(), Player::Two);
    assert_eq!(Player::Two.flip(), Player::One);
    assert_eq!(Player::Empty.flip(), Player::Empty);
    assert_eq!(Player::One.flip().flip(), Player::One);
    assert_eq!(Player::Two.flip().flip(), Player::Two);
}

#[test]
fn owners_have_the_codes_zero_one_two() {
    assert_eq!(u8::from(Player::Empty), 0);
    assert_eq!(u8::from(Player::One), 1);
    assert_eq!(u8::from(Player::Two), 2);
    let code: u8 = Player::Two.into();
    assert_eq!(code, 2);
}

#[test]
fn customary_board_has_forty_spaces() {
    assert_eq!(BOARD_COLUMNS, 5);
    assert_eq!(BOARD_ROWS, 8);
    assert_eq!(space_count(), 40);
    let game = Game::new();
    assert_eq!(game.columns(), 5);
    assert_eq!(game.rows(), 8);
    assert_eq!(game.space_count(), 40);
    assert_eq!(game.get_board().len(), 40);
}

#[test]
fn game_is_known_by_its_name() {
    assert_eq!(Game::NAME, "connect-4-spin");
}

#[test]
fn linear_index_beyond_the_board_is_out_of_bounds() {
    let game = Game::new();
    assert!(!game.is_move_oob(Move(0, 0)));
    assert!(!game.is_move_oob(Move(4, 7)));
    assert!(game.is_move_oob(Move(0, 8)));
    assert!(game.is_move_oob(Move(5, 7)));
    assert!(!game.is_move_oob(Move(5, 6)));
    assert!(!game.is_move_oob(Move(39, 0)));
    assert!(game.is_move_oob(Move(40, 0)));
    assert!(game.is_move_oob(Move(usize::MAX, usize::MAX)));
    assert!(game.is_move_oob(Move(0, usize::MAX)));
    assert!(game.is_move_oob(Move(usize::MAX, 0)));
}

#[test]
fn emptiness_of_a_space() {
    assert!(Game::is_space_empty(&Player::Empty));
    assert!(!Game::is_space_empty(&Player::One));
    assert!(!Game::is_space_empty(&Player::Two));
}
