use board_brain::games::connect4spin::Game;
use board_brain::games::BoardGame;
use board_brain::games::Connect4Spin;
use board_brain::games::Move;

#[test]
fn c4spin_test() {
    let mut game = Game::new();
    let player1_moves = [Move(0, 0)];
    let player2_moves = [Move(0, 1)];
    for player_move in player1_moves
        .chunks(1)
        .zip(player2_moves.chunks(1))
        .flat_map(|(a, b)| a.into_iter().chain(b))
    {
        match game.play(*player_move) {
            Ok(Some(_)) => break,
            Ok(None) => continue,
            Err(err) => {
                let err = format!("{:?}", err);
                panic!("{err}")
            }
        }
    }
}

#[test]
fn game_test() {
    let mut game = Connect4Spin::new();
    let player1_moves = [Move(0, 0)];
    let player2_moves = [Move(0, 1)];
    for player_move in player1_moves
        .chunks(1)
        .zip(player2_moves.chunks(1))
        .flat_map(|(a, b)| a.into_iter().chain(b))
    {
        match game.play(*player_move) {
            Ok(Some(_)) => break,
            Ok(None) => continue,
            Err(err) => {
                let err = format!("{:?}", err);
                panic!("{err}")
            }
        }
    }
}

#[test]
fn connect4spin_test() {
    let mut game = Game::new();
    let player1_moves = [Move(0, 0)];
    let player2_moves = [Move(0, 1)];
    for player_move in player1_moves
        .chunks(1)
        .zip(player2_moves.chunks(1))
        .flat_map(|(a, b)| a.into_iter().chain(b))
    {
        match game.play(*player_move) {
            Ok(Some(_)) => break,
            Ok(None) => continue,
            Err(err) => {
                let err = format!("{:?}", err);
                panic!("{err}")
            }
        }
    }
}
