use board_brain::games::connect4spin::Game;
use board_brain::games::notation::is_whitespace;
use board_brain::games::notation::parse_move;
use board_brain::games::notation::NotationError;
use board_brain::games::BoardGame;
use board_brain::games::Move;
use board_brain::games::Player;
use board_brain::text::push_decimal;

#[test]
fn letter_is_the_column_and_digit_the_row() {
    assert_eq!(parse_move("d3", 5, 8), Ok(Move(3, 2)));
    assert_eq!(parse_move("a1", 5, 8), Ok(Move(0, 0)));
    assert_eq!(parse_move("e8", 5, 8), Ok(Move(4, 7)));
}

#[test]
fn white_space_around_the_move_is_dropped() {
    assert_eq!(parse_move("d3\n", 5, 8), Ok(Move(3, 2)));
    assert_eq!(parse_move("  \t b2 \r\n", 5, 8), Ok(Move(1, 1)));
    assert_eq!(parse_move("\u{2003}c4\u{a0}", 5, 8), Ok(Move(2, 3)));
}

#[test]
fn only_the_first_two_characters_are_read() {
    assert_eq!(parse_move("d3 please", 5, 8), Ok(Move(3, 2)));
    assert_eq!(parse_move("b12", 5, 8), Ok(Move(1, 0)));
}

#[test]
fn fewer_than_two_characters_are_not_a_move() {
    assert_eq!(parse_move("", 5, 8), Err(NotationError::NotFormatted));
    assert_eq!(parse_move("   \n", 5, 8), Err(NotationError::NotFormatted));
    assert_eq!(parse_move("d", 5, 8), Err(NotationError::NotFormatted));
    assert_eq!(parse_move(" d \n", 5, 8), Err(NotationError::NotFormatted));
}

#[test]
fn move_off_the_board_is_refused() {
    assert_eq!(parse_move("f1", 5, 8), Err(NotationError::OffBoard('f', '1')));
    assert_eq!(parse_move("a9", 5, 8), Err(NotationError::OffBoard('a', '9')));
    assert_eq!(parse_move("a0", 5, 8), Err(NotationError::OffBoard('a', '0')));
    assert_eq!(parse_move("A1", 5, 8), Err(NotationError::OffBoard('A', '1')));
    assert_eq!(parse_move("3d", 5, 8), Err(NotationError::OffBoard('3', 'd')));
    assert_eq!(parse_move("a b", 5, 8), Err(NotationError::OffBoard('a', ' ')));
    assert_eq!(parse_move("a1", 0, 0), Err(NotationError::OffBoard('a', '1')));
}

#[test]
fn larger_boards_go_on_after_the_last_letter_and_digit() {
    assert_eq!(parse_move("f1", 7, 6), Ok(Move(5, 0)));
    assert_eq!(parse_move("a:", 5, 10), Ok(Move(0, 9)));
    assert_eq!(parse_move("{1", 27, 4), Ok(Move(26, 0)));
}

#[test]
fn parsed_move_is_never_out_of_bounds() {
    let game = Game::new();
    for first in 0u8..128 {
        for second in 0u8..128 {
            let text: String = [first as char, second as char].iter().collect();
            if let Ok(m) = parse_move(&text, 5, 8) {
                assert!(m.0 < 5 && m.1 < 8);
                assert!(!game.is_move_oob(m));
            }
        }
    }
}

#[test]
fn white_space_is_what_the_standard_library_calls_so() {
    for code in 0u32..0x11000 {
        if let Some(c) = char::from_u32(code) {
            assert_eq!(is_whitespace(c), c.is_whitespace(), "code {code:#x}");
        }
    }
    assert!(!is_whitespace('\u{10FFFF}'));
}

#[test]
fn trimming_agrees_with_the_standard_library() {
    for text in ["  d3  ", "\u{3000}e5x\u{2028}", "\u{85}\u{1680}a2", "c\u{205f}", "\u{200b}a1"] {
        let trimmed: Vec<char> = text.trim().chars().collect();
        let expected = if trimmed.len() < 2 {
            Err(NotationError::NotFormatted)
        } else {
            let x = (trimmed[0] as i64) - 97;
            let y = (trimmed[1] as i64) - 49;
            if (0..5).contains(&x) && (0..8).contains(&y) {
                Ok(Move(x as usize, y as usize))
            } else {
                Err(NotationError::OffBoard(trimmed[0], trimmed[1]))
            }
        };
        assert_eq!(parse_move(text, 5, 8), expected, "text {text:?}");
    }
}

#[test]
fn numbers_are_written_in_decimal() {
    for (n, expected) in [(0usize, "0"), (7, "7"), (10, "10"), (409, "409"), (65536, "65536")] {
        let mut text = String::from("n=");
        push_decimal(&mut text, n);
        assert_eq!(text, format!("n={expected}"));
    }
    let mut text = String::new();
    push_decimal(&mut text, usize::MAX);
    assert_eq!(text, format!("{}", usize::MAX));
}

#[test]
fn empty_board_is_drawn_in_green() {
    let game = Game::new();
    let mut expected = String::new();
    for y in 1..=8 {
        expected.push_str(&format!("{y}🟩🟩🟩🟩🟩\n"));
    }
    expected.push_str(" a b c d e ");
    assert_eq!(game.render(), expected);
}

#[test]
fn pieces_are_drawn_where_they_lie() {
    let mut board = vec![Player::Empty; 24];
    board[0] = Player::One;
    board[5] = Player::Two;
    board[23] = Player::One;
    let game = Game::from_parts(4, 6, board, Player::Two).unwrap();
    let expected = "1🔵🟩🟩🟩\n2🟩🔴🟩🟩\n3🟩🟩🟩🟩\n4🟩🟩🟩🟩\n5🟩🟩🟩🟩\n6🟩🟩🟩🔵\n a b c d ";
    assert_eq!(game.render(), expected);
}

#[test]
fn rows_beyond_the_ninth_take_two_digits() {
    let game = Game::with_dimensions(4, 11).unwrap();
    let drawn = game.render();
    let lines: Vec<&str> = drawn.split('\n').collect();
    assert_eq!(lines.len(), 12);
    assert_eq!(lines[8], "9🟩🟩🟩🟩");
    assert_eq!(lines[9], "10🟩🟩🟩🟩");
    assert_eq!(lines[10], "11🟩🟩🟩🟩");
    assert_eq!(lines[11], " a b c d ");
}

#[test]
fn drawing_follows_the_moves() {
    let mut game = Game::new();
    assert_eq!(game.play_with_spin(Move(3, 2), false), Ok(None));
    assert_eq!(game.play_with_spin(Move(0, 0), true), Ok(None));
    let drawn = game.render();
    let lines: Vec<&str> = drawn.split('\n').collect();
    assert_eq!(lines[2], "3🟩🟩🟩🔵🟩");
    assert_eq!(lines[0], "1🟩🟩🟩🟩🟩");
    assert_eq!(lines[7], "8🔴🟩🟩🟩🟩");
}
