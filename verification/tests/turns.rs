use tic_tac_toe::game::Game;
use tic_tac_toe::turn::{outcome, parse_move, take_turn, MoveError, Outcome, Participant};

#[test]
fn participants_alternate() {
    assert_eq!(Participant::One.repr(), 1);
    assert_eq!(Participant::Two.repr(), 2);
    assert_eq!(Participant::One.other(), Participant::Two);
    assert_eq!(Participant::Two.other(), Participant::One);
}

#[test]
fn typed_line_names_a_cell() {
    assert_eq!(parse_move("4"), Ok(4));
    assert_eq!(parse_move(" 4\n"), Ok(4));
    assert_eq!(parse_move("0\r\n"), Ok(0));
    assert_eq!(parse_move("\t+8 "), Ok(8));
    assert_eq!(parse_move("9"), Ok(9));
    assert_eq!(parse_move("12\n"), Ok(12));
}

#[test]
fn line_that_is_no_number_is_malformed() {
    assert_eq!(parse_move(""), Err(MoveError::MalformedInput));
    assert_eq!(parse_move("\n"), Err(MoveError::MalformedInput));
    assert_eq!(parse_move("four"), Err(MoveError::MalformedInput));
    assert_eq!(parse_move("-1"), Err(MoveError::MalformedInput));
    assert_eq!(parse_move("4 5"), Err(MoveError::MalformedInput));
    assert_eq!(parse_move("4.5"), Err(MoveError::MalformedInput));
    assert_eq!(
        parse_move("340282366920938463463374607431768211456"),
        Err(MoveError::MalformedInput)
    );
}

#[test]
fn accepted_turn_places_the_mover_and_passes_the_turn() {
    let mut game = Game::new("Ann", "Bob");
    assert_eq!(take_turn(&mut game, Participant::One, "4\n"), Ok(Participant::Two));
    assert_eq!(game.board, vec![0, 0, 0, 0, 1, 0, 0, 0, 0]);
    assert_eq!(take_turn(&mut game, Participant::Two, " 0 \n"), Ok(Participant::One));
    assert_eq!(game.board, vec![2, 0, 0, 0, 1, 0, 0, 0, 0]);
    assert_eq!(game.winner.repr, 0);
}

#[test]
fn occupied_cell_is_an_illegal_move() {
    let mut game = Game::new("Ann", "Bob");
    assert_eq!(take_turn(&mut game, Participant::One, "4"), Ok(Participant::Two));
    assert_eq!(take_turn(&mut game, Participant::Two, "4"), Err(MoveError::IllegalMove));
    assert_eq!(take_turn(&mut game, Participant::One, "4"), Err(MoveError::IllegalMove));
    assert_eq!(game.board, vec![0, 0, 0, 0, 1, 0, 0, 0, 0]);
}

#[test]
fn position_nine_is_an_illegal_move() {
    let mut game = Game::new("Ann", "Bob");
    assert_eq!(take_turn(&mut game, Participant::One, "9\n"), Err(MoveError::IllegalMove));
    assert_eq!(game.board, vec![0u8; 9]);
    assert_eq!(take_turn(&mut game, Participant::One, "100"), Err(MoveError::IllegalMove));
    assert_eq!(
        take_turn(&mut game, Participant::Two, &usize::MAX.to_string()),
        Err(MoveError::IllegalMove)
    );
    assert_eq!(game.board, vec![0u8; 9]);
    assert_eq!(game.winner.repr, 0);
}

#[test]
fn malformed_line_changes_nothing() {
    let mut game = Game::new("Ann", "Bob");
    assert_eq!(take_turn(&mut game, Participant::One, "0"), Ok(Participant::Two));
    assert_eq!(take_turn(&mut game, Participant::Two, "top left"), Err(MoveError::MalformedInput));
    assert_eq!(take_turn(&mut game, Participant::Two, ""), Err(MoveError::MalformedInput));
    assert_eq!(take_turn(&mut game, Participant::Two, "-3"), Err(MoveError::MalformedInput));
    assert_eq!(game.board, vec![1, 0, 0, 0, 0, 0, 0, 0, 0]);
}

#[test]
fn match_played_line_by_line() {
    let mut game = Game::new("Ann", "Bob");
    let mut mover = Participant::One;
    let lines = ["0\n", "0\n", "zero\n", "1\n", "4\n", "9\n", "2\n", "8\n"];
    let mut asked = 0;
    while !game.is_game_over() {
        match take_turn(&mut game, mover, lines[asked]) {
            Ok(next) => mover = next,
            Err(_) => {}
        }
        asked += 1;
    }
    assert_eq!(asked, 8);
    assert_eq!(mover, Participant::Two);
    assert_eq!(game.board, vec![1, 2, 2, 0, 1, 0, 0, 0, 1]);
    assert_eq!(outcome(&game), Outcome::PlayerOneWins);
    assert_eq!(game.winner.name, "Ann");
}

#[test]
fn outcome_follows_the_recorded_winner() {
    let mut game = Game::new("Ann", "Bob");
    assert_eq!(outcome(&game), Outcome::Tie);
    game.board = vec![1, 2, 1, 1, 2, 2, 2, 1, 1];
    assert!(game.is_game_over());
    assert_eq!(outcome(&game), Outcome::Tie);
    let mut second = Game::new("Ann", "Bob");
    second.board = vec![1, 1, 0, 2, 2, 2, 0, 1, 0];
    assert!(second.is_game_over());
    assert_eq!(outcome(&second), Outcome::PlayerTwoWins);
    let mut first = Game::new("Ann", "Bob");
    first.board = vec![1, 2, 0, 1, 2, 0, 1, 0, 0];
    assert!(first.is_game_over());
    assert_eq!(outcome(&first), Outcome::PlayerOneWins);
}
