use tic_tac_toe::game::Game;

#[test]
fn game_board_initialized() {
    let game: Game = Game::new("Me", "my dog");
    assert_eq!(game.board.len(), 9);
    assert_eq!(game.winner.repr, 0);
}

#[test]
fn test_win_conditions() {
    let mut game: Game = Game::new("Me", "my dog");
    game.board[0] = 1;
    game.board[4] = 1;
    game.board[8] = 1;
    game.is_game_over();
    assert_eq!(game.winner.repr, 1);
}
