//! The state of one match and the rules that change it.

use vstd::prelude::*;
use crate::board::{
    empty_board, is_full, is_over, lemma_first_owner, lemma_lines_on_board, lemma_no_owner,
    line_owner, line_winner, owner_of_line, owns_a_line, valid_board, CELLS, LINES,
};
use crate::player::{placeholder, Player, PlayerView};

verus! {

/// The mathematical value of a [`Game`].
pub struct GameView {
    pub winner: PlayerView,
    pub players: Seq<PlayerView>,
    pub board: Seq<u8>,
}

impl GameView {
    /// The match before the first move: the placeholder and the two named
    /// participants, an empty board, nobody has won.
    pub open spec fn start(first: Seq<char>, second: Seq<char>) -> GameView {
        GameView {
            winner: placeholder(),
            players: seq![
                placeholder(),
                PlayerView { name: first, piece: 'X', repr: 1 },
                PlayerView { name: second, piece: 'O', repr: 2 },
            ],
            board: empty_board(),
        }
    }

    /// The invariant of a match.
    ///
    /// The board has nine cells that hold 0, 1 or 2. There is one
    /// participant for each identifier, found at that index. The winner is
    /// one of the participants, and unless it is the placeholder it holds a
    /// complete line on the board.
    pub open spec fn wf(self) -> bool {
        &&& valid_board(self.board)
        &&& self.players.len() == 3
        &&& forall|i: int| 0 <= i < 3 ==> (#[trigger] self.players[i]).repr == i
        &&& self.winner.repr <= 2
        &&& self.winner == self.players[self.winner.repr as int]
        &&& self.winner.repr != 0 ==> owns_a_line(self.board, self.winner.repr)
    }

    /// A move to `location` is legal: the cell exists and is empty.
    pub open spec fn accepts(self, location: int) -> bool {
        0 <= location < self.board.len() && self.board[location] == 0
    }

    /// The match after participant `repr` has occupied cell `location`.
    pub open spec fn place(self, repr: u8, location: int) -> GameView {
        GameView { board: self.board.update(location, repr), ..self }
    }

    /// The match with participant `repr` recorded as its winner.
    pub open spec fn with_winner(self, repr: u8) -> GameView {
        GameView { winner: self.players[repr as int], ..self }
    }

    /// The marker shown for cell `cell`: that of the participant whose
    /// identifier the cell holds.
    pub open spec fn piece_at(self, cell: int) -> char {
        self.players[self.board[cell] as int].piece
    }

    /// The markers of row `row`, from left to right.
    pub open spec fn row_pieces(self, row: int) -> Seq<char> {
        Seq::new(3, |col: int| self.piece_at(3 * row + col))
    }

    /// The match after its board has been examined: if nobody was recorded
    /// as the winner and a participant has won on the board, that
    /// participant is recorded; a winner recorded before stays.
    pub open spec fn settled(self) -> GameView {
        if self.winner.repr == 0 && line_winner(self.board) != 0 {
            self.with_winner(line_winner(self.board))
        } else {
            self
        }
    }
}

/// One match: the participants, the board, and the winner so far.
///
/// `players[0]` is the placeholder, `players[1]` and `players[2]` are the
/// two participants. `winner` is the placeholder until a participant has
/// won.
#[derive(Debug)]
pub struct Game {
    pub winner: Player,
    pub players: Vec<Player>,
    pub board: Vec<u8>,
}

impl View for Game {
    type V = GameView;

    open spec fn view(&self) -> GameView {
        GameView {
            winner: self.winner@,
            players: self.players@.map_values(|p: Player| p@),
            board: self.board@,
        }
    }
}

impl Game {
    /// A new match between two participants with the given names. The first
    /// plays `X`, the second `O`.
    pub fn new(p1: &str, p2: &str) -> (game: Self)
        ensures
            game@ == GameView::start(p1@, p2@),
            game@.wf(),
    {
        let default_player: Player = Default::default();
        let game = Self {
            players: vec![
                default_player.clone(),
                Player::new(p1.to_owned(), 'X', 1),
                Player::new(p2.to_owned(), 'O', 2),
            ],
            board: vec![0; 9],
            winner: default_player,
        };
        assert(game@.players =~= GameView::start(p1@, p2@).players);
        assert(game@.board =~= empty_board());
        game
    }

    /// Records participant `repr` as the winner of the match.
    ///
    /// A winner is recorded once, and only for a participant that holds a
    /// complete line.
    pub fn set_winner(&mut self, repr: u8)
        requires
            old(self)@.wf(),
            old(self)@.winner.repr == 0,
            repr != 0,
            owns_a_line(old(self)@.board, repr),
        ensures
            final(self)@ == old(self)@.with_winner(repr),
            final(self)@.wf(),
    {
        proof {
            let k = choose|k: int| 0 <= k < LINES && #[trigger] line_owner(self@.board, k) == repr;
            lemma_lines_on_board(k);
            assert(self@.players[repr as int] == self.players@[repr as int]@);
        }
        self.winner = self.players[repr as usize].clone();
    }

    /// Whether a move to `location` is legal: the cell exists and is empty.
    pub fn _is_a_valid_move(&self, location: &usize) -> (ok: bool)
        ensures
            ok == self@.accepts(*location as int),
    {
        *location < self.board.len() && self.board[*location] == 0
    }

    /// Participant `player_repr` moves to cell `location`.
    ///
    /// A legal move occupies that cell and nothing else, and is answered
    /// with `Some(true)`. A move to an occupied cell or to a cell that does
    /// not exist is answered with `None` and changes nothing.
    pub fn make_move(&mut self, player_repr: u8, location: usize) -> (accepted: Option<bool>)
        requires
            old(self)@.wf(),
            player_repr == 1 || player_repr == 2,
        ensures
            final(self)@.wf(),
            old(self)@.accepts(location as int) ==> accepted == Some(true) && final(self)@ == old(
                self,
            )@.place(player_repr, location as int),
            !old(self)@.accepts(location as int) ==> accepted.is_none() && *final(self) == *old(
                self,
            ),
    {
        if self._is_a_valid_move(&location) == false {
            return None
        } else {
            self.board[location] = player_repr;
            proof {
                let before = old(self)@;
                if before.winner.repr != 0 {
                    let k = choose|k: int|
                        0 <= k < LINES && #[trigger] line_owner(before.board, k)
                            == before.winner.repr;
                    lemma_lines_on_board(k);
                    assert(line_owner(self@.board, k) == before.winner.repr);
                }
            }
            return Some(true)
        }
    }

    /// Examines the board and tells whether the match is over: a
    /// participant holds a complete line, or no cell is empty.
    ///
    /// The first complete line in the order of examination decides the
    /// winner. It is recorded in the match if nobody was recorded before; a
    /// recorded winner is never replaced.
    pub fn is_game_over(&mut self) -> (ended: bool)
        requires
            old(self)@.wf(),
        ensures
            ended == is_over(old(self)@.board),
            final(self)@ == old(self)@.settled(),
            final(self)@.wf(),
    {
        let mut k: usize = 0;
        while k < LINES
            invariant
                k <= LINES,
                *self == *old(self),
                self@.wf(),
                forall|j: int| 0 <= j < k ==> line_owner(self@.board, j) == 0,
            decreases LINES - k,
        {
            let owner = owner_of_line(&self.board, k);
            if owner != 0 {
                proof {
                    lemma_first_owner(self@.board, 0, k as int);
                }
                if self.winner.repr == 0 {
                    self.set_winner(owner);
                }
                return true;
            }
            k += 1;
        }
        proof {
            lemma_no_owner(self@.board, 0);
        }
        let mut i: usize = 0;
        while i < CELLS
            invariant
                i <= CELLS,
                *self == *old(self),
                self@.wf(),
                line_winner(self@.board) == 0,
                forall|j: int| 0 <= j < i ==> self@.board[j] != 0,
            decreases CELLS - i,
        {
            if self.board[i] == 0 {
                return false;
            }
            i += 1;
        }
        true
    }

    /// The board as it is shown: three rows of three markers.
    pub fn piece_rows(&self) -> (rows: Vec<Vec<char>>)
        requires
            self@.wf(),
        ensures
            rows@.len() == 3,
            forall|row: int| 0 <= row < 3 ==> (#[trigger] rows@[row])@ == self@.row_pieces(row),
    {
        let mut rows: Vec<Vec<char>> = Vec::new();
        let mut row: usize = 0;
        while row < 3
            invariant
                row <= 3,
                self@.wf(),
                rows@.len() == row,
                forall|r: int| 0 <= r < row ==> (#[trigger] rows@[r])@ == self@.row_pieces(r),
            decreases 3 - row,
        {
            let mut pieces: Vec<char> = Vec::new();
            let mut col: usize = 0;
            while col < 3
                invariant
                    row < 3,
                    col <= 3,
                    self@.wf(),
                    pieces@.len() == col,
                    forall|c: int| 0 <= c < col ==> pieces@[c] == self@.piece_at(3 * row + c),
                decreases 3 - col,
            {
                let owner = self.board[3 * row + col];
                assert(self@.players[owner as int] == self.players@[owner as int]@);
                pieces.push(self.players[owner as usize].piece);
                col += 1;
            }
            assert(pieces@ =~= self@.row_pieces(row as int));
            rows.push(pieces);
            row += 1;
        }
        rows
    }

    /// Whether this value is a well-formed match. Every operation of the
    /// rules keeps a match well formed; this is for values whose fields
    /// were written by hand.
    pub fn is_well_formed(&self) -> (ok: bool)
        ensures
            ok == self@.wf(),
    {
        if self.board.len() != CELLS || self.players.len() != 3 {
            return false;
        }
        let mut i: usize = 0;
        while i < CELLS
            invariant
                i <= CELLS,
                self.board@.len() == CELLS,
                forall|j: int| 0 <= j < i ==> self.board@[j] <= 2,
            decreases CELLS - i,
        {
            if self.board[i] > 2 {
                return false;
            }
            i += 1;
        }
        let mut p: usize = 0;
        while p < 3
            invariant
                p <= 3,
                self.players@.len() == 3,
                forall|j: int| 0 <= j < p ==> (#[trigger] self@.players[j]).repr == j,
            decreases 3 - p,
        {
            assert(self@.players[p as int] == self.players@[p as int]@);
            if self.players[p].repr != p as u8 {
                return false;
            }
            p += 1;
        }
        let id = self.winner.repr;
        if id > 2 {
            return false;
        }
        let listed = &self.players[id as usize];
        assert(self@.players[id as int] == listed@);
        if !(self.winner.name == listed.name && self.winner.piece == listed.piece) {
            return false;
        }
        if id == 0 {
            return true;
        }
        assert(self@.wf() <==> owns_a_line(self@.board, id));
        let mut k: usize = 0;
        while k < LINES
            invariant
                k <= LINES,
                self.board@.len() == CELLS,
                self@.wf() <==> owns_a_line(self@.board, id),
                forall|j: int| 0 <= j < k ==> line_owner(self.board@, j) != id,
            decreases LINES - k,
        {
            if owner_of_line(&self.board, k) == id {
                return true;
            }
            k += 1;
        }
        false
    }
}

/// The first complete line decides: if a participant holds line `k` and no
/// line examined before `k` is complete, the match is over and examining it
/// records that participant as the winner.
///
/// A winner that was recorded earlier is never replaced, so this is stated
/// of a match whose recorded winner is still the placeholder or is that
/// same participant.
pub proof fn lemma_first_complete_line_decides(game: GameView, k: int)
    requires
        game.wf(),
        0 <= k < LINES,
        line_owner(game.board, k) != 0,
        forall|j: int| 0 <= j < k ==> line_owner(game.board, j) == 0,
        game.winner.repr == 0 || game.winner.repr == line_owner(game.board, k),
    ensures
        is_over(game.board),
        line_winner(game.board) == line_owner(game.board, k),
        game.settled().winner.repr == line_owner(game.board, k),
        game.settled().wf(),
{
    lemma_first_owner(game.board, 0, k);
    lemma_lines_on_board(k);
}

/// A board without an empty cell and without a complete line ends the match
/// in a tie: the match is over, and the winner stays the placeholder.
pub proof fn lemma_full_board_without_line_is_a_tie(game: GameView)
    requires
        game.wf(),
        is_full(game.board),
        forall|k: int| 0 <= k < LINES ==> line_owner(game.board, k) == 0,
    ensures
        is_over(game.board),
        game.settled() == game,
        game.settled().winner.repr == 0,
{
    lemma_no_owner(game.board, 0);
}

/// A board with an empty cell and without a complete line leaves the match
/// open, and examining it changes nothing.
pub proof fn lemma_open_board_goes_on(game: GameView, cell: int)
    requires
        game.wf(),
        0 <= cell < CELLS,
        game.board[cell] == 0,
        forall|k: int| 0 <= k < LINES ==> line_owner(game.board, k) == 0,
    ensures
        !is_over(game.board),
        game.settled() == game,
{
    lemma_no_owner(game.board, 0);
}

/// Once a winner is recorded, neither a move nor another examination
/// replaces it.
pub proof fn lemma_recorded_winner_stays(game: GameView, repr: u8, location: int)
    requires
        game.wf(),
        game.winner.repr != 0,
    ensures
        game.settled() == game,
        game.place(repr, location).winner == game.winner,
        game.place(repr, location).settled().winner == game.winner,
{
}

} // verus!
