//! The turn controller: whose move it is, what a typed line asks for, and
//! how a match ends.
//!
//! The controller decides; it neither reads nor prints. Its caller shows
//! the board, asks the participant whose move it is for a line, hands the
//! line to [`take_turn`], and goes on with the participant that comes back,
//! until [`Game::is_game_over`] says that the match is over.

use vstd::prelude::*;
use crate::game::{Game, GameView};
use crate::input::{decimal_usize, parse_decimal, trim, trimmed};

verus! {

/// Why a typed line did not become a move. The match is as it was, and the
/// same participant is asked again.
#[derive(Clone, Copy, Debug, PartialEq, Eq, Structural)]
pub enum MoveError {
    /// The line does not name a cell: it is not a number.
    MalformedInput,
    /// The line names a cell that is occupied or that is not on the board.
    IllegalMove,
}

/// One of the two participants that move.
#[derive(Clone, Copy, Debug, PartialEq, Eq, Structural)]
pub enum Participant {
    One,
    Two,
}

/// How a match has ended.
#[derive(Clone, Copy, Debug, PartialEq, Eq, Structural)]
pub enum Outcome {
    PlayerOneWins,
    PlayerTwoWins,
    Tie,
}

impl Participant {
    /// The identifier that this participant writes into its cells.
    pub open spec fn spec_repr(self) -> u8 {
        match self {
            Participant::One => 1,
            Participant::Two => 2,
        }
    }

    /// The participant that moves after this one.
    pub open spec fn spec_other(self) -> Participant {
        match self {
            Participant::One => Participant::Two,
            Participant::Two => Participant::One,
        }
    }

    /// The identifier that this participant writes into its cells.
    #[verifier::when_used_as_spec(spec_repr)]
    pub fn repr(self) -> (id: u8)
        ensures
            id == self.spec_repr(),
    {
        match self {
            Participant::One => 1,
            Participant::Two => 2,
        }
    }

    /// The participant that moves after this one.
    #[verifier::when_used_as_spec(spec_other)]
    pub fn other(self) -> (next: Participant)
        ensures
            next == self.spec_other(),
    {
        match self {
            Participant::One => Participant::Two,
            Participant::Two => Participant::One,
        }
    }
}

/// The cell that a typed line names: the number it writes once the white
/// space around it is gone, if it writes one.
pub open spec fn entered_position(line: Seq<char>) -> Option<usize> {
    decimal_usize(trimmed(line))
}

/// What becomes of a match when `mover` submits `line`: the match after
/// it, and the participant that moves next or the reason why nothing was
/// done.
pub open spec fn turn_taken(game: GameView, mover: Participant, line: Seq<char>) -> (
    GameView,
    Result<Participant, MoveError>,
) {
    match entered_position(line) {
        None => (game, Err(MoveError::MalformedInput)),
        Some(position) => if game.accepts(position as int) {
            (game.place(mover.spec_repr(), position as int), Ok(mover.spec_other()))
        } else {
            (game, Err(MoveError::IllegalMove))
        },
    }
}

/// The outcome that a match with this winner has.
pub open spec fn outcome_of(game: GameView) -> Outcome {
    if game.winner.repr == 1 {
        Outcome::PlayerOneWins
    } else if game.winner.repr == 2 {
        Outcome::PlayerTwoWins
    } else {
        Outcome::Tie
    }
}

/// Reads the cell that a typed line names.
pub fn parse_move(line: &str) -> (position: Result<usize, MoveError>)
    ensures
        position == match entered_position(line@) {
            Some(cell) => Ok::<usize, MoveError>(cell),
            None => Err(MoveError::MalformedInput),
        },
{
    match parse_decimal(trim(line)) {
        Some(cell) => Ok(cell),
        None => Err(MoveError::MalformedInput),
    }
}

/// One turn: `mover` has typed `line`.
///
/// If the line names an empty cell of the board, `mover` occupies it and
/// the other participant moves next. Otherwise the match stays as it is
/// and the error says why: the line is no number, or the cell is occupied
/// or not on the board.
pub fn take_turn(game: &mut Game, mover: Participant, line: &str) -> (next: Result<
    Participant,
    MoveError,
>)
    requires
        old(game)@.wf(),
    ensures
        final(game)@.wf(),
        (final(game)@, next) == turn_taken(old(game)@, mover, line@),
        next.is_err() ==> *final(game) == *old(game),
{
    match parse_move(line) {
        Ok(position) => match game.make_move(mover.repr(), position) {
            Some(_) => Ok(mover.other()),
            None => Err(MoveError::IllegalMove),
        },
        Err(error) => Err(error),
    }
}

/// How the match has ended, by the winner that it has recorded: a tie if
/// that is still the placeholder.
pub fn outcome(game: &Game) -> (result: Outcome)
    ensures
        result == outcome_of(game@),
{
    if game.winner.repr == 1 {
        Outcome::PlayerOneWins
    } else if game.winner.repr == 2 {
        Outcome::PlayerTwoWins
    } else {
        Outcome::Tie
    }
}

} // verus!
