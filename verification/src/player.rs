//! The participants of a match, and the placeholder that stands for "nobody".

use vstd::prelude::*;

verus! {

/// The mathematical value of a [`Player`].
pub struct PlayerView {
    pub name: Seq<char>,
    pub piece: char,
    pub repr: u8,
}

/// A participant: a display name, the marker drawn on the board, and the
/// identifier written into the cells the participant occupies.
///
/// Identifier 0 belongs to the placeholder, 1 and 2 to the two players.
#[derive(Debug)]
pub struct Player {
    pub name: String,
    pub piece: char,
    pub repr: u8,
}

impl View for Player {
    type V = PlayerView;

    open spec fn view(&self) -> PlayerView {
        PlayerView { name: self.name@, piece: self.piece, repr: self.repr }
    }
}

/// The placeholder participant: it owns every empty cell and is the winner
/// of a match as long as nobody has won.
pub open spec fn placeholder() -> PlayerView {
    PlayerView { name: "empty"@, piece: ' ', repr: 0 }
}

impl Player {
    /// A participant with the given name, marker and identifier.
    pub fn new(name: String, piece: char, repr: u8) -> (player: Self)
        ensures
            player@ == (PlayerView { name: name@, piece, repr }),
    {
        Self { name, piece, repr }
    }
}

impl Clone for Player {
    fn clone(&self) -> (copy: Self)
        ensures
            copy@ == self@,
    {
        Player { name: self.name.clone(), piece: self.piece, repr: self.repr }
    }
}

impl Default for Player {
    /// The placeholder participant.
    fn default() -> (player: Self)
        ensures
            player@ == placeholder(),
    {
        Player { name: "empty".to_owned(), piece: ' ', repr: 0 }
    }
}

} // verus!
