//! Read-only rendering helpers over a [`Game`].
//!
//! Both front ends draw the board through [`GameController::get_cell_content`],
//! so board traversal is written once. All input and output stays with the
//! front ends themselves.

use vstd::prelude::*;
use crate::game::{FieldType, Game};

verus! {

/// Owns the game a front end drives and answers what each cell shows.
pub struct GameController {
    pub game: Game,
}

impl GameController {
    /// Wraps `game` for a front end to drive.
    pub fn new(game: Game) -> (controller: GameController)
        ensures
            controller.game == game,
    {
        GameController { game }
    }

    /// The one-character text a front end shows for the cell at
    /// `(row, col)`: `"X"` for a cross, `"0"` for a circle, `" "` for an
    /// empty cell.
    pub fn get_cell_content(&self, row: usize, col: usize) -> (content: &str)
        requires
            self.game.wf(),
            row < self.game@.board.len(),
            col < self.game@.board.len(),
        ensures
            self.game@.board[row as int][col as int] == FieldType::CROSS ==> content@ == "X"@,
            self.game@.board[row as int][col as int] == FieldType::CIRCLE ==> content@ == "0"@,
            self.game@.board[row as int][col as int] == FieldType::UNOWNED ==> content@ == " "@,
    {
        let field_type = self.game.get_game_board()[row][col];

        match field_type {
            FieldType::CROSS => "X",
            FieldType::CIRCLE => "0",
            FieldType::UNOWNED => " ",
        }
    }
}

} // verus!
