//! Board state, turn state and win detection.
//!
//! A [`Game`] owns a square board of [`FieldType`] cells and the active
//! [`Color`]. The starter player places `CROSS`, the other `CIRCLE`.
//! The game is finished once any full row, column or diagonal is occupied
//! entirely by one mark.

use vstd::prelude::*;

verus! {

/// A player identity. The starter player is `BLUE`.
#[derive(Clone, Copy, PartialEq, Eq, Structural, Debug)]
pub enum Color {
    RED,
    BLUE,
}

/// The state of one board cell.
#[derive(Clone, Copy, PartialEq, Eq, Structural, Debug)]
pub enum FieldType {
    CROSS,
    CIRCLE,
    UNOWNED,
}

/// The mathematical state of a [`Game`]: the active player and the board
/// as a sequence of rows.
pub struct GameView {
    pub current_player: Color,
    pub board: Seq<Seq<FieldType>>,
}

/// The player who makes the first move of every game.
pub open spec fn starter_player() -> Color {
    Color::BLUE
}

/// The identity that is active after `p` hands the turn over.
pub open spec fn other_player(p: Color) -> Color {
    if p == Color::BLUE {
        Color::RED
    } else {
        Color::BLUE
    }
}

/// The mark that player `p` places: the starter places `CROSS`,
/// the other player `CIRCLE`.
pub open spec fn mark_of(p: Color) -> FieldType {
    if p == starter_player() {
        FieldType::CROSS
    } else {
        FieldType::CIRCLE
    }
}

/// A well-formed board: at least one row, and square.
pub open spec fn board_wf(b: Seq<Seq<FieldType>>) -> bool {
    &&& b.len() >= 1
    &&& forall|i: int| 0 <= i < b.len() ==> (#[trigger] b[i]).len() == b.len()
}

/// Row `r` of `b` is occupied entirely by one mark.
pub open spec fn row_filled(b: Seq<Seq<FieldType>>, r: int) -> bool {
    forall|j: int| 0 <= j < b.len() ==> #[trigger] b[r][j] != FieldType::UNOWNED && b[r][j] == b[r][0]
}

/// Column `c` of `b` is occupied entirely by one mark.
pub open spec fn col_filled(b: Seq<Seq<FieldType>>, c: int) -> bool {
    forall|j: int| 0 <= j < b.len() ==> #[trigger] b[j][c] != FieldType::UNOWNED && b[j][c] == b[0][c]
}

/// The main diagonal of `b` is occupied entirely by one mark.
pub open spec fn main_diag_filled(b: Seq<Seq<FieldType>>) -> bool {
    forall|i: int| 0 <= i < b.len() ==> #[trigger] b[i][i] != FieldType::UNOWNED && b[i][i] == b[0][0]
}

/// The anti-diagonal of `b` is occupied entirely by one mark.
pub open spec fn anti_diag_filled(b: Seq<Seq<FieldType>>) -> bool {
    forall|i: int|
        0 <= i < b.len() ==> #[trigger] b[i][b.len() - 1 - i] != FieldType::UNOWNED && b[i][b.len()
            - 1 - i] == b[0][b.len() - 1]
}

/// The game on board `b` is over: some full row, column or diagonal is
/// occupied entirely by one mark. A full board with no such line is not
/// finished: there is no distinct draw signal.
pub open spec fn game_finished(b: Seq<Seq<FieldType>>) -> bool {
    ||| exists|r: int| 0 <= r < b.len() && row_filled(b, r)
    ||| exists|c: int| 0 <= c < b.len() && col_filled(b, c)
    ||| main_diag_filled(b)
    ||| anti_diag_filled(b)
}

/// The board after player `p` captures the cell at `(row, col)` of `b`:
/// that cell carries `p`'s mark, every other cell is untouched.
pub open spec fn captured_board(
    b: Seq<Seq<FieldType>>,
    row: int,
    col: int,
    p: Color,
) -> Seq<Seq<FieldType>> {
    b.update(row, b[row].update(col, mark_of(p)))
}

/// The active player after `k` successive turn hand-overs starting from
/// `p`, each stepping by [`other_player`] as
/// [`Game::change_current_player`] does.
pub open spec fn player_after_switches(p: Color, k: nat) -> Color
    decreases k,
{
    if k == 0 {
        p
    } else {
        other_player(player_after_switches(p, (k - 1) as nat))
    }
}

/// Turn alternation: after `k` turn hand-overs the active player is the
/// starter again if and only if `k` is even.
pub proof fn lemma_turn_alternation(k: nat)
    ensures
        (player_after_switches(starter_player(), k) == starter_player()) <==> (k % 2 == 0),
    decreases k,
{
    if k > 0 {
        lemma_turn_alternation((k - 1) as nat);
    }
}

/// Monotonic capture: capturing a cell never empties any cell, so a cell
/// that carries a mark still carries one afterwards. Handing the turn
/// over leaves the board untouched, so no sequence of operations returns
/// an occupied cell to `UNOWNED`.
pub proof fn lemma_capture_monotonic(b: Seq<Seq<FieldType>>, row: int, col: int, p: Color)
    requires
        board_wf(b),
        0 <= row < b.len(),
        0 <= col < b.len(),
    ensures
        forall|i: int, j: int|
            0 <= i < b.len() && 0 <= j < b.len() && b[i][j] != FieldType::UNOWNED
                ==> #[trigger] captured_board(b, row, col, p)[i][j] != FieldType::UNOWNED,
{
    assert forall|i: int, j: int|
        0 <= i < b.len() && 0 <= j < b.len() && b[i][j] != FieldType::UNOWNED implies #[trigger] captured_board(
        b,
        row,
        col,
        p,
    )[i][j] != FieldType::UNOWNED by {
        if i == row && j == col {
            assert(captured_board(b, row, col, p)[i][j] == mark_of(p));
        } else if i == row {
            assert(captured_board(b, row, col, p)[i][j] == b[i][j]);
        } else {
            assert(captured_board(b, row, col, p)[i][j] == b[i][j]);
        }
    }
}

/// The authoritative game state: the active player and the board.
pub struct Game {
    current_player: Color,
    game_board: Vec<Vec<FieldType>>,
}

impl View for Game {
    type V = GameView;

    closed spec fn view(&self) -> GameView {
        GameView {
            current_player: self.current_player,
            board: self.game_board@.map_values(|row: Vec<FieldType>| row@),
        }
    }
}

impl Game {
    /// A valid game: the board is square and non-empty.
    pub open spec fn wf(self) -> bool {
        board_wf(self@.board)
    }

    /// Constructs a game with an empty `size` by `size` board and the
    /// starter player active.
    pub fn new(size: usize) -> (game: Game)
        requires
            size >= 1,
        ensures
            game.wf(),
            game@.board.len() == size,
            game@.current_player == starter_player(),
            forall|i: int, j: int|
                0 <= i < size && 0 <= j < size ==> game@.board[i][j] == FieldType::UNOWNED,
            !game_finished(game@.board),
    {
        let game = Game { current_player: Color::BLUE, game_board: Self::init_board(size) };
        proof {
            lemma_empty_board_not_finished(game@.board);
        }
        game
    }

    /// Returns the active player.
    pub fn get_current_player(&self) -> (player: &Color)
        ensures
            *player == self@.current_player,
    {
        &self.current_player
    }

    /// Returns the board's side length.
    pub fn get_board_size(&self) -> (size: usize)
        ensures
            size == self@.board.len(),
    {
        self.game_board.len()
    }

    /// Returns the board, row by row.
    pub fn get_game_board(&self) -> (board: &Vec<Vec<FieldType>>)
        ensures
            board@.len() == self@.board.len(),
            forall|i: int| 0 <= i < board@.len() ==> (#[trigger] board@[i])@ == self@.board[i],
    {
        &self.game_board
    }

    /// True iff the cell at `(row, col)` already carries a mark.
    pub fn is_cell_occupied(&self, row: usize, col: usize) -> (occupied: bool)
        requires
            self.wf(),
            row < self@.board.len(),
            col < self@.board.len(),
        ensures
            occupied == (self@.board[row as int][col as int] != FieldType::UNOWNED),
    {
        self.game_board[row][col] != FieldType::UNOWNED
    }

    /// Hands the turn to the other player. The board is untouched.
    pub fn change_current_player(&mut self)
        ensures
            final(self)@.current_player == other_player(old(self)@.current_player),
            final(self)@.board == old(self)@.board,
    {
        self.current_player = if self.current_player == Color::BLUE {
            Color::RED
        } else {
            Color::BLUE
        };
    }

    /// Places the active player's mark on the cell at `(row, col)`,
    /// leaving every other cell and the turn untouched. Whether the cell
    /// was still empty is the caller's obligation to have checked with
    /// [`Game::is_cell_occupied`]: an occupied cell is overwritten.
    pub fn capture_cell(&mut self, row: usize, col: usize)
        requires
            old(self).wf(),
            row < old(self)@.board.len(),
            col < old(self)@.board.len(),
        ensures
            final(self).wf(),
            final(self)@.current_player == old(self)@.current_player,
            final(self)@.board == captured_board(
                old(self)@.board,
                row as int,
                col as int,
                old(self)@.current_player,
            ),
    {
        let field_type = if self.current_player == Color::BLUE {
            FieldType::CROSS
        } else {
            FieldType::CIRCLE
        };
        proof {
            assert(self.game_board@[row as int]@ == self@.board[row as int]);
        }
        self.game_board[row][col] = field_type;
        proof {
            assert(self@.board =~~= captured_board(
                old(self)@.board,
                row as int,
                col as int,
                old(self)@.current_player,
            ));
        }
    }

    /// On a valid game each concrete row matches the view's row and has the
    /// board's side length, so every in-range index is in bounds.
    proof fn lemma_rows_square(&self)
        requires
            self.wf(),
        ensures
            self.game_board@.len() == self@.board.len(),
            forall|i: int|
                0 <= i < self@.board.len() ==> (#[trigger] self.game_board@[i])@
                    == self@.board[i] && self.game_board@[i]@.len() == self@.board.len(),
    {
        assert forall|i: int| 0 <= i < self@.board.len() implies (#[trigger] self.game_board@[i])@
            == self@.board[i] && self.game_board@[i]@.len() == self@.board.len() by {
            assert(self@.board[i] == self.game_board@[i]@);
            assert(self@.board[i].len() == self@.board.len());
        }
    }

    /// True iff some full row, column or diagonal is occupied entirely by
    /// one mark. A full board with no completed line still reports `false`:
    /// a draw has no signal of its own.
    pub fn is_game_finished(&self) -> (finished: bool)
        requires
            self.wf(),
        ensures
            finished == game_finished(self@.board),
    {
        let is_any_row_filled = self.is_any_row_filled();
        let is_any_col_filled = self.is_any_col_filled();
        let is_any_diagonal_filled = self.is_any_diagonal_filled();

        is_any_row_filled || is_any_col_filled || is_any_diagonal_filled
    }

    #[verifier::loop_isolation(false)]
    fn is_any_row_filled(&self) -> (found: bool)
        requires
            self.wf(),
        ensures
            found == exists|r: int| 0 <= r < self@.board.len() && row_filled(self@.board, r),
    {
        proof {
            self.lemma_rows_square();
        }
        let n = self.game_board.len();
        let mut i: usize = 0;
        while i < n
            invariant
                self.wf(),
                n == self@.board.len(),
                i <= n,
                forall|k: int| 0 <= k < i ==> !row_filled(self@.board, k),
            decreases n - i,
        {
            let mut is_filled = true;
            let mut j: usize = 0;
            while j < n
                invariant
                    self.wf(),
                    n == self@.board.len(),
                    i < n,
                    j <= n,
                    is_filled == forall|t: int|
                        0 <= t < j ==> #[trigger] self@.board[i as int][t] != FieldType::UNOWNED
                            && self@.board[i as int][t] == self@.board[i as int][0],
                decreases n - j,
            {
                let cell = self.game_board[i][j];
                if cell == FieldType::UNOWNED || cell != self.game_board[i][0] {
                    is_filled = false;
                }
                j += 1;
            }
            if is_filled {
                proof {
                    assert(row_filled(self@.board, i as int));
                }
                return true;
            }
            i += 1;
        }
        false
    }

    #[verifier::loop_isolation(false)]
    fn is_any_col_filled(&self) -> (found: bool)
        requires
            self.wf(),
        ensures
            found == exists|c: int| 0 <= c < self@.board.len() && col_filled(self@.board, c),
    {
        proof {
            self.lemma_rows_square();
        }
        let n = self.game_board.len();
        let mut i: usize = 0;
        while i < n
            invariant
                self.wf(),
                n == self@.board.len(),
                i <= n,
                forall|k: int| 0 <= k < i ==> !col_filled(self@.board, k),
            decreases n - i,
        {
            let mut is_filled = true;
            let mut j: usize = 0;
            while j < n
                invariant
                    self.wf(),
                    n == self@.board.len(),
                    i < n,
                    j <= n,
                    is_filled == forall|t: int|
                        0 <= t < j ==> #[trigger] self@.board[t][i as int] != FieldType::UNOWNED
                            && self@.board[t][i as int] == self@.board[0][i as int],
                decreases n - j,
            {
                let cell = self.game_board[j][i];
                if cell == FieldType::UNOWNED || cell != self.game_board[0][i] {
                    is_filled = false;
                }
                j += 1;
            }
            if is_filled {
                proof {
                    assert(col_filled(self@.board, i as int));
                }
                return true;
            }
            i += 1;
        }
        false
    }

    #[verifier::loop_isolation(false)]
    fn is_any_diagonal_filled(&self) -> (found: bool)
        requires
            self.wf(),
        ensures
            found == (main_diag_filled(self@.board) || anti_diag_filled(self@.board)),
    {
        proof {
            self.lemma_rows_square();
        }
        let n = self.game_board.len();
        let mut main_filled = true;
        let mut anti_filled = true;
        let mut i: usize = 0;
        while i < n
            invariant
                self.wf(),
                n == self@.board.len(),
                i <= n,
                main_filled == forall|t: int|
                    0 <= t < i ==> #[trigger] self@.board[t][t] != FieldType::UNOWNED
                        && self@.board[t][t] == self@.board[0][0],
                anti_filled == forall|t: int|
                    0 <= t < i ==> #[trigger] self@.board[t][n - 1 - t] != FieldType::UNOWNED
                        && self@.board[t][n - 1 - t] == self@.board[0][n - 1],
            decreases n - i,
        {
            let main_cell = self.game_board[i][i];
            if main_cell == FieldType::UNOWNED || main_cell != self.game_board[0][0] {
                main_filled = false;
            }
            let anti_cell = self.game_board[i][n - 1 - i];
            if anti_cell == FieldType::UNOWNED || anti_cell != self.game_board[0][n - 1] {
                anti_filled = false;
            }
            i += 1;
        }
        main_filled || anti_filled
    }

    fn init_board(size: usize) -> (board: Vec<Vec<FieldType>>)
        ensures
            board@.len() == size,
            forall|i: int| 0 <= i < size ==> (#[trigger] board@[i])@.len() == size,
            forall|i: int, j: int|
                0 <= i < size && 0 <= j < size ==> board@[i]@[j] == FieldType::UNOWNED,
    {
        let mut board: Vec<Vec<FieldType>> = Vec::new();
        let mut i: usize = 0;
        while i < size
            invariant
                i <= size,
                board@.len() == i,
                forall|k: int| 0 <= k < i ==> (#[trigger] board@[k])@.len() == size,
                forall|k: int, j: int|
                    0 <= k < i && 0 <= j < size ==> board@[k]@[j] == FieldType::UNOWNED,
            decreases size - i,
        {
            let mut row: Vec<FieldType> = Vec::new();
            let mut j: usize = 0;
            while j < size
                invariant
                    j <= size,
                    row@.len() == j,
                    forall|t: int| 0 <= t < j ==> row@[t] == FieldType::UNOWNED,
                decreases size - j,
            {
                row.push(FieldType::UNOWNED);
                j += 1;
            }
            board.push(row);
            i += 1;
        }
        board
    }
}

/// A board with every cell empty has no completed line, so a fresh game
/// is never finished.
pub proof fn lemma_empty_board_not_finished(b: Seq<Seq<FieldType>>)
    requires
        board_wf(b),
        forall|i: int, j: int|
            0 <= i < b.len() && 0 <= j < b.len() ==> #[trigger] b[i][j] == FieldType::UNOWNED,
    ensures
        !game_finished(b),
{
    assert forall|r: int| 0 <= r < b.len() implies !row_filled(b, r) by {
        assert(b[r][0] == FieldType::UNOWNED);
    }
    assert forall|c: int| 0 <= c < b.len() implies !col_filled(b, c) by {
        assert(b[0][c] == FieldType::UNOWNED);
    }
    assert(b[0][0] == FieldType::UNOWNED);
    assert(!main_diag_filled(b));
    assert(b[0][b.len() - 1 - 0] == FieldType::UNOWNED);
    assert(!anti_diag_filled(b));
}

} // verus!
