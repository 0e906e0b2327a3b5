//! Boards, board shapes, clues and clue application.

use vstd::prelude::*;

use crate::rotation::Rotation;
use crate::tiles::{RotatedTile, Tile};
use crate::tileset::TileSet;

verus! {

/// A location within a board.
#[derive(Clone, Copy, Debug, PartialEq, Eq, Structural)]
pub struct Indx {
    /// Column position.
    pub col: usize,
    /// Row position.
    pub row: usize,
}

/// The shape of a board.
#[derive(Clone, Copy, Debug, PartialEq, Eq, Structural)]
pub struct BoardShape {
    /// Column count.
    pub columns: usize,
    /// Row count.
    pub rows: usize,
}

impl BoardShape {
    /// A well-formed shape has positive column and row counts, and a cell
    /// count that fits the machine's address range.
    pub open spec fn wf(self) -> bool {
        0 < self.columns && 0 < self.rows && self.columns * self.rows <= usize::MAX
    }

    /// Make a new, blank board with the specified shape.
    pub fn new_board<E>(&self) -> (r: Board<E>)
        requires
            self.wf(),
        ensures
            r.spec_columns() == self.columns,
            r.spec_rows() == self.rows,
            r@.len() == self.columns * self.rows,
            forall|i: int| 0 <= i < r@.len() ==> r@[i] is None,
    {
        Board::new(self.columns, self.rows)
    }
}

/// The error returned when board coordinates lie outside the board's shape.
#[derive(Clone, Copy, Debug, PartialEq, Eq, Structural)]
pub struct CellError {
    /// The rejected column position.
    pub col: usize,
    /// The rejected row position.
    pub row: usize,
}

/// A (partially filled) board.
///
/// Each cell is empty, or contains a tile with the specified edge type.
/// Cells are addressed by `(column, row)` through the row-major offset
/// `column + row * columns`.
pub struct Board<E> {
    columns: usize,
    rows: usize,
    squares: Vec<Option<Tile<E>>>,
}

impl<E> View for Board<E> {
    type V = Seq<Option<Tile<E>>>;

    closed spec fn view(&self) -> Seq<Option<Tile<E>>> {
        self.squares@
    }
}

/// A cell's row-major offset lies inside the board whenever its coordinates
/// lie inside the shape.
pub proof fn lemma_cell_offset_in_range(col: int, row: int, columns: int, rows: int)
    requires
        0 <= col < columns,
        0 <= row < rows,
    ensures
        0 <= col + row * columns < columns * rows,
{
    assert(col + row * columns < columns * rows) by (nonlinear_arith)
        requires
            0 <= col < columns,
            0 <= row < rows,
    ;
}

impl<E> Board<E> {
    #[verifier::type_invariant]
    spec fn inv(self) -> bool {
        self.squares@.len() == self.columns * self.rows
    }

    /// Create a new, empty board.
    pub(crate) fn new(columns: usize, rows: usize) -> (r: Board<E>)
        requires
            columns * rows <= usize::MAX,
        ensures
            r.spec_columns() == columns,
            r.spec_rows() == rows,
            r@.len() == columns * rows,
            forall|i: int| 0 <= i < r@.len() ==> r@[i] is None,
    {
        let count = columns * rows;
        let mut squares: Vec<Option<Tile<E>>> = Vec::new();
        let mut filled: usize = 0;
        while filled < count
            invariant
                filled <= count,
                squares@.len() == filled,
                forall|i: int| 0 <= i < squares@.len() ==> squares@[i] is None,
            decreases count - filled,
        {
            squares.push(None);
            filled += 1;
        }
        Board { columns, rows, squares }
    }

    /// Number of columns in the board (its width).
    pub closed spec fn spec_columns(self) -> int {
        self.columns as int
    }

    /// Number of rows in the board (its height).
    pub closed spec fn spec_rows(self) -> int {
        self.rows as int
    }

    /// Number of columns in the board (its width).
    pub fn columns(&self) -> (r: usize)
        ensures
            r as int == self.spec_columns(),
    {
        self.columns
    }

    /// Number of rows in the board (its height).
    pub fn rows(&self) -> (r: usize)
        ensures
            r as int == self.spec_rows(),
    {
        self.rows
    }

    /// The row-major offset of a cell.
    fn indx(&self, col: usize, row: usize) -> (r: usize)
        requires
            col < self.spec_columns(),
            row < self.spec_rows(),
        ensures
            r == col + row * self.spec_columns(),
            r < self@.len(),
    {
        proof {
            use_type_invariant(self);
            lemma_cell_offset_in_range(
                col as int,
                row as int,
                self.spec_columns(),
                self.spec_rows(),
            );
        }
        let total = self.squares.len();
        proof {
            assert(col + row * self.spec_columns() < total);
        }
        col + row * self.columns
    }

    /// Read the cell at `(col, row)`.
    ///
    /// This is the unchecked fast path: the caller proves the coordinates
    /// lie inside the board's shape.
    pub fn get(&self, col: usize, row: usize) -> (r: &Option<Tile<E>>)
        requires
            col < self.spec_columns(),
            row < self.spec_rows(),
        ensures
            *r == self@[col + row * self.spec_columns()],
    {
        let offset = self.indx(col, row);
        &self.squares[offset]
    }

    /// Write the cell at `(col, row)`, overwriting any prior content.
    ///
    /// This is the unchecked fast path: the caller proves the coordinates
    /// lie inside the board's shape.
    pub fn set(&mut self, col: usize, row: usize, tile: Tile<E>)
        requires
            col < old(self).spec_columns(),
            row < old(self).spec_rows(),
        ensures
            final(self).spec_columns() == old(self).spec_columns(),
            final(self).spec_rows() == old(self).spec_rows(),
            final(self)@ == old(self)@.update(
                col + row * old(self).spec_columns(),
                Some(tile),
            ),
    {
        proof {
            use_type_invariant(&*self);
        }
        let offset = self.indx(col, row);
        self.squares[offset] = Some(tile);
    }

    /// Read the cell at `(col, row)`, rejecting coordinates outside the
    /// board's shape.
    ///
    /// This is the checked counterpart of [`Board::get`].
    pub fn try_get(&self, col: usize, row: usize) -> (r: Result<&Option<Tile<E>>, CellError>)
        ensures
            match r {
                Ok(cell) => col < self.spec_columns() && row < self.spec_rows() && *cell == self@[
                    col + row * self.spec_columns()
                ],
                Err(e) => !(col < self.spec_columns() && row < self.spec_rows()) && e == (CellError {
                    col,
                    row,
                }),
            },
    {
        if col < self.columns && row < self.rows {
            Ok(self.get(col, row))
        } else {
            Err(CellError { col, row })
        }
    }

    /// Write the cell at `(col, row)`, rejecting coordinates outside the
    /// board's shape.
    ///
    /// This is the checked counterpart of [`Board::set`].
    pub fn try_set(&mut self, col: usize, row: usize, tile: Tile<E>) -> (r: Result<(), CellError>)
        ensures
            final(self).spec_columns() == old(self).spec_columns(),
            final(self).spec_rows() == old(self).spec_rows(),
            match r {
                Ok(()) => col < old(self).spec_columns() && row < old(self).spec_rows()
                    && final(self)@ == old(self)@.update(
                    col + row * old(self).spec_columns(),
                    Some(tile),
                ),
                Err(e) => !(col < old(self).spec_columns() && row < old(self).spec_rows())
                    && final(self)@ == old(self)@ && e == (CellError { col, row }),
            },
    {
        if col < self.columns && row < self.rows {
            self.set(col, row, tile);
            Ok(())
        } else {
            Err(CellError { col, row })
        }
    }
}

/// A board specification.
///
/// This is composed from an optional board shape, and a tileset.  When the
/// parsed document carried no dimension record, the caller must supply a
/// shape from elsewhere.
#[derive(Debug)]
pub struct BoardSpec<E> {
    /// The specified shape of boards, if the document carried one.
    pub dimensions: Option<BoardShape>,
    /// The tileset to fill boards with.
    pub tiles: TileSet<E>,
}

/// A clue, giving the tile, its rotation and its position within the puzzle.
#[derive(Clone, Copy, Debug, PartialEq, Eq, Structural)]
pub struct Clue<E> {
    /// The clue tile.
    pub tile: Tile<E>,
    /// How to rotate the clue tile.
    pub rotation: Rotation,
    /// Where to place the clue tile.
    pub at: Indx,
}

impl<E> Clue<E> {
    /// The materialized tile this clue writes into its cell.
    pub open spec fn spec_tile_placed(self) -> Tile<E> {
        (RotatedTile { tile: self.tile, rotation: self.rotation }).spec_apply()
    }

    /// The board contents after this clue is applied: the target cell holds
    /// the materialized tile, every other cell is unchanged.
    pub open spec fn spec_apply_to(
        self,
        squares: Seq<Option<Tile<E>>>,
        columns: int,
    ) -> Seq<Option<Tile<E>>> {
        squares.update(self.at.col + self.at.row * columns, Some(self.spec_tile_placed()))
    }
}

impl<E: Copy> Clue<E> {
    /// Apply a clue to a board.
    ///
    /// The rotation-materialized tile unconditionally replaces the target
    /// cell's current value; no conflict is detected.
    pub fn apply(&self, board: &mut Board<E>)
        requires
            self.at.col < old(board).spec_columns(),
            self.at.row < old(board).spec_rows(),
        ensures
            final(board).spec_columns() == old(board).spec_columns(),
            final(board).spec_rows() == old(board).spec_rows(),
            final(board)@ == self.spec_apply_to(old(board)@, old(board).spec_columns()),
    {
        let rott = self.tile.rotate(self.rotation);
        board.set(self.at.col, self.at.row, rott.apply());
    }
}

/// Clue application is idempotent: applying the same clue twice leaves the
/// board exactly as one application does.
pub proof fn lemma_clue_apply_idempotent<E>(
    clue: Clue<E>,
    squares: Seq<Option<Tile<E>>>,
    columns: int,
)
    requires
        0 <= clue.at.col + clue.at.row * columns < squares.len(),
    ensures
        clue.spec_apply_to(clue.spec_apply_to(squares, columns), columns) =~= clue.spec_apply_to(
            squares,
            columns,
        ),
{
}

/// Every cell of a blank board reads as empty: the row-major offset of any
/// in-shape coordinate pair lands inside the all-`None` contents.
pub proof fn lemma_blank_board_cell_empty<E>(columns: nat, rows: nat, col: nat, row: nat)
    requires
        col < columns,
        row < rows,
    ensures
        0 <= col + row * columns < columns * rows,
        Seq::new(columns * rows, |i: int| None::<Tile<E>>)[(col + row * columns) as int] is None,
{
    lemma_cell_offset_in_range(col as int, row as int, columns as int, rows as int);
}

} // verus!
