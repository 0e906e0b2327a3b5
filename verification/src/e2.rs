//! Types and data for the Eternity 2 Puzzle.
//!
//! This module instantiates the generic puzzle model for the Eternity 2
//! Puzzle: a 16 by 16 board and an edge vocabulary of the grey outside
//! pattern plus 22 interior patterns, written in tile files as the codes
//! `0..=22` and in letter notation as `a..=w`.

use vstd::prelude::*;

use vstd::string::StringSliceAdditionalSpecFns;

use crate::board::{Board, BoardShape, BoardSpec};
use crate::parse::{parse_tiles, spec_parse_tiles, ParseError};
use crate::tiles::{Edge, EdgeCode, Side, Tile};
use crate::tileset::TileSet;

verus! {

/// Number of columns in the Eternity 2 Puzzle.
pub const E2_COLUMNS: usize = 16;

/// Number of rows in the Eternity 2 Puzzle.
pub const E2_ROWS: usize = 16;

/// Number of tiles in the Eternity 2 Puzzle.
pub const E2_TILE_COUNT: usize = 256;

/// Number of edge patterns in the Eternity 2 Puzzle, the outside included.
pub const E2_EDGE_COUNT: usize = 23;

/// A board configured to the Eternity 2 Puzzle specs.
pub type E2Board = Board<E2Edge>;

/// A tile configured to the Eternity 2 Puzzle specs.
pub type E2Tile = Tile<E2Edge>;

/// A tileset configured to the Eternity 2 Puzzle specs.
pub type E2TileSet = TileSet<E2Edge>;

/// An Eternity 2 edge is either *outside* (grey) or one of the 22 two-color
/// interior patterns, numbered `1..=22` and lettered `b..=w`.
#[derive(Clone, Copy, Debug, PartialEq, Eq, Structural)]
pub enum E2Edge {
    /// The outside of the puzzle.
    Outside,
    /// An internal edge.
    Edge1,
    /// An internal edge.
    Edge2,
    /// An internal edge.
    Edge3,
    /// An internal edge.
    Edge4,
    /// An internal edge.
    Edge5,
    /// An internal edge.
    Edge6,
    /// An internal edge.
    Edge7,
    /// An internal edge.
    Edge8,
    /// An internal edge.
    Edge9,
    /// An internal edge.
    Edge10,
    /// An internal edge.
    Edge11,
    /// An internal edge.
    Edge12,
    /// An internal edge.
    Edge13,
    /// An internal edge.
    Edge14,
    /// An internal edge.
    Edge15,
    /// An internal edge.
    Edge16,
    /// An internal edge.
    Edge17,
    /// An internal edge.
    Edge18,
    /// An internal edge.
    Edge19,
    /// An internal edge.
    Edge20,
    /// An internal edge.
    Edge21,
    /// An internal edge.
    Edge22,
}

impl Edge for E2Edge {
    open spec fn spec_is_border(self) -> bool {
        self is Outside
    }

    open spec fn spec_blank() -> Self {
        E2Edge::Outside
    }

    fn is_border(&self) -> (r: bool) {
        match self {
            E2Edge::Outside => true,
            _ => false,
        }
    }

    fn blank() -> (r: Self) {
        E2Edge::Outside
    }
}

impl EdgeCode for E2Edge {
    open spec fn spec_code_valid(code: u8) -> bool {
        code < 23
    }

    open spec fn spec_of_code(code: u8) -> Self {
        if code == 1 {
            E2Edge::Edge1
        } else if code == 2 {
            E2Edge::Edge2
        } else if code == 3 {
            E2Edge::Edge3
        } else if code == 4 {
            E2Edge::Edge4
        } else if code == 5 {
            E2Edge::Edge5
        } else if code == 6 {
            E2Edge::Edge6
        } else if code == 7 {
            E2Edge::Edge7
        } else if code == 8 {
            E2Edge::Edge8
        } else if code == 9 {
            E2Edge::Edge9
        } else if code == 10 {
            E2Edge::Edge10
        } else if code == 11 {
            E2Edge::Edge11
        } else if code == 12 {
            E2Edge::Edge12
        } else if code == 13 {
            E2Edge::Edge13
        } else if code == 14 {
            E2Edge::Edge14
        } else if code == 15 {
            E2Edge::Edge15
        } else if code == 16 {
            E2Edge::Edge16
        } else if code == 17 {
            E2Edge::Edge17
        } else if code == 18 {
            E2Edge::Edge18
        } else if code == 19 {
            E2Edge::Edge19
        } else if code == 20 {
            E2Edge::Edge20
        } else if code == 21 {
            E2Edge::Edge21
        } else if code == 22 {
            E2Edge::Edge22
        } else {
            E2Edge::Outside
        }
    }

    open spec fn spec_code(self) -> u8 {
        match self {
            E2Edge::Outside => 0,
            E2Edge::Edge1 => 1,
            E2Edge::Edge2 => 2,
            E2Edge::Edge3 => 3,
            E2Edge::Edge4 => 4,
            E2Edge::Edge5 => 5,
            E2Edge::Edge6 => 6,
            E2Edge::Edge7 => 7,
            E2Edge::Edge8 => 8,
            E2Edge::Edge9 => 9,
            E2Edge::Edge10 => 10,
            E2Edge::Edge11 => 11,
            E2Edge::Edge12 => 12,
            E2Edge::Edge13 => 13,
            E2Edge::Edge14 => 14,
            E2Edge::Edge15 => 15,
            E2Edge::Edge16 => 16,
            E2Edge::Edge17 => 17,
            E2Edge::Edge18 => 18,
            E2Edge::Edge19 => 19,
            E2Edge::Edge20 => 20,
            E2Edge::Edge21 => 21,
            E2Edge::Edge22 => 22,
        }
    }

    fn of_code(code: u8) -> (r: Option<Self>) {
        if code >= 23 {
            None
        } else if code == 1 {
            Some(E2Edge::Edge1)
        } else if code == 2 {
            Some(E2Edge::Edge2)
        } else if code == 3 {
            Some(E2Edge::Edge3)
        } else if code == 4 {
            Some(E2Edge::Edge4)
        } else if code == 5 {
            Some(E2Edge::Edge5)
        } else if code == 6 {
            Some(E2Edge::Edge6)
        } else if code == 7 {
            Some(E2Edge::Edge7)
        } else if code == 8 {
            Some(E2Edge::Edge8)
        } else if code == 9 {
            Some(E2Edge::Edge9)
        } else if code == 10 {
            Some(E2Edge::Edge10)
        } else if code == 11 {
            Some(E2Edge::Edge11)
        } else if code == 12 {
            Some(E2Edge::Edge12)
        } else if code == 13 {
            Some(E2Edge::Edge13)
        } else if code == 14 {
            Some(E2Edge::Edge14)
        } else if code == 15 {
            Some(E2Edge::Edge15)
        } else if code == 16 {
            Some(E2Edge::Edge16)
        } else if code == 17 {
            Some(E2Edge::Edge17)
        } else if code == 18 {
            Some(E2Edge::Edge18)
        } else if code == 19 {
            Some(E2Edge::Edge19)
        } else if code == 20 {
            Some(E2Edge::Edge20)
        } else if code == 21 {
            Some(E2Edge::Edge21)
        } else if code == 22 {
            Some(E2Edge::Edge22)
        } else {
            Some(E2Edge::Outside)
        }
    }

    fn code(&self) -> (r: u8) {
        match self {
            E2Edge::Outside => 0,
            E2Edge::Edge1 => 1,
            E2Edge::Edge2 => 2,
            E2Edge::Edge3 => 3,
            E2Edge::Edge4 => 4,
            E2Edge::Edge5 => 5,
            E2Edge::Edge6 => 6,
            E2Edge::Edge7 => 7,
            E2Edge::Edge8 => 8,
            E2Edge::Edge9 => 9,
            E2Edge::Edge10 => 10,
            E2Edge::Edge11 => 11,
            E2Edge::Edge12 => 12,
            E2Edge::Edge13 => 13,
            E2Edge::Edge14 => 14,
            E2Edge::Edge15 => 15,
            E2Edge::Edge16 => 16,
            E2Edge::Edge17 => 17,
            E2Edge::Edge18 => 18,
            E2Edge::Edge19 => 19,
            E2Edge::Edge20 => 20,
            E2Edge::Edge21 => 21,
            E2Edge::Edge22 => 22,
        }
    }

    proof fn lemma_code_roundtrip(e: Self) {
    }
}

impl Default for E2Edge {
    /// The blank edge is the outside pattern.
    fn default() -> (r: Self)
        ensures
            r == E2Edge::Outside,
    {
        E2Edge::Outside
    }
}

/// Error case for an invalid edge letter.
#[derive(Clone, Copy, Debug, PartialEq, Eq, Structural)]
pub struct InvalidEdge(pub char);

/// Whether a character is one of the edge letters `a..=w`.
pub open spec fn spec_letter_valid(c: char) -> bool {
    97 <= c as u32 <= 119
}

impl E2Edge {
    /// Parse an edge letter into an edge: `a` is the outside, `b..=w` the
    /// interior patterns, anything else is rejected.
    ///
    /// The lettering matches the standardised lettering, using column-major
    /// indexing.
    pub fn from_letter(c: char) -> (r: Result<E2Edge, InvalidEdge>)
        ensures
            match r {
                Ok(e) => spec_letter_valid(c) && e == E2Edge::spec_of_code(
                    (c as u32 - 97) as u8,
                ),
                Err(bad) => !spec_letter_valid(c) && bad == InvalidEdge(c),
            },
    {
        let v = c as u32;
        if v < 97 || v > 119 {
            Err(InvalidEdge(c))
        } else {
            match E2Edge::of_code((v - 97) as u8) {
                Some(e) => Ok(e),
                None => {
                    proof {
                        assert(false);
                    }
                    Err(InvalidEdge(c))
                },
            }
        }
    }
}

/// The side order of Eternity 2 tile files: north, east, south, west.
pub open spec fn spec_e2_order() -> Seq<Side> {
    seq![Side::North, Side::East, Side::South, Side::West]
}

/// The side order of Eternity 2 tile files: north, east, south, west.
pub fn e2_side_order() -> (r: [Side; 4])
    ensures
        r@ == spec_e2_order(),
{
    let order = [Side::North, Side::East, Side::South, Side::West];
    proof {
        assert(order@ =~= spec_e2_order());
    }
    order
}

/// Create a new board configured for the Eternity 2 Puzzle specs.
pub fn new_e2board() -> (r: E2Board)
    ensures
        r.spec_columns() == E2_COLUMNS,
        r.spec_rows() == E2_ROWS,
        r@.len() == E2_COLUMNS * E2_ROWS,
        forall|i: int| 0 <= i < r@.len() ==> r@[i] is None,
{
    let shape = BoardShape { columns: E2_COLUMNS, rows: E2_ROWS };
    shape.new_board()
}

/// Why a document was rejected as Eternity 2 puzzle data.
#[derive(Clone, Copy, Debug, PartialEq, Eq, Structural)]
pub enum E2DataError {
    /// The tile document itself was malformed.
    Parse(ParseError),
    /// The document parsed, but defines a number of tiles other than the
    /// puzzle's 256.
    TileCount {
        /// How many tiles the document defines.
        count: usize,
    },
}

/// Build the board spec of the Eternity 2 Puzzle from its tile document.
///
/// The document's records are read in north, east, south, west column
/// order; it must define exactly the puzzle's 256 tiles.  A document
/// without a dimension record falls back to the puzzle's 16 by 16 shape.
pub fn board_spec(txt: &str) -> (r: Result<BoardSpec<E2Edge>, E2DataError>)
    ensures
        match r {
            Ok(bs) => spec_parse_tiles::<E2Edge>(txt.spec_bytes(), spec_e2_order()) matches Ok(d)
                && d.1.len() == E2_TILE_COUNT && bs.tiles@ == d.1 && bs.dimensions == (
            if d.0 is Some {
                d.0
            } else {
                Some(BoardShape { columns: E2_COLUMNS, rows: E2_ROWS })
            }),
            Err(E2DataError::Parse(e)) => spec_parse_tiles::<E2Edge>(
                txt.spec_bytes(),
                spec_e2_order(),
            ) is Err && spec_parse_tiles::<E2Edge>(txt.spec_bytes(), spec_e2_order())->Err_0 == e,
            Err(E2DataError::TileCount { count }) => spec_parse_tiles::<E2Edge>(
                txt.spec_bytes(),
                spec_e2_order(),
            ) matches Ok(d) && d.1.len() != E2_TILE_COUNT && count == d.1.len(),
        },
{
    let order = e2_side_order();
    match parse_tiles::<E2Edge>(txt, order) {
        Err(e) => Err(E2DataError::Parse(e)),
        Ok(bs) => {
            if bs.tiles.len() != E2_TILE_COUNT {
                return Err(E2DataError::TileCount { count: bs.tiles.len() });
            }
            match bs.dimensions {
                Some(shape) => Ok(BoardSpec { dimensions: Some(shape), tiles: bs.tiles }),
                None => Ok(
                    BoardSpec {
                        dimensions: Some(BoardShape { columns: E2_COLUMNS, rows: E2_ROWS }),
                        tiles: bs.tiles,
                    },
                ),
            }
        },
    }
}

} // verus!
