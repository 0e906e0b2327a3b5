//! Parsers for the tile-file and clue-file text formats.
//!
//! Both formats are line-oriented UTF-8 text.  Every record sits on one
//! line, is trimmed of surrounding whitespace, and splits on single spaces
//! into unsigned decimal fields.  Lines that are blank after trimming are
//! ignored.  A malformed record aborts the parse of the whole document and
//! reports the offending line; bad lines are never skipped and out-of-range
//! values never clamped.

use vstd::prelude::*;

use vstd::string::StringSliceAdditionalSpecFns;

use crate::board::{BoardShape, BoardSpec, Clue, Indx};
use crate::rotation::Rotation;
use crate::text::{
    dec_value, encode_u8, is_numeral, lemma_dec_repr_roundtrip, lemma_split_point_is,
    lemma_trim_is, parse_u8, parse_usize, spec_dec_repr, spec_fields, spec_lines, spec_trim,
    split_fields, split_lines, trim_bytes, SPACE,
};
use crate::tiles::{is_side_permutation, Edge, EdgeCode, Side, Tile};
use crate::tileset::{TileSet, MAX_TILES};

verus! {

/// Why one record of a document was rejected.
#[derive(Clone, Copy, Debug, PartialEq, Eq, Structural)]
pub enum ParseErrorKind {
    /// The record has a number of fields the grammar gives no meaning to.
    TokenCount {
        /// How many fields the record has.
        count: usize,
    },
    /// A field is not an unsigned decimal numeral in range for its slot.
    Number,
    /// A dimension record names a board shape with no cells, or one whose
    /// cell count exceeds the machine's address range.
    Dimension,
    /// A tile record carries an edge code that denotes no edge.
    EdgeCode,
    /// A clue record names a tile number outside the tile set.
    TileNumber,
    /// A clue record carries a rotation index outside `0..=3`.
    RotationIndex,
}

/// Why a document was rejected as a whole.
#[derive(Clone, Copy, Debug, PartialEq, Eq, Structural)]
pub enum ParseError {
    /// A malformed record, with its 0-based line number.
    Malformed {
        /// The 0-based number of the offending line.
        line: usize,
        /// Why the record was rejected.
        kind: ParseErrorKind,
    },
    /// The document defines more tiles than a tile set may hold.
    Capacity {
        /// How many tile records the document defines.
        count: usize,
    },
}

/// Whether a field is a numeral whose value fits a `usize`.
pub open spec fn is_usize_numeral(field: Seq<u8>) -> bool {
    is_numeral(field) && dec_value(field) <= usize::MAX
}

/// Whether a field is a numeral whose value fits an edge code byte.
pub open spec fn is_code_numeral(field: Seq<u8>) -> bool {
    is_numeral(field) && dec_value(field) <= 255
}

/// What one line of a tile file means.
#[derive(Clone, Copy, Debug, PartialEq, Eq, Structural)]
pub enum TileLine<E> {
    /// A line that is blank after trimming, and is ignored.
    Blank,
    /// A dimension record of one or two fields, setting the board shape.
    Shape(BoardShape),
    /// A tile record of four edge codes.
    Tile(Tile<E>),
}

/// The tile a record's four codes build: starting from a blank tile, each
/// code's edge value is assigned to the side the caller-chosen order maps
/// that column onto.
pub open spec fn spec_tile_from_codes<E: Edge + EdgeCode>(
    codes: Seq<u8>,
    order: Seq<Side>,
) -> Tile<E> {
    let blank = Tile {
        north: E::spec_blank(),
        east: E::spec_blank(),
        south: E::spec_blank(),
        west: E::spec_blank(),
    };
    blank.spec_with_edge(order[0], E::spec_of_code(codes[0])).spec_with_edge(
        order[1],
        E::spec_of_code(codes[1]),
    ).spec_with_edge(order[2], E::spec_of_code(codes[2])).spec_with_edge(
        order[3],
        E::spec_of_code(codes[3]),
    )
}

/// Whether one or two dimension fields name a well-formed board shape.
pub open spec fn spec_shape_valid(columns: int, rows: int) -> bool {
    0 < columns && 0 < rows && columns * rows <= usize::MAX
}

/// What one line of a tile file parses to.
///
/// A trimmed-blank line is ignored; one field names a square shape; two
/// fields name a columns-by-rows shape; four fields define one tile; any
/// other field count is malformed.
pub open spec fn spec_tile_record<E: Edge + EdgeCode>(
    line: Seq<u8>,
    order: Seq<Side>,
) -> Result<TileLine<E>, ParseErrorKind> {
    let record = spec_trim(line);
    if record.len() == 0 {
        Ok(TileLine::Blank)
    } else {
        let fields = spec_fields(record);
        if fields.len() == 1 {
            if !is_usize_numeral(fields[0]) {
                Err(ParseErrorKind::Number)
            } else if !spec_shape_valid(dec_value(fields[0]), dec_value(fields[0])) {
                Err(ParseErrorKind::Dimension)
            } else {
                Ok(TileLine::Shape(BoardShape {
                    columns: dec_value(fields[0]) as usize,
                    rows: dec_value(fields[0]) as usize,
                }))
            }
        } else if fields.len() == 2 {
            if !(is_usize_numeral(fields[0]) && is_usize_numeral(fields[1])) {
                Err(ParseErrorKind::Number)
            } else if !spec_shape_valid(dec_value(fields[0]), dec_value(fields[1])) {
                Err(ParseErrorKind::Dimension)
            } else {
                Ok(TileLine::Shape(BoardShape {
                    columns: dec_value(fields[0]) as usize,
                    rows: dec_value(fields[1]) as usize,
                }))
            }
        } else if fields.len() == 4 {
            if !(is_code_numeral(fields[0]) && is_code_numeral(fields[1]) && is_code_numeral(
                fields[2],
            ) && is_code_numeral(fields[3])) {
                Err(ParseErrorKind::Number)
            } else if !(E::spec_code_valid(dec_value(fields[0]) as u8) && E::spec_code_valid(
                dec_value(fields[1]) as u8,
            ) && E::spec_code_valid(dec_value(fields[2]) as u8) && E::spec_code_valid(
                dec_value(fields[3]) as u8,
            )) {
                Err(ParseErrorKind::EdgeCode)
            } else {
                Ok(TileLine::Tile(spec_tile_from_codes(
                    seq![
                        dec_value(fields[0]) as u8,
                        dec_value(fields[1]) as u8,
                        dec_value(fields[2]) as u8,
                        dec_value(fields[3]) as u8,
                    ],
                    order,
                )))
            }
        } else {
            Err(ParseErrorKind::TokenCount { count: fields.len() as usize })
        }
    }
}

/// What a whole tile document's lines parse to: the shape set by the last
/// dimension record, if any, and the tiles in record order.  The first
/// malformed record aborts the document.
pub open spec fn spec_tile_document<E: Edge + EdgeCode>(
    lines: Seq<Seq<u8>>,
    order: Seq<Side>,
) -> Result<(Option<BoardShape>, Seq<Tile<E>>), ParseError>
    decreases lines.len(),
{
    if lines.len() == 0 {
        Ok((None::<BoardShape>, Seq::<Tile<E>>::empty()))
    } else {
        match spec_tile_document::<E>(lines.drop_last(), order) {
            Err(e) => Err(e),
            Ok((shape, tiles)) => match spec_tile_record::<E>(lines.last(), order) {
                Err(kind) => Err(ParseError::Malformed {
                    line: (lines.len() - 1) as usize,
                    kind,
                }),
                Ok(TileLine::Blank) => Ok((shape, tiles)),
                Ok(TileLine::Shape(s)) => Ok((Some(s), tiles)),
                Ok(TileLine::Tile(t)) => Ok((shape, tiles.push(t))),
            },
        }
    }
}

/// What a tile file's bytes parse to: the document's shape and tiles, with
/// documents of more than [`MAX_TILES`] tiles rejected.
pub open spec fn spec_parse_tiles<E: Edge + EdgeCode>(
    bytes: Seq<u8>,
    order: Seq<Side>,
) -> Result<(Option<BoardShape>, Seq<Tile<E>>), ParseError> {
    match spec_tile_document::<E>(spec_lines(bytes), order) {
        Ok((shape, tiles)) => if tiles.len() <= MAX_TILES {
            Ok((shape, tiles))
        } else {
            Err(ParseError::Capacity { count: tiles.len() as usize })
        },
        Err(e) => Err(e),
    }
}

/// Once a prefix of the document is malformed, the whole document parses to
/// that same error.
proof fn lemma_tile_document_error_persists<E: Edge + EdgeCode>(
    lines: Seq<Seq<u8>>,
    order: Seq<Side>,
    k: int,
    e: ParseError,
)
    requires
        0 <= k <= lines.len(),
        spec_tile_document::<E>(lines.take(k), order) == Err::<
            (Option<BoardShape>, Seq<Tile<E>>),
            ParseError,
        >(e),
    ensures
        spec_tile_document::<E>(lines, order) == Err::<
            (Option<BoardShape>, Seq<Tile<E>>),
            ParseError,
        >(e),
    decreases lines.len() - k,
{
    if k == lines.len() {
        assert(lines.take(k) =~= lines);
    } else {
        assert(lines.take(k + 1).drop_last() =~= lines.take(k));
        lemma_tile_document_error_persists::<E>(lines, order, k + 1, e);
    }
}

/// Build a board shape from parsed dimension fields, rejecting shapes with
/// no cells or with a cell count beyond the machine's address range.
fn checked_shape(columns: usize, rows: usize) -> (r: Option<BoardShape>)
    ensures
        match r {
            Some(s) => spec_shape_valid(columns as int, rows as int) && s == (BoardShape {
                columns,
                rows,
            }),
            None => !spec_shape_valid(columns as int, rows as int),
        },
{
    if columns == 0 || rows == 0 {
        None
    } else if columns > usize::MAX / rows {
        proof {
            assert(((usize::MAX as int) / (rows as int)) * (rows as int) + (usize::MAX as int)
                % (rows as int) == usize::MAX) by {
                vstd::arithmetic::div_mod::lemma_fundamental_div_mod(
                    usize::MAX as int,
                    rows as int,
                );
            }
            assert((columns as int) * (rows as int) > usize::MAX) by (nonlinear_arith)
                requires
                    columns as int >= (usize::MAX as int) / (rows as int) + 1,
                    rows as int > 0,
                    ((usize::MAX as int) / (rows as int)) * (rows as int) + (usize::MAX as int)
                        % (rows as int) == usize::MAX,
                    (usize::MAX as int) % (rows as int) < rows as int,
            ;
        }
        None
    } else {
        proof {
            assert(((usize::MAX as int) / (rows as int)) * (rows as int) <= usize::MAX) by {
                vstd::arithmetic::div_mod::lemma_fundamental_div_mod(
                    usize::MAX as int,
                    rows as int,
                );
            }
            assert(columns as int * rows as int <= usize::MAX) by (nonlinear_arith)
                requires
                    columns as int <= usize::MAX as int / rows as int,
                    rows as int > 0,
                    (usize::MAX as int / rows as int) * rows as int <= usize::MAX,
            ;
        }
        Some(BoardShape { columns, rows })
    }
}

/// Parse one line of a tile file.
fn parse_tile_record<E: Edge + EdgeCode + Copy>(line: &Vec<u8>, order: [Side; 4]) -> (r: Result<
    TileLine<E>,
    ParseErrorKind,
>)
    ensures
        r == spec_tile_record::<E>(line@, order@),
{
    let record = trim_bytes(line);
    if record.len() == 0 {
        return Ok(TileLine::Blank);
    }
    let fields = split_fields(&record);
    proof {
        assert(fields@.map_values(|f: Vec<u8>| f@).len() == fields@.len());
    }
    if fields.len() == 1 {
        match parse_usize(&fields[0]) {
            None => Err(ParseErrorKind::Number),
            Some(n) => match checked_shape(n, n) {
                None => Err(ParseErrorKind::Dimension),
                Some(s) => Ok(TileLine::Shape(s)),
            },
        }
    } else if fields.len() == 2 {
        let c = parse_usize(&fields[0]);
        let r = parse_usize(&fields[1]);
        match (c, r) {
            (Some(columns), Some(rows)) => match checked_shape(columns, rows) {
                None => Err(ParseErrorKind::Dimension),
                Some(s) => Ok(TileLine::Shape(s)),
            },
            _ => Err(ParseErrorKind::Number),
        }
    } else if fields.len() == 4 {
        let c0 = parse_u8(&fields[0]);
        let c1 = parse_u8(&fields[1]);
        let c2 = parse_u8(&fields[2]);
        let c3 = parse_u8(&fields[3]);
        match (c0, c1, c2, c3) {
            (Some(b0), Some(b1), Some(b2), Some(b3)) => {
                let e0 = E::of_code(b0);
                let e1 = E::of_code(b1);
                let e2 = E::of_code(b2);
                let e3 = E::of_code(b3);
                match (e0, e1, e2, e3) {
                    (Some(v0), Some(v1), Some(v2), Some(v3)) => {
                        let blank = Tile::new(E::blank(), E::blank(), E::blank(), E::blank());
                        let tile = blank.with_edge(order[0], v0).with_edge(
                            order[1],
                            v1,
                        ).with_edge(order[2], v2).with_edge(order[3], v3);
                        Ok(TileLine::Tile(tile))
                    },
                    _ => Err(ParseErrorKind::EdgeCode),
                }
            },
            _ => Err(ParseErrorKind::Number),
        }
    } else {
        Err(ParseErrorKind::TokenCount { count: fields.len() })
    }
}

/// Parse a tiles file.
///
/// Each line is trimmed and split on single spaces: one or two fields set
/// the board shape, four fields define one tile, a blank line is ignored,
/// and any other field count is a fatal parse error.  The `order` parameter
/// says which compass side each of a tile record's four columns is assigned
/// to, since different published puzzle encodings order their columns
/// differently.  Tiles are appended in file order, which defines their
/// puzzle numbering.
pub fn parse_tiles<E: Edge + EdgeCode + Copy>(txt: &str, order: [Side; 4]) -> (r: Result<
    BoardSpec<E>,
    ParseError,
>)
    ensures
        match r {
            Ok(bs) => spec_parse_tiles::<E>(txt.spec_bytes(), order@) matches Ok(d)
                && bs.dimensions == d.0 && bs.tiles@ == d.1,
            Err(e) => spec_parse_tiles::<E>(txt.spec_bytes(), order@) == Err::<
                (Option<BoardShape>, Seq<Tile<E>>),
                ParseError,
            >(e),
        },
{
    let bytes = txt.as_bytes();
    let lines = split_lines(bytes);
    let ghost doc_lines = spec_lines(txt.spec_bytes());
    let mut tiles: Vec<Tile<E>> = Vec::new();
    let mut shape: Option<BoardShape> = None;
    let mut i: usize = 0;
    proof {
        assert(doc_lines.take(0) =~= Seq::<Seq<u8>>::empty());
    }
    while i < lines.len()
        invariant
            i <= lines@.len(),
            doc_lines == spec_lines(txt.spec_bytes()),
            doc_lines == lines@.map_values(|l: Vec<u8>| l@),
            spec_tile_document::<E>(doc_lines.take(i as int), order@) == Ok::<
                (Option<BoardShape>, Seq<Tile<E>>),
                ParseError,
            >((shape, tiles@)),
        decreases lines@.len() - i,
    {
        proof {
            assert(doc_lines.take(i + 1).drop_last() =~= doc_lines.take(i as int));
            assert(doc_lines.take(i + 1).last() == lines@[i as int]@);
        }
        match parse_tile_record::<E>(&lines[i], order) {
            Err(kind) => {
                proof {
                    lemma_tile_document_error_persists::<E>(
                        doc_lines,
                        order@,
                        i + 1,
                        ParseError::Malformed { line: i, kind },
                    );
                }
                return Err(ParseError::Malformed { line: i, kind });
            },
            Ok(TileLine::Blank) => {},
            Ok(TileLine::Shape(s)) => {
                shape = Some(s);
            },
            Ok(TileLine::Tile(t)) => {
                tiles.push(t);
            },
        }
        i += 1;
    }
    proof {
        assert(doc_lines.take(i as int) =~= doc_lines);
    }
    match TileSet::new(tiles) {
        Ok(ts) => Ok(BoardSpec { dimensions: shape, tiles: ts }),
        Err(ce) => Err(ParseError::Capacity { count: ce.count }),
    }
}

/// What one line of a clue file parses to, against the tiles it draws from.
///
/// A trimmed-blank line is ignored.  Otherwise the record must hold exactly
/// four numeric fields, `tileNumber column row rotationIndex`: the tile
/// number resolves 1-based into the tile set, the rotation index selects
/// among the four quarter turns, and a set `clockwise` flag reverses the
/// selected rotation.
pub open spec fn spec_clue_record<E>(
    line: Seq<u8>,
    tiles: Seq<Tile<E>>,
    clockwise: bool,
) -> Result<Option<Clue<E>>, ParseErrorKind> {
    let record = spec_trim(line);
    if record.len() == 0 {
        Ok(None::<Clue<E>>)
    } else {
        let fields = spec_fields(record);
        if fields.len() != 4 {
            Err(ParseErrorKind::TokenCount { count: fields.len() as usize })
        } else if !(is_usize_numeral(fields[0]) && is_usize_numeral(fields[1])
            && is_usize_numeral(fields[2]) && is_usize_numeral(fields[3])) {
            Err(ParseErrorKind::Number)
        } else if !(1 <= dec_value(fields[0]) <= tiles.len()) {
            Err(ParseErrorKind::TileNumber)
        } else if dec_value(fields[3]) > 3 {
            Err(ParseErrorKind::RotationIndex)
        } else {
            let looked_up = Rotation::of_turns(dec_value(fields[3]));
            Ok(Some(Clue {
                tile: tiles[dec_value(fields[0]) - 1],
                rotation: if clockwise {
                    looked_up.spec_reverse()
                } else {
                    looked_up
                },
                at: Indx {
                    col: dec_value(fields[1]) as usize,
                    row: dec_value(fields[2]) as usize,
                },
            }))
        }
    }
}

/// What a whole clue document's lines parse to: the clues in record order.
/// The first malformed record aborts the document.
pub open spec fn spec_clue_document<E>(
    lines: Seq<Seq<u8>>,
    tiles: Seq<Tile<E>>,
    clockwise: bool,
) -> Result<Seq<Clue<E>>, ParseError>
    decreases lines.len(),
{
    if lines.len() == 0 {
        Ok(Seq::<Clue<E>>::empty())
    } else {
        match spec_clue_document::<E>(lines.drop_last(), tiles, clockwise) {
            Err(e) => Err(e),
            Ok(clues) => match spec_clue_record::<E>(lines.last(), tiles, clockwise) {
                Err(kind) => Err(ParseError::Malformed {
                    line: (lines.len() - 1) as usize,
                    kind,
                }),
                Ok(None) => Ok(clues),
                Ok(Some(c)) => Ok(clues.push(c)),
            },
        }
    }
}

/// Once a prefix of the document is malformed, the whole document parses to
/// that same error.
proof fn lemma_clue_document_error_persists<E>(
    lines: Seq<Seq<u8>>,
    tiles: Seq<Tile<E>>,
    clockwise: bool,
    k: int,
    e: ParseError,
)
    requires
        0 <= k <= lines.len(),
        spec_clue_document::<E>(lines.take(k), tiles, clockwise) == Err::<Seq<Clue<E>>, ParseError>(
            e,
        ),
    ensures
        spec_clue_document::<E>(lines, tiles, clockwise) == Err::<Seq<Clue<E>>, ParseError>(e),
    decreases lines.len() - k,
{
    if k == lines.len() {
        assert(lines.take(k) =~= lines);
    } else {
        assert(lines.take(k + 1).drop_last() =~= lines.take(k));
        lemma_clue_document_error_persists::<E>(lines, tiles, clockwise, k + 1, e);
    }
}

impl<E: Copy> TileSet<E> {
    /// Parse one line of a clue file against this tile set.
    fn parse_clue_record(&self, line: &Vec<u8>, clockwise: bool) -> (r: Result<
        Option<Clue<E>>,
        ParseErrorKind,
    >)
        ensures
            r == spec_clue_record::<E>(line@, self@, clockwise),
    {
        let record = trim_bytes(line);
        if record.len() == 0 {
            return Ok(None);
        }
        let fields = split_fields(&record);
        if fields.len() != 4 {
            return Err(ParseErrorKind::TokenCount { count: fields.len() });
        }
        let number = parse_usize(&fields[0]);
        let col = parse_usize(&fields[1]);
        let row = parse_usize(&fields[2]);
        let turn = parse_usize(&fields[3]);
        match (number, col, row, turn) {
            (Some(number), Some(col), Some(row), Some(turn)) => {
                let tile = match self.lookup(number) {
                    Ok(tile) => *tile,
                    Err(_) => {
                        return Err(ParseErrorKind::TileNumber);
                    },
                };
                if turn > 3 {
                    return Err(ParseErrorKind::RotationIndex);
                }
                let mut rotation = Rotation::from_index(turn as u8);
                if clockwise {
                    rotation = rotation.reverse();
                }
                Ok(Some(Clue { tile, rotation, at: Indx { col, row } }))
            },
            _ => Err(ParseErrorKind::Number),
        }
    }

    /// Parse a clues file against this tile set.
    ///
    /// Each non-blank line must hold `tileNumber column row rotationIndex`.
    /// If the `clockwise` flag is true, the rotation is taken to be
    /// clockwise and is reversed before it is stored; if false,
    /// anti-clockwise.
    pub fn parse_clues(&self, txt: &str, clockwise: bool) -> (r: Result<Vec<Clue<E>>, ParseError>)
        ensures
            match r {
                Ok(clues) => spec_clue_document::<E>(
                    spec_lines(txt.spec_bytes()),
                    self@,
                    clockwise,
                ) == Ok::<Seq<Clue<E>>, ParseError>(clues@),
                Err(e) => spec_clue_document::<E>(spec_lines(txt.spec_bytes()), self@, clockwise)
                    == Err::<Seq<Clue<E>>, ParseError>(e),
            },
    {
        let bytes = txt.as_bytes();
        let lines = split_lines(bytes);
        let ghost doc_lines = spec_lines(txt.spec_bytes());
        let mut clues: Vec<Clue<E>> = Vec::new();
        let mut i: usize = 0;
        proof {
            assert(doc_lines.take(0) =~= Seq::<Seq<u8>>::empty());
        }
        while i < lines.len()
            invariant
                i <= lines@.len(),
                doc_lines == spec_lines(txt.spec_bytes()),
                doc_lines == lines@.map_values(|l: Vec<u8>| l@),
                spec_clue_document::<E>(doc_lines.take(i as int), self@, clockwise) == Ok::<
                    Seq<Clue<E>>,
                    ParseError,
                >(clues@),
            decreases lines@.len() - i,
        {
            proof {
                assert(doc_lines.take(i + 1).drop_last() =~= doc_lines.take(i as int));
                assert(doc_lines.take(i + 1).last() == lines@[i as int]@);
            }
            match self.parse_clue_record(&lines[i], clockwise) {
                Err(kind) => {
                    proof {
                        lemma_clue_document_error_persists::<E>(
                            doc_lines,
                            self@,
                            clockwise,
                            i + 1,
                            ParseError::Malformed { line: i, kind },
                        );
                    }
                    return Err(ParseError::Malformed { line: i, kind });
                },
                Ok(None) => {},
                Ok(Some(clue)) => {
                    clues.push(clue);
                },
            }
            i += 1;
        }
        proof {
            assert(doc_lines.take(i as int) =~= doc_lines);
        }
        Ok(clues)
    }
}

/// What a tile writes to a tile record: its four edge codes as decimal
/// numerals, in the caller-chosen column order, separated by single spaces.
pub open spec fn spec_encode_tile<E: EdgeCode>(t: Tile<E>, order: Seq<Side>) -> Seq<u8> {
    spec_dec_repr(t.spec_edge(order[0]).spec_code() as int) + seq![SPACE] + spec_dec_repr(
        t.spec_edge(order[1]).spec_code() as int,
    ) + seq![SPACE] + spec_dec_repr(t.spec_edge(order[2]).spec_code() as int) + seq![SPACE]
        + spec_dec_repr(t.spec_edge(order[3]).spec_code() as int)
}

/// Write a tile as the tile-file grammar's 4-token record.
pub fn encode_tile_record<E: EdgeCode + Copy>(t: &Tile<E>, order: [Side; 4]) -> (r: Vec<u8>)
    ensures
        r@ == spec_encode_tile::<E>(*t, order@),
{
    let mut out = encode_u8(t.edge(order[0]).code());
    out.push(SPACE);
    let mut field = encode_u8(t.edge(order[1]).code());
    out.append(&mut field);
    out.push(SPACE);
    let mut field = encode_u8(t.edge(order[2]).code());
    out.append(&mut field);
    out.push(SPACE);
    let mut field = encode_u8(t.edge(order[3]).code());
    out.append(&mut field);
    proof {
        assert(out@ =~= spec_encode_tile::<E>(*t, order@));
    }
    out
}

/// A record that starts with a space-free token keeps that token as its
/// first field, and splits the rest on its own.
proof fn lemma_fields_prepend(token: Seq<u8>, rest: Seq<u8>)
    requires
        forall|j: int| 0 <= j < token.len() ==> token[j] != SPACE,
    ensures
        spec_fields(token + seq![SPACE] + rest) == seq![token] + spec_fields(rest),
{
    let s = token + seq![SPACE] + rest;
    assert(s[token.len() as int] == SPACE);
    lemma_split_point_is(s, SPACE, token.len() as int);
    assert(s.take(token.len() as int) =~= token);
    assert(s.skip(token.len() as int + 1) =~= rest);
}

/// A space-free record is one field.
proof fn lemma_fields_single(token: Seq<u8>)
    requires
        forall|j: int| 0 <= j < token.len() ==> token[j] != SPACE,
    ensures
        spec_fields(token) == seq![token],
{
    lemma_split_point_is(token, SPACE, token.len() as int);
}

/// Round trip of the tile-record grammar: a tile written to the 4-token
/// form and re-parsed with the same side order reconstructs an equal tile.
///
/// The side order must name every side; an order that leaves a side out
/// never reads that side back.
pub proof fn lemma_tile_record_roundtrip<E: Edge + EdgeCode>(t: Tile<E>, order: Seq<Side>)
    requires
        is_side_permutation(order),
    ensures
        spec_tile_record::<E>(spec_encode_tile::<E>(t, order), order) == Ok::<
            TileLine<E>,
            ParseErrorKind,
        >(TileLine::Tile(t)),
{
    let c0 = t.spec_edge(order[0]).spec_code();
    let c1 = t.spec_edge(order[1]).spec_code();
    let c2 = t.spec_edge(order[2]).spec_code();
    let c3 = t.spec_edge(order[3]).spec_code();
    let r0 = spec_dec_repr(c0 as int);
    let r1 = spec_dec_repr(c1 as int);
    let r2 = spec_dec_repr(c2 as int);
    let r3 = spec_dec_repr(c3 as int);
    lemma_dec_repr_roundtrip(c0 as int);
    lemma_dec_repr_roundtrip(c1 as int);
    lemma_dec_repr_roundtrip(c2 as int);
    lemma_dec_repr_roundtrip(c3 as int);
    let encoded = spec_encode_tile::<E>(t, order);
    assert(encoded =~= r0 + seq![SPACE] + r1 + seq![SPACE] + r2 + seq![SPACE] + r3);

    // The encoding has a digit at either end, so trimming keeps it whole.
    assert(encoded[0] == r0[0]);
    assert(encoded.last() == r3.last());
    lemma_trim_is(encoded, 0, encoded.len() as int);
    assert(spec_trim(encoded) =~= encoded);

    // The encoding splits back into the four numerals.
    assert(encoded =~= r0 + seq![SPACE] + (r1 + seq![SPACE] + (r2 + seq![SPACE] + r3)));
    lemma_fields_prepend(r0, r1 + seq![SPACE] + (r2 + seq![SPACE] + r3));
    lemma_fields_prepend(r1, r2 + seq![SPACE] + r3);
    lemma_fields_prepend(r2, r3);
    lemma_fields_single(r3);
    let fields = spec_fields(encoded);
    assert(fields =~= seq![r0, r1, r2, r3]);

    // Each numeral reads back as its code, and each code denotes the edge
    // it was written from.
    E::lemma_code_roundtrip(t.spec_edge(order[0]));
    E::lemma_code_roundtrip(t.spec_edge(order[1]));
    E::lemma_code_roundtrip(t.spec_edge(order[2]));
    E::lemma_code_roundtrip(t.spec_edge(order[3]));

    // Assigning every side its own edge value rebuilds the tile, because
    // the order reaches each side.
    let codes = seq![
        dec_value(fields[0]) as u8,
        dec_value(fields[1]) as u8,
        dec_value(fields[2]) as u8,
        dec_value(fields[3]) as u8,
    ];
    assert(codes =~= seq![c0, c1, c2, c3]);
    let built = spec_tile_from_codes::<E>(codes, order);
    assert forall|s: Side| order.contains(s) implies built.spec_edge(s) == t.spec_edge(s) by {
        let j = choose|j: int| 0 <= j < order.len() && order[j] == s;
    }
    assert(order.contains(Side::North) && order.contains(Side::East) && order.contains(
        Side::South,
    ) && order.contains(Side::West));
    assert(built.spec_edge(Side::North) == t.spec_edge(Side::North));
    assert(built.spec_edge(Side::East) == t.spec_edge(Side::East));
    assert(built.spec_edge(Side::South) == t.spec_edge(Side::South));
    assert(built.spec_edge(Side::West) == t.spec_edge(Side::West));
    assert(built == t);
}

impl<E: Copy> BoardSpec<E> {
    /// Parse a clues file against this board specification's tile set.
    ///
    /// If the `clockwise` flag is true, the rotation is taken to be
    /// clockwise; if false, anti-clockwise.
    pub fn parse_clues(&self, txt: &str, clockwise: bool) -> (r: Result<Vec<Clue<E>>, ParseError>)
        ensures
            match r {
                Ok(clues) => spec_clue_document::<E>(
                    spec_lines(txt.spec_bytes()),
                    self.tiles@,
                    clockwise,
                ) == Ok::<Seq<Clue<E>>, ParseError>(clues@),
                Err(e) => spec_clue_document::<E>(
                    spec_lines(txt.spec_bytes()),
                    self.tiles@,
                    clockwise,
                ) == Err::<Seq<Clue<E>>, ParseError>(e),
            },
    {
        self.tiles.parse_clues(txt, clockwise)
    }
}

} // verus!
