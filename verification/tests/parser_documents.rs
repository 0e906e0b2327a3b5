//! Tile-file and clue-file parsing scenarios.

use e2rs::board::BoardShape;
use e2rs::e2::{e2_side_order, E2Edge};
use e2rs::parse::{encode_tile_record, parse_tiles, ParseError, ParseErrorKind};
use e2rs::rotation::Rotation;
use e2rs::tiles::{EdgeCode, Side, Tile};
use e2rs::tileset::TileSet;

fn edge(code: u8) -> E2Edge {
    E2Edge::of_code(code).unwrap()
}

fn e2_tile(n: u8, e: u8, s: u8, w: u8) -> Tile<E2Edge> {
    Tile::new(edge(n), edge(e), edge(s), edge(w))
}

#[test]
fn dimension_line_and_four_tiles_build_a_board_spec() {
    let txt = "4\n1 2 3 4\n5 6 7 8\n0 1 0 1\n9 10 11 12\n";
    let spec = parse_tiles::<E2Edge>(txt, e2_side_order()).unwrap();
    assert_eq!(spec.dimensions, Some(BoardShape { columns: 4, rows: 4 }));
    assert_eq!(spec.tiles.len(), 4);
    assert_eq!(*spec.tiles.lookup(1).unwrap(), e2_tile(1, 2, 3, 4));
    assert_eq!(*spec.tiles.lookup(4).unwrap(), e2_tile(9, 10, 11, 12));
}

#[test]
fn two_field_dimension_line_sets_columns_and_rows() {
    let txt = "3 2\n1 2 3 4\n";
    let spec = parse_tiles::<E2Edge>(txt, e2_side_order()).unwrap();
    assert_eq!(spec.dimensions, Some(BoardShape { columns: 3, rows: 2 }));
    assert_eq!(spec.tiles.len(), 1);
}

#[test]
fn document_without_dimension_line_has_no_shape() {
    let txt = "1 2 3 4\n5 6 7 8";
    let spec = parse_tiles::<E2Edge>(txt, e2_side_order()).unwrap();
    assert_eq!(spec.dimensions, None);
    assert_eq!(spec.tiles.len(), 2);
}

#[test]
fn blank_lines_and_surrounding_whitespace_are_ignored() {
    let txt = "\n  4  \n\t\n 1 2 3 4 \r\n\n";
    let spec = parse_tiles::<E2Edge>(txt, e2_side_order()).unwrap();
    assert_eq!(spec.dimensions, Some(BoardShape { columns: 4, rows: 4 }));
    assert_eq!(spec.tiles.len(), 1);
    assert_eq!(*spec.tiles.lookup(1).unwrap(), e2_tile(1, 2, 3, 4));
}

#[test]
fn side_order_maps_record_columns_onto_sides() {
    let order = [Side::North, Side::South, Side::West, Side::East];
    let txt = "1 2 3 4";
    let spec = parse_tiles::<E2Edge>(txt, order).unwrap();
    assert_eq!(*spec.tiles.lookup(1).unwrap(), e2_tile(1, 4, 2, 3));
}

#[test]
fn three_field_tile_line_is_malformed() {
    let txt = "1 2 3 4\n5 6 7\n";
    let err = parse_tiles::<E2Edge>(txt, e2_side_order()).unwrap_err();
    assert_eq!(
        err,
        ParseError::Malformed { line: 1, kind: ParseErrorKind::TokenCount { count: 3 } }
    );
}

#[test]
fn non_numeric_field_is_malformed() {
    let txt = "1 x 3 4";
    let err = parse_tiles::<E2Edge>(txt, e2_side_order()).unwrap_err();
    assert_eq!(err, ParseError::Malformed { line: 0, kind: ParseErrorKind::Number });
}

#[test]
fn edge_code_out_of_vocabulary_is_malformed() {
    let txt = "1 2 3 23";
    let err = parse_tiles::<E2Edge>(txt, e2_side_order()).unwrap_err();
    assert_eq!(err, ParseError::Malformed { line: 0, kind: ParseErrorKind::EdgeCode });
}

#[test]
fn zero_dimension_is_malformed() {
    let txt = "0\n1 2 3 4";
    let err = parse_tiles::<E2Edge>(txt, e2_side_order()).unwrap_err();
    assert_eq!(err, ParseError::Malformed { line: 0, kind: ParseErrorKind::Dimension });
}

#[test]
fn too_many_tile_records_exceed_capacity() {
    let mut txt = String::new();
    for _ in 0..257 {
        txt.push_str("1 2 3 4\n");
    }
    let err = parse_tiles::<E2Edge>(&txt, e2_side_order()).unwrap_err();
    assert_eq!(err, ParseError::Capacity { count: 257 });
}

#[test]
fn encoded_tile_record_parses_back_to_the_same_tile() {
    let order = e2_side_order();
    let tile = e2_tile(0, 7, 22, 13);
    let record = encode_tile_record(&tile, order);
    assert_eq!(record, b"0 7 22 13".to_vec());
    let txt = String::from_utf8(record).unwrap();
    let spec = parse_tiles::<E2Edge>(&txt, order).unwrap();
    assert_eq!(spec.tiles.len(), 1);
    assert_eq!(*spec.tiles.lookup(1).unwrap(), tile);
}

#[test]
fn encoded_tile_record_round_trips_in_any_order() {
    let order = [Side::West, Side::North, Side::East, Side::South];
    let tile = e2_tile(5, 0, 19, 2);
    let record = encode_tile_record(&tile, order);
    let txt = String::from_utf8(record).unwrap();
    let spec = parse_tiles::<E2Edge>(&txt, order).unwrap();
    assert_eq!(*spec.tiles.lookup(1).unwrap(), tile);
}

fn three_tile_set() -> TileSet<E2Edge> {
    let tiles = vec![
        e2_tile(9, 9, 9, 9),
        e2_tile(8, 8, 8, 8),
        e2_tile(1, 2, 3, 4),
    ];
    TileSet::new(tiles).unwrap()
}

#[test]
fn clue_line_resolves_tile_rotation_and_position() {
    let set = three_tile_set();
    let clues = set.parse_clues("3 1 2 1", false).unwrap();
    assert_eq!(clues.len(), 1);
    let clue = &clues[0];
    assert_eq!(clue.tile, e2_tile(1, 2, 3, 4));
    assert_eq!(clue.rotation, Rotation::Rot90);
    assert_eq!(clue.at.col, 1);
    assert_eq!(clue.at.row, 2);

    let shape = BoardShape { columns: 4, rows: 4 };
    let mut board = shape.new_board::<E2Edge>();
    clue.apply(&mut board);
    assert_eq!(*board.get(1, 2), Some(e2_tile(4, 1, 2, 3)));
}

#[test]
fn clockwise_flag_reverses_the_rotation() {
    let set = three_tile_set();
    let clues = set.parse_clues("1 0 0 1\n2 3 3 3", true).unwrap();
    assert_eq!(clues[0].rotation, Rotation::Rot270);
    assert_eq!(clues[1].rotation, Rotation::Rot90);
}

#[test]
fn clue_rotation_index_four_is_malformed() {
    let set = three_tile_set();
    let err = set.parse_clues("1 0 0 4", false).unwrap_err();
    assert_eq!(err, ParseError::Malformed { line: 0, kind: ParseErrorKind::RotationIndex });
}

#[test]
fn clue_tile_number_out_of_range_is_malformed() {
    let set = three_tile_set();
    let zero = set.parse_clues("0 0 0 0", false).unwrap_err();
    assert_eq!(zero, ParseError::Malformed { line: 0, kind: ParseErrorKind::TileNumber });
    let four = set.parse_clues("4 0 0 0", false).unwrap_err();
    assert_eq!(four, ParseError::Malformed { line: 0, kind: ParseErrorKind::TileNumber });
}

#[test]
fn clue_line_with_wrong_field_count_is_malformed() {
    let set = three_tile_set();
    let err = set.parse_clues("1 0 0 1\n1 0 0", false).unwrap_err();
    assert_eq!(
        err,
        ParseError::Malformed { line: 1, kind: ParseErrorKind::TokenCount { count: 3 } }
    );
}

#[test]
fn clue_parsing_keeps_record_order_and_skips_blanks() {
    let set = three_tile_set();
    let clues = set.parse_clues("1 0 0 0\n\n2 1 1 2\n", false).unwrap();
    assert_eq!(clues.len(), 2);
    assert_eq!(clues[0].tile, e2_tile(9, 9, 9, 9));
    assert_eq!(clues[1].tile, e2_tile(8, 8, 8, 8));
    assert_eq!(clues[1].rotation, Rotation::Rot180);
}

#[test]
fn board_spec_clue_parsing_matches_its_tile_set() {
    let spec = parse_tiles::<E2Edge>("2\n1 2 3 4\n5 6 7 8", e2_side_order()).unwrap();
    let clues = spec.parse_clues("2 0 1 0", false).unwrap();
    assert_eq!(clues.len(), 1);
    assert_eq!(clues[0].tile, e2_tile(5, 6, 7, 8));
}
