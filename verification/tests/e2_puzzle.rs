//! Eternity 2 specialization: edge vocabulary, letters and puzzle data.

use e2rs::board::BoardShape;
use e2rs::e2::{board_spec, new_e2board, E2DataError, E2Edge, InvalidEdge};
use e2rs::tiles::{Edge, EdgeCode};

#[test]
fn outside_is_the_blank_and_only_border_edge() {
    assert_eq!(E2Edge::default(), E2Edge::Outside);
    assert_eq!(<E2Edge as Edge>::blank(), E2Edge::Outside);
    assert!(E2Edge::Outside.is_border());
    assert!(!E2Edge::Edge1.is_border());
    assert!(!E2Edge::Edge22.is_border());
}

#[test]
fn codes_zero_to_twenty_two_denote_edges() {
    for code in 0u8..=22 {
        let e = E2Edge::of_code(code).unwrap();
        assert_eq!(e.code(), code);
    }
    assert!(E2Edge::of_code(23).is_none());
    assert!(E2Edge::of_code(255).is_none());
    assert_eq!(E2Edge::of_code(0).unwrap(), E2Edge::Outside);
    assert_eq!(E2Edge::of_code(22).unwrap(), E2Edge::Edge22);
}

#[test]
fn letters_a_through_w_denote_edges() {
    assert_eq!(E2Edge::from_letter('a').unwrap(), E2Edge::Outside);
    assert_eq!(E2Edge::from_letter('b').unwrap(), E2Edge::Edge1);
    assert_eq!(E2Edge::from_letter('w').unwrap(), E2Edge::Edge22);
    assert_eq!(E2Edge::from_letter('x').unwrap_err(), InvalidEdge('x'));
    assert_eq!(E2Edge::from_letter('A').unwrap_err(), InvalidEdge('A'));
    assert_eq!(E2Edge::from_letter('`').unwrap_err(), InvalidEdge('`'));
}

#[test]
fn new_e2board_is_blank_and_sixteen_square() {
    let board = new_e2board();
    assert_eq!(board.columns(), 16);
    assert_eq!(board.rows(), 16);
    for col in 0..16 {
        for row in 0..16 {
            assert_eq!(*board.get(col, row), None);
        }
    }
}

fn full_tile_document(records: usize) -> String {
    let mut txt = String::new();
    for i in 0..records {
        let code = (i % 22 + 1) as u8;
        txt.push_str(&format!("0 {} {} {}\n", code, code, code));
    }
    txt
}

#[test]
fn board_spec_defaults_to_the_puzzle_shape() {
    let txt = full_tile_document(256);
    let spec = board_spec(&txt).unwrap();
    assert_eq!(spec.dimensions, Some(BoardShape { columns: 16, rows: 16 }));
    assert_eq!(spec.tiles.len(), 256);
}

#[test]
fn board_spec_keeps_a_dimension_record() {
    let txt = format!("16\n{}", full_tile_document(256));
    let spec = board_spec(&txt).unwrap();
    assert_eq!(spec.dimensions, Some(BoardShape { columns: 16, rows: 16 }));
    assert_eq!(spec.tiles.len(), 256);
}

#[test]
fn board_spec_rejects_the_wrong_tile_count() {
    let txt = full_tile_document(4);
    let err = board_spec(&txt).unwrap_err();
    assert_eq!(err, E2DataError::TileCount { count: 4 });
}

#[test]
fn board_spec_propagates_parse_errors() {
    let txt = "1 2 3\n";
    let err = board_spec(txt).unwrap_err();
    assert!(matches!(err, E2DataError::Parse(_)));
}
