//! Boards, cell addressing and clue application.

use e2rs::board::{BoardShape, CellError, Clue, Indx};
use e2rs::rotation::Rotation;
use e2rs::tiles::Tile;

#[test]
fn blank_board_reads_empty_everywhere() {
    let shape = BoardShape { columns: 4, rows: 3 };
    let board = shape.new_board::<u8>();
    assert_eq!(board.columns(), 4);
    assert_eq!(board.rows(), 3);
    for col in 0..4 {
        for row in 0..3 {
            assert_eq!(*board.get(col, row), None);
        }
    }
}

#[test]
fn set_then_get_returns_the_tile() {
    let shape = BoardShape { columns: 3, rows: 3 };
    let mut board = shape.new_board::<u8>();
    let tile = Tile::new(1, 2, 3, 4);
    board.set(2, 1, tile);
    assert_eq!(*board.get(2, 1), Some(tile));
    assert_eq!(*board.get(1, 2), None);
}

#[test]
fn out_of_shape_coordinates_are_rejected() {
    let shape = BoardShape { columns: 2, rows: 2 };
    let mut board = shape.new_board::<u8>();
    assert_eq!(board.try_get(2, 0).unwrap_err(), CellError { col: 2, row: 0 });
    assert_eq!(board.try_get(0, 2).unwrap_err(), CellError { col: 0, row: 2 });
    let tile = Tile::new(1, 2, 3, 4);
    assert_eq!(board.try_set(5, 5, tile).unwrap_err(), CellError { col: 5, row: 5 });
    assert_eq!(*board.get(0, 0), None);
    assert!(board.try_set(1, 1, tile).is_ok());
    assert_eq!(*board.try_get(1, 1).unwrap(), Some(tile));
}

#[test]
fn clue_application_writes_the_materialized_tile() {
    let shape = BoardShape { columns: 4, rows: 4 };
    let mut board = shape.new_board::<u8>();
    let clue = Clue {
        tile: Tile::new(1, 2, 3, 4),
        rotation: Rotation::Rot90,
        at: Indx { col: 1, row: 2 },
    };
    clue.apply(&mut board);
    assert_eq!(*board.get(1, 2), Some(Tile::new(4, 1, 2, 3)));
}

#[test]
fn applying_a_clue_twice_leaves_the_cell_identical() {
    let shape = BoardShape { columns: 4, rows: 4 };
    let mut board = shape.new_board::<u8>();
    let clue = Clue {
        tile: Tile::new(1, 2, 3, 4),
        rotation: Rotation::Rot270,
        at: Indx { col: 3, row: 0 },
    };
    clue.apply(&mut board);
    let after_once = *board.get(3, 0);
    clue.apply(&mut board);
    assert_eq!(*board.get(3, 0), after_once);
}

#[test]
fn later_clue_overwrites_earlier_content() {
    let shape = BoardShape { columns: 2, rows: 2 };
    let mut board = shape.new_board::<u8>();
    let first = Clue {
        tile: Tile::new(1, 1, 1, 1),
        rotation: Rotation::Rot0,
        at: Indx { col: 0, row: 0 },
    };
    let second = Clue {
        tile: Tile::new(2, 2, 2, 2),
        rotation: Rotation::Rot0,
        at: Indx { col: 0, row: 0 },
    };
    first.apply(&mut board);
    second.apply(&mut board);
    assert_eq!(*board.get(0, 0), Some(Tile::new(2, 2, 2, 2)));
}
