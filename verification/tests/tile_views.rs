//! Tile construction, rotated views, materialization and classification.

use e2rs::e2::E2Edge;
use e2rs::rotation::Rotation;
use e2rs::tiles::{Side, Tile};

const ROTATIONS: [Rotation; 4] = [
    Rotation::Rot0,
    Rotation::Rot90,
    Rotation::Rot180,
    Rotation::Rot270,
];

fn sample_tile() -> Tile<u8> {
    Tile::new(1, 2, 3, 4)
}

#[test]
fn new_stores_edges_in_compass_order() {
    let t = sample_tile();
    assert_eq!(*t.edge(Side::North), 1);
    assert_eq!(*t.edge(Side::East), 2);
    assert_eq!(*t.edge(Side::South), 3);
    assert_eq!(*t.edge(Side::West), 4);
}

#[test]
fn identity_rotation_materializes_to_the_same_tile() {
    let t = sample_tile();
    assert_eq!(t.rotate(Rotation::Rot0).apply(), t);
}

#[test]
fn materialization_is_idempotent() {
    let t = sample_tile();
    for r in ROTATIONS {
        let once = t.rotate(r).apply();
        assert_eq!(once.rotate(Rotation::Rot0).apply(), once);
    }
}

#[test]
fn quarter_turn_materialization_permutes_edges() {
    let t = Tile::new('a', 'b', 'c', 'd');
    assert_eq!(t.rotate(Rotation::Rot90).apply(), Tile::new('d', 'a', 'b', 'c'));
    assert_eq!(t.rotate(Rotation::Rot180).apply(), Tile::new('c', 'd', 'a', 'b'));
    assert_eq!(t.rotate(Rotation::Rot270).apply(), Tile::new('b', 'c', 'd', 'a'));
}

#[test]
fn rotated_view_reads_through_the_rotation() {
    let t = sample_tile();
    let view = t.rotate(Rotation::Rot90);
    assert_eq!(*view.edge(Side::North), *t.edge(Side::East));
    assert_eq!(*view.edge(Side::East), *t.edge(Side::South));
    assert_eq!(*view.edge(Side::South), *t.edge(Side::West));
    assert_eq!(*view.edge(Side::West), *t.edge(Side::North));
}

#[test]
fn composing_view_rotations_adds_them() {
    let t = sample_tile();
    let twice = t.rotate(Rotation::Rot90).rotate(Rotation::Rot90);
    assert_eq!(twice.rotation, Rotation::Rot180);
    assert_eq!(twice.apply(), t.rotate(Rotation::Rot180).apply());
}

#[test]
fn with_edge_replaces_one_side() {
    let t = sample_tile().with_edge(Side::South, 9);
    assert_eq!(t, Tile::new(1, 2, 9, 4));
}

#[test]
fn corner_tile_has_two_border_edges() {
    let t = Tile::new(E2Edge::Outside, E2Edge::Edge1, E2Edge::Edge2, E2Edge::Outside);
    assert!(t.is_corner());
    assert!(!t.is_edge());
    assert!(t.is_border());
}

#[test]
fn edge_tile_has_one_border_edge() {
    let t = Tile::new(E2Edge::Outside, E2Edge::Edge1, E2Edge::Edge2, E2Edge::Edge3);
    assert!(!t.is_corner());
    assert!(t.is_edge());
    assert!(t.is_border());
}

#[test]
fn interior_tile_has_no_border_edge() {
    let t = Tile::new(E2Edge::Edge4, E2Edge::Edge1, E2Edge::Edge2, E2Edge::Edge3);
    assert!(!t.is_corner());
    assert!(!t.is_edge());
    assert!(!t.is_border());
}
