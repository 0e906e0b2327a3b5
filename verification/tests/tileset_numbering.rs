//! Tile set construction, puzzle numbering and validated lookups.

use e2rs::e2::E2Edge;
use e2rs::tiles::Tile;
use e2rs::tileset::{CapacityError, TileSet};

fn coded_tile(n: u8) -> Tile<u8> {
    Tile::new(n, n, n, n)
}

#[test]
fn tileset_length_matches_record_count() {
    let tiles = vec![coded_tile(1), coded_tile(2), coded_tile(3), coded_tile(4)];
    let set = TileSet::new(tiles).unwrap();
    assert_eq!(set.len(), 4);
}

#[test]
fn every_number_in_range_resolves() {
    let tiles = vec![coded_tile(1), coded_tile(2), coded_tile(3), coded_tile(4)];
    let set = TileSet::new(tiles).unwrap();
    for k in 1..=4usize {
        let id = set.id(k).unwrap();
        assert_eq!(id.number(), k);
        assert_eq!(id.index(), k - 1);
        assert_eq!(*set.get(id), coded_tile(k as u8));
    }
}

#[test]
fn zero_and_past_the_end_are_rejected() {
    let tiles = vec![coded_tile(1), coded_tile(2), coded_tile(3), coded_tile(4)];
    let set = TileSet::new(tiles).unwrap();
    assert!(set.id(0).is_err());
    assert!(set.id(5).is_err());
    assert_eq!(set.id(0).unwrap_err().number, 0);
    assert_eq!(set.id(5).unwrap_err().number, 5);
}

#[test]
fn lookup_is_one_based() {
    let tiles = vec![coded_tile(7), coded_tile(8)];
    let set = TileSet::new(tiles).unwrap();
    assert_eq!(*set.lookup(1).unwrap(), coded_tile(7));
    assert_eq!(*set.lookup(2).unwrap(), coded_tile(8));
    assert!(set.lookup(0).is_err());
    assert!(set.lookup(3).is_err());
}

#[test]
fn tile_at_walks_storage_order() {
    let tiles = vec![coded_tile(7), coded_tile(8)];
    let set = TileSet::new(tiles).unwrap();
    assert_eq!(*set.tile_at(0).unwrap(), coded_tile(7));
    assert_eq!(*set.tile_at(1).unwrap(), coded_tile(8));
    assert!(set.tile_at(2).is_none());
}

#[test]
fn full_capacity_is_accepted() {
    let mut tiles: Vec<Tile<E2Edge>> = Vec::new();
    for _ in 0..256 {
        tiles.push(Tile::new(
            E2Edge::Outside,
            E2Edge::Edge1,
            E2Edge::Edge2,
            E2Edge::Edge3,
        ));
    }
    let set = TileSet::new(tiles).unwrap();
    assert_eq!(set.len(), 256);
    assert!(set.id(256).is_ok());
    assert!(set.id(257).is_err());
}

#[test]
fn over_capacity_is_rejected() {
    let mut tiles: Vec<Tile<E2Edge>> = Vec::new();
    for _ in 0..257 {
        tiles.push(Tile::new(
            E2Edge::Outside,
            E2Edge::Edge1,
            E2Edge::Edge2,
            E2Edge::Edge3,
        ));
    }
    let err = TileSet::new(tiles).unwrap_err();
    assert_eq!(err, CapacityError { count: 257 });
}
