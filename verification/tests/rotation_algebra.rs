//! Rotation and side algebra scenarios.

use e2rs::rotation::Rotation;
use e2rs::tiles::Side;

const ROTATIONS: [Rotation; 4] = [
    Rotation::Rot0,
    Rotation::Rot90,
    Rotation::Rot180,
    Rotation::Rot270,
];

const SIDES: [Side; 4] = [Side::North, Side::East, Side::South, Side::West];

#[test]
fn rotate_by_identity_keeps_every_side() {
    for s in SIDES {
        assert_eq!(s.rotate(Rotation::Rot0), s);
    }
}

#[test]
fn rotate_composes_with_rotation_addition() {
    for s in SIDES {
        for r1 in ROTATIONS {
            for r2 in ROTATIONS {
                assert_eq!(s.rotate(r1).rotate(r2), s.rotate(r1.add(r2)));
            }
        }
    }
}

#[test]
fn rotate_advances_clockwise_cycle() {
    assert_eq!(Side::North.rotate(Rotation::Rot90), Side::East);
    assert_eq!(Side::East.rotate(Rotation::Rot90), Side::South);
    assert_eq!(Side::South.rotate(Rotation::Rot90), Side::West);
    assert_eq!(Side::West.rotate(Rotation::Rot90), Side::North);
}

#[test]
fn flip_swaps_opposite_sides() {
    assert_eq!(Side::North.flip(), Side::South);
    assert_eq!(Side::South.flip(), Side::North);
    assert_eq!(Side::East.flip(), Side::West);
    assert_eq!(Side::West.flip(), Side::East);
}

#[test]
fn flip_is_a_half_turn() {
    for s in SIDES {
        assert_eq!(s.flip(), s.rotate(Rotation::Rot180));
    }
}

#[test]
fn reverse_swaps_quarter_turns() {
    assert_eq!(Rotation::Rot90.reverse(), Rotation::Rot270);
    assert_eq!(Rotation::Rot270.reverse(), Rotation::Rot90);
    assert_eq!(Rotation::Rot0.reverse(), Rotation::Rot0);
    assert_eq!(Rotation::Rot180.reverse(), Rotation::Rot180);
}

#[test]
fn reverse_twice_is_identity() {
    for r in ROTATIONS {
        assert_eq!(r.reverse().reverse(), r);
    }
}

#[test]
fn rotation_addition_is_mod_four() {
    assert_eq!(Rotation::Rot90.add(Rotation::Rot90), Rotation::Rot180);
    assert_eq!(Rotation::Rot180.add(Rotation::Rot180), Rotation::Rot0);
    assert_eq!(Rotation::Rot270.add(Rotation::Rot90), Rotation::Rot0);
    assert_eq!(Rotation::Rot270.add(Rotation::Rot270), Rotation::Rot180);
    for r in ROTATIONS {
        assert_eq!(r.add(Rotation::Rot0), r);
        assert_eq!(Rotation::Rot0.add(r), r);
    }
}

#[test]
fn rotation_index_table_order() {
    for (i, r) in ROTATIONS.iter().enumerate() {
        assert_eq!(Rotation::from_index(i as u8), *r);
        assert_eq!(r.index(), i as u8);
    }
}
