//! Sides, edge capabilities, tiles and rotated tile views.

use vstd::prelude::*;

use crate::rotation::Rotation;

verus! {

/// The four sides of a tile.
///
/// Sides are identified by their compass cardinalities, in clockwise order
/// starting at the top.  North/south point up/down in columns; east/west
/// point right/left in rows.
#[derive(Clone, Copy, Debug, PartialEq, Eq, Structural)]
pub enum Side {
    /// The North, top side.
    North,
    /// The East, right side.
    East,
    /// The South, bottom side.
    South,
    /// The West, left side.
    West,
}

impl Side {
    /// The position of this side in the fixed clockwise cycle
    /// North, East, South, West.
    pub open spec fn position(self) -> int {
        match self {
            Side::North => 0,
            Side::East => 1,
            Side::South => 2,
            Side::West => 3,
        }
    }

    /// The side at position `n` of the clockwise cycle, for `n` in `0..4`.
    pub open spec fn of_position(n: int) -> Side {
        if n == 0 {
            Side::North
        } else if n == 1 {
            Side::East
        } else if n == 2 {
            Side::South
        } else {
            Side::West
        }
    }

    /// The cycle position as a machine integer.
    pub fn index(self) -> (r: u8)
        ensures
            r as int == self.position(),
    {
        match self {
            Side::North => 0,
            Side::East => 1,
            Side::South => 2,
            Side::West => 3,
        }
    }

    /// Look a side up by its cycle position.
    pub fn from_index(i: u8) -> (r: Side)
        requires
            i < 4,
        ensures
            r == Side::of_position(i as int),
    {
        if i == 0 {
            Side::North
        } else if i == 1 {
            Side::East
        } else if i == 2 {
            Side::South
        } else {
            Side::West
        }
    }

    /// Where a rotation carries a side: the side advanced around the cycle
    /// by the rotation's quarter-turn count.
    pub open spec fn spec_rotate(self, rotation: Rotation) -> Side {
        Side::of_position((self.position() + rotation.turns()) % 4)
    }

    /// Rotate this side.
    pub fn rotate(self, rotation: Rotation) -> (r: Side)
        ensures
            r == self.spec_rotate(rotation),
    {
        let i = self.index() + rotation.index();
        Side::from_index(i % 4)
    }

    /// Where flipping carries a side: two steps around the cycle.
    pub open spec fn spec_flip(self) -> Side {
        Side::of_position((self.position() + 2) % 4)
    }

    /// Flip the direction of the side, north <-> south and east <-> west.
    ///
    /// Flipping is the same as rotating by 180 degrees.
    pub fn flip(self) -> (r: Side)
        ensures
            r == self.spec_flip(),
            r == self.spec_rotate(Rotation::Rot180),
    {
        let i = self.index() + 2;
        Side::from_index(i % 4)
    }
}

/// Rotating by `Rot0` leaves a side in place, and rotating twice in
/// succession is one rotation by the composed amount.
pub proof fn lemma_rotate_compose(s: Side, r1: Rotation, r2: Rotation)
    ensures
        s.spec_rotate(Rotation::Rot0) == s,
        s.spec_rotate(r1).spec_rotate(r2) == s.spec_rotate(r1.spec_add(r2)),
{
}

/// Shared operations on things that are edges.
///
/// An edge type provides a border test, telling which edge values must face
/// the puzzle's outer boundary, and a blank value used for unfilled tile
/// slots.
pub trait Edge: Sized {
    /// Whether this edge value must face the puzzle's outer boundary.
    spec fn spec_is_border(self) -> bool;

    /// The blank edge value.
    spec fn spec_blank() -> Self;

    /// Check if the edge is a border, that must be placed to the outside of
    /// the puzzle.
    fn is_border(&self) -> (r: bool)
        ensures
            r == self.spec_is_border(),
    ;

    /// The blank edge value, used for unfilled tile slots.
    fn blank() -> (r: Self)
        ensures
            r == Self::spec_blank(),
    ;
}

/// The numeric edge-code mapping an edge type supplies to the tile-file
/// parser.
///
/// Tile records carry each edge as an unsigned byte-range code; the edge
/// type decides which codes are meaningful and what value each denotes.
pub trait EdgeCode: Sized {
    /// Whether `code` denotes an edge value of this type.
    spec fn spec_code_valid(code: u8) -> bool;

    /// The edge value a valid `code` denotes.
    spec fn spec_of_code(code: u8) -> Self;

    /// The code this edge value is written as.
    spec fn spec_code(self) -> u8;

    /// Convert a numeric code into an edge value, rejecting codes that
    /// denote no edge.
    fn of_code(code: u8) -> (r: Option<Self>)
        ensures
            match r {
                Some(e) => Self::spec_code_valid(code) && e == Self::spec_of_code(code),
                None => !Self::spec_code_valid(code),
            },
    ;

    /// The code this edge value is written as.
    fn code(&self) -> (r: u8)
        ensures
            r == self.spec_code(),
    ;

    /// Every edge value's own code is valid and denotes that value back.
    proof fn lemma_code_roundtrip(e: Self)
        ensures
            Self::spec_code_valid(e.spec_code()),
            Self::spec_of_code(e.spec_code()) == e,
    ;
}

/// A tile is 4 edges, ordered as North, East, South, West, or if you prefer,
/// clockwise starting at the top.
///
/// The edges are stored in that fixed order regardless of any rotation later
/// applied to a placement.
#[derive(Clone, Copy, Debug, PartialEq, Eq, Structural)]
pub struct Tile<E> {
    /// The edge on the North side.
    pub north: E,
    /// The edge on the East side.
    pub east: E,
    /// The edge on the South side.
    pub south: E,
    /// The edge on the West side.
    pub west: E,
}

impl<E> Tile<E> {
    /// Make a new tile, providing the edges in the order of the parameter
    /// names.
    pub fn new(north: E, east: E, south: E, west: E) -> (r: Tile<E>)
        ensures
            r == (Tile { north, east, south, west }),
    {
        Tile { north, east, south, west }
    }

    /// The edge this tile carries on the given side.
    pub open spec fn spec_edge(self, side: Side) -> E {
        match side {
            Side::North => self.north,
            Side::East => self.east,
            Side::South => self.south,
            Side::West => self.west,
        }
    }

    /// Read the edge on the given side, without regard to any rotation.
    pub fn edge(&self, side: Side) -> (r: &E)
        ensures
            *r == self.spec_edge(side),
    {
        match side {
            Side::North => &self.north,
            Side::East => &self.east,
            Side::South => &self.south,
            Side::West => &self.west,
        }
    }

    /// This tile with the edge on `side` replaced by `e`.
    pub open spec fn spec_with_edge(self, side: Side, e: E) -> Tile<E> {
        match side {
            Side::North => Tile { north: e, east: self.east, south: self.south, west: self.west },
            Side::East => Tile { north: self.north, east: e, south: self.south, west: self.west },
            Side::South => Tile { north: self.north, east: self.east, south: e, west: self.west },
            Side::West => Tile { north: self.north, east: self.east, south: self.south, west: e },
        }
    }

    /// Replace the edge on the given side.
    pub fn with_edge(self, side: Side, e: E) -> (r: Tile<E>)
        ensures
            r == self.spec_with_edge(side, e),
    {
        match side {
            Side::North => Tile { north: e, east: self.east, south: self.south, west: self.west },
            Side::East => Tile { north: self.north, east: e, south: self.south, west: self.west },
            Side::South => Tile { north: self.north, east: self.east, south: e, west: self.west },
            Side::West => Tile { north: self.north, east: self.east, south: self.south, west: e },
        }
    }

    /// Rotate this tile.
    ///
    /// The result is a lazy view: no edge data is copied around until the
    /// view is materialized with [`RotatedTile::apply`].
    pub fn rotate(self, rotation: Rotation) -> (r: RotatedTile<E>)
        ensures
            r == (RotatedTile { tile: self, rotation }),
    {
        RotatedTile { tile: self, rotation }
    }
}

impl<E: Edge> Tile<E> {
    /// How many of the four edges are border edges.
    pub open spec fn spec_border_count(self) -> int {
        (if self.north.spec_is_border() { 1int } else { 0 })
            + (if self.east.spec_is_border() { 1int } else { 0 })
            + (if self.south.spec_is_border() { 1int } else { 0 })
            + (if self.west.spec_is_border() { 1int } else { 0 })
    }

    /// Count the border edges among the four.
    fn count_border(&self) -> (r: usize)
        ensures
            r as int == self.spec_border_count(),
    {
        let mut count: usize = 0;
        if self.north.is_border() {
            count += 1;
        }
        if self.east.is_border() {
            count += 1;
        }
        if self.south.is_border() {
            count += 1;
        }
        if self.west.is_border() {
            count += 1;
        }
        count
    }

    /// Test if this tile is a corner piece.
    ///
    /// It assumes that there are never pieces with two opposite outside
    /// edges (e.g. N/S or E/W).
    pub fn is_corner(&self) -> (r: bool)
        ensures
            r == (self.spec_border_count() == 2),
    {
        self.count_border() == 2
    }

    /// Test if this tile is an edge piece.
    pub fn is_edge(&self) -> (r: bool)
        ensures
            r == (self.spec_border_count() == 1),
    {
        self.count_border() == 1
    }

    /// Test if this tile goes on the outside border.
    ///
    /// The border pieces are all corners and edges.
    pub fn is_border(&self) -> (r: bool)
        ensures
            r == (self.spec_border_count() > 0),
    {
        self.count_border() > 0
    }
}

/// Whether a side order names every side: the fixed caller-chosen mapping of
/// a tile record's four columns onto compass sides reaches each side once.
pub open spec fn is_side_permutation(order: Seq<Side>) -> bool {
    &&& order.len() == 4
    &&& order.contains(Side::North)
    &&& order.contains(Side::East)
    &&& order.contains(Side::South)
    &&& order.contains(Side::West)
}

/// A tile with a rotation.
///
/// The underlying tile is unaltered.  The rotated view's edges can be read
/// by their side directly, taking the rotation into account.
#[derive(Clone, Copy, Debug, PartialEq, Eq, Structural)]
pub struct RotatedTile<E> {
    /// The tile being rotated.
    pub tile: Tile<E>,
    /// The rotation to apply.
    pub rotation: Rotation,
}

impl<E> RotatedTile<E> {
    /// Rotate this rotated tile.
    ///
    /// The result is a new rotated tile that composes this rotation with the
    /// pre-existing one; the underlying tile is unchanged.
    pub fn rotate(self, rotation: Rotation) -> (r: RotatedTile<E>)
        ensures
            r.tile == self.tile,
            r.rotation == self.rotation.spec_add(rotation),
    {
        RotatedTile { tile: self.tile, rotation: self.rotation.add(rotation) }
    }

    /// The tile this view materializes to: each slot of the new tile is
    /// filled with the edge the rotation carries onto that slot's side.
    pub open spec fn spec_apply(self) -> Tile<E> {
        match self.rotation {
            Rotation::Rot0 => self.tile,
            Rotation::Rot90 => Tile {
                north: self.tile.west,
                east: self.tile.north,
                south: self.tile.east,
                west: self.tile.south,
            },
            Rotation::Rot180 => Tile {
                north: self.tile.south,
                east: self.tile.west,
                south: self.tile.north,
                west: self.tile.east,
            },
            Rotation::Rot270 => Tile {
                north: self.tile.east,
                east: self.tile.south,
                south: self.tile.west,
                west: self.tile.north,
            },
        }
    }
}

impl<E: Copy> RotatedTile<E> {
    /// Read the edge on the given side of the rotated view.
    ///
    /// The view's reading of side `s` is the underlying tile's edge at the
    /// side `s` rotates to.
    pub fn edge(&self, side: Side) -> (r: &E)
        ensures
            *r == self.tile.spec_edge(side.spec_rotate(self.rotation)),
    {
        self.tile.edge(side.rotate(self.rotation))
    }

    /// Apply the tile rotation to yield a new tile with the edges rotated
    /// in-place.
    pub fn apply(&self) -> (r: Tile<E>)
        ensures
            r == self.spec_apply(),
    {
        let north = self.tile.north;
        let east = self.tile.east;
        let south = self.tile.south;
        let west = self.tile.west;
        match self.rotation {
            Rotation::Rot0 => Tile::new(north, east, south, west),
            Rotation::Rot90 => Tile::new(west, north, east, south),
            Rotation::Rot180 => Tile::new(south, west, north, east),
            Rotation::Rot270 => Tile::new(east, south, west, north),
        }
    }
}

/// What materialization puts on each side: rotating by `k` quarter turns
/// counter-clockwise fills a slot from the side `k` steps back in the cycle,
/// so the materialized tile reads on side `s` what the underlying tile
/// carries at `s` rotated by the reversed rotation.
pub proof fn lemma_apply_fills_from_reverse<E>(rt: RotatedTile<E>, side: Side)
    ensures
        rt.spec_apply().spec_edge(side) == rt.tile.spec_edge(
            side.spec_rotate(rt.rotation.spec_reverse()),
        ),
{
}

/// Materializing under the identity rotation is a no-op.
pub proof fn lemma_apply_identity<E>(t: Tile<E>)
    ensures
        (RotatedTile { tile: t, rotation: Rotation::Rot0 }).spec_apply() == t,
{
}

/// A materialized rotation is stable: materializing it again under the
/// identity rotation yields the same tile.
pub proof fn lemma_apply_idempotent<E>(t: Tile<E>, r: Rotation)
    ensures
        (RotatedTile {
            tile: (RotatedTile { tile: t, rotation: r }).spec_apply(),
            rotation: Rotation::Rot0,
        }).spec_apply() == (RotatedTile { tile: t, rotation: r }).spec_apply(),
{
}

} // verus!
