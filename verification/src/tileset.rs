//! Puzzle-numbered tile collections and their validated identifiers.

use vstd::prelude::*;

use crate::tiles::Tile;

verus! {

/// The largest number of tiles a [`TileSet`] may hold.
pub const MAX_TILES: usize = 256;

/// The error returned when a tile set would exceed [`MAX_TILES`] entries.
#[derive(Clone, Copy, Debug, PartialEq, Eq, Structural)]
pub struct CapacityError {
    /// How many tiles were offered.
    pub count: usize,
}

/// The error returned when a puzzle tile number is out of range.
#[derive(Clone, Copy, Debug, PartialEq, Eq, Structural)]
pub struct TileNumberError {
    /// The rejected tile number.
    pub number: usize,
}

/// The ID of a puzzle tile.
///
/// Tile IDs are issued by the tile set they index into, already
/// range-checked; tiles are counted from 1 in the puzzle numbering scheme,
/// while the ID records the 0-based storage index.  An ID should not be used
/// to look tiles up in another tile set: a lookup demands proof that the
/// index lies inside the set it is applied to.
#[derive(Clone, Copy, Debug, PartialEq, Eq, Structural)]
pub struct TileID {
    index: u8,
}

impl TileID {
    /// The 0-based storage index this ID denotes.
    pub closed spec fn spec_index(self) -> int {
        self.index as int
    }

    /// The 0-based storage index as a machine integer.
    pub fn index(&self) -> (r: usize)
        ensures
            r as int == self.spec_index(),
    {
        self.index as usize
    }

    /// The 1-based puzzle number this ID was issued for.
    pub fn number(&self) -> (r: usize)
        ensures
            r == self.spec_index() + 1,
    {
        (self.index as usize) + 1
    }
}

/// A complete tileset for an eternity-style puzzle.
///
/// The set stores exactly the puzzle's tiles, 0-based; tile number `k` of
/// the puzzle's 1-based numbering scheme lives at storage index `k - 1`.
/// A tile set holds at most [`MAX_TILES`] tiles.
#[derive(Debug)]
pub struct TileSet<E> {
    tiles: Vec<Tile<E>>,
}

impl<E> View for TileSet<E> {
    type V = Seq<Tile<E>>;

    closed spec fn view(&self) -> Seq<Tile<E>> {
        self.tiles@
    }
}

impl<E> TileSet<E> {
    #[verifier::type_invariant]
    spec fn inv(self) -> bool {
        self.tiles@.len() <= 256
    }

    /// Create a new tileset, using the tiles supplied in the vector.
    ///
    /// The zeroth element of the tiles vector becomes the tile with ID 1.
    /// A vector of more than [`MAX_TILES`] tiles is rejected.
    pub fn new(tiles: Vec<Tile<E>>) -> (r: Result<TileSet<E>, CapacityError>)
        ensures
            match r {
                Ok(ts) => tiles@.len() <= MAX_TILES && ts@ == tiles@,
                Err(e) => tiles@.len() > MAX_TILES && e == (CapacityError {
                    count: tiles@.len() as usize,
                }),
            },
    {
        if tiles.len() > MAX_TILES {
            Err(CapacityError { count: tiles.len() })
        } else {
            Ok(TileSet { tiles })
        }
    }

    /// Get the length of this tileset.
    pub fn len(&self) -> (r: usize)
        ensures
            r == self@.len(),
    {
        self.tiles.len()
    }

    /// Convert a 1-based puzzle tile number into a validated [`TileID`].
    ///
    /// Numbers outside `1..=len` are rejected.
    pub fn id(&self, idx: usize) -> (r: Result<TileID, TileNumberError>)
        ensures
            match r {
                Ok(tid) => 1 <= idx <= self@.len() && tid.spec_index() == idx - 1,
                Err(e) => !(1 <= idx <= self@.len()) && e == (TileNumberError { number: idx }),
            },
    {
        proof {
            use_type_invariant(self);
        }
        if idx == 0 || idx > self.tiles.len() {
            Err(TileNumberError { number: idx })
        } else {
            Ok(TileID { index: (idx - 1) as u8 })
        }
    }

    /// Look a tile up by a validated ID.
    ///
    /// This is the unchecked fast path: the caller proves that the ID
    /// indexes into this tile set, as every ID issued by [`TileSet::id`] on
    /// the same set does.
    pub fn get(&self, id: TileID) -> (r: &Tile<E>)
        requires
            id.spec_index() < self@.len(),
        ensures
            *r == self@[id.spec_index()],
    {
        &self.tiles[id.index()]
    }

    /// Look a tile up by its 1-based puzzle number, rejecting numbers
    /// outside `1..=len`.
    ///
    /// This is the checked counterpart of [`TileSet::get`].
    pub fn lookup(&self, number: usize) -> (r: Result<&Tile<E>, TileNumberError>)
        ensures
            match r {
                Ok(t) => 1 <= number <= self@.len() && *t == self@[number - 1],
                Err(e) => !(1 <= number <= self@.len()) && e == (TileNumberError {
                    number,
                }),
            },
    {
        match self.id(number) {
            Ok(tid) => Ok(self.get(tid)),
            Err(e) => Err(e),
        }
    }

    /// Read the tile at a 0-based storage index, in storage order.
    pub fn tile_at(&self, index: usize) -> (r: Option<&Tile<E>>)
        ensures
            match r {
                Some(t) => index < self@.len() && *t == self@[index as int],
                None => index >= self@.len(),
            },
    {
        if index < self.tiles.len() {
            Some(&self.tiles[index])
        } else {
            None
        }
    }
}

} // verus!
