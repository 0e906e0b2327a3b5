//! Quarter-turn rotations and their arithmetic.

use vstd::prelude::*;

verus! {

/// The rotation of a tile.
///
/// When a tile is rotated, the edges shift around in a cycle,
/// counter-clockwise: each step of rotation moves every edge one side
/// counter-clockwise around the tile.
#[derive(Clone, Copy, Debug, PartialEq, Eq, Structural)]
pub enum Rotation {
    /// No rotation.
    Rot0,
    /// Rotation 90 degrees counter-clockwise.
    Rot90,
    /// Rotation 180 degrees (flip).
    Rot180,
    /// Rotation 270 degrees counter-clockwise, 90 degrees clockwise.
    Rot270,
}

impl Rotation {
    /// The number of counter-clockwise quarter turns this rotation performs.
    pub open spec fn turns(self) -> int {
        match self {
            Rotation::Rot0 => 0,
            Rotation::Rot90 => 1,
            Rotation::Rot180 => 2,
            Rotation::Rot270 => 3,
        }
    }

    /// The rotation performing `n` counter-clockwise quarter turns,
    /// for `n` in `0..4`.
    pub open spec fn of_turns(n: int) -> Rotation {
        if n == 0 {
            Rotation::Rot0
        } else if n == 1 {
            Rotation::Rot90
        } else if n == 2 {
            Rotation::Rot180
        } else {
            Rotation::Rot270
        }
    }

    /// The quarter-turn count as a machine integer.
    pub fn index(self) -> (r: u8)
        ensures
            r as int == self.turns(),
    {
        match self {
            Rotation::Rot0 => 0,
            Rotation::Rot90 => 1,
            Rotation::Rot180 => 2,
            Rotation::Rot270 => 3,
        }
    }

    /// Look a rotation up by its quarter-turn count.
    ///
    /// Out-of-range indices read from external data must be rejected before
    /// conversion, so this total lookup asks its caller for a valid index.
    pub fn from_index(i: u8) -> (r: Rotation)
        requires
            i < 4,
        ensures
            r == Rotation::of_turns(i as int),
    {
        if i == 0 {
            Rotation::Rot0
        } else if i == 1 {
            Rotation::Rot90
        } else if i == 2 {
            Rotation::Rot180
        } else {
            Rotation::Rot270
        }
    }

    /// Composition of two rotations: addition of quarter turns, modulo 4.
    pub open spec fn spec_add(self, rhs: Rotation) -> Rotation {
        Rotation::of_turns((self.turns() + rhs.turns()) % 4)
    }

    /// Compose this rotation with another one.
    pub fn add(self, rhs: Rotation) -> (r: Rotation)
        ensures
            r == self.spec_add(rhs),
    {
        let i = self.index() + rhs.index();
        Rotation::from_index(i % 4)
    }

    /// What reversing a rotation yields: the same turn in the opposite sense.
    pub open spec fn spec_reverse(self) -> Rotation {
        match self {
            Rotation::Rot0 => Rotation::Rot0,
            Rotation::Rot90 => Rotation::Rot270,
            Rotation::Rot180 => Rotation::Rot180,
            Rotation::Rot270 => Rotation::Rot90,
        }
    }

    /// Reverse a rotation.
    ///
    /// Effectively this translates between clockwise and anti-clockwise
    /// rotations.
    pub fn reverse(self) -> (r: Rotation)
        ensures
            r == self.spec_reverse(),
    {
        match self {
            Rotation::Rot0 => Rotation::Rot0,
            Rotation::Rot90 => Rotation::Rot270,
            Rotation::Rot180 => Rotation::Rot180,
            Rotation::Rot270 => Rotation::Rot90,
        }
    }
}

/// Reversing a rotation twice gives the rotation back.
pub proof fn lemma_reverse_involution(r: Rotation)
    ensures
        r.spec_reverse().spec_reverse() == r,
{
}

/// Composition of rotations has `Rot0` as its identity.
pub proof fn lemma_add_identity(r: Rotation)
    ensures
        r.spec_add(Rotation::Rot0) == r,
        Rotation::Rot0.spec_add(r) == r,
{
}

/// Composition of rotations is commutative.
pub proof fn lemma_add_commutes(r1: Rotation, r2: Rotation)
    ensures
        r1.spec_add(r2) == r2.spec_add(r1),
{
}

/// Composition of rotations is associative.
pub proof fn lemma_add_associates(r1: Rotation, r2: Rotation, r3: Rotation)
    ensures
        r1.spec_add(r2).spec_add(r3) == r1.spec_add(r2.spec_add(r3)),
{
}

/// A rotation composed with its reverse performs no turn at all.
pub proof fn lemma_add_reverse(r: Rotation)
    ensures
        r.spec_add(r.spec_reverse()) == Rotation::Rot0,
{
}

} // verus!
