//! The components that the game attaches to its entities.
use vstd::prelude::*;

verus! {

/// A step on the map: so many rows down and so many columns to the right,
/// negative for up and left.
#[derive(Clone, Copy, Debug, PartialEq, Eq)]
pub struct Direction {
    pub x: i32,
    pub y: i32,
}

/// A place on the map: row `x`, column `y`.
#[derive(Clone, Copy, Debug, PartialEq, Eq)]
pub struct Position {
    pub x: usize,
    pub y: usize,
}

/// The glyph with which an entity is drawn.
#[derive(Clone, Copy, Debug, PartialEq, Eq)]
pub struct Renderable {
    pub display: char,
}

/// Marks the entity that the player steers.
#[derive(Clone, Copy, Debug, Default, PartialEq, Eq)]
pub struct Player {}

/// The coordinate `u` moved by `i`, or zero when that would leave the range
/// of coordinates on either side.
pub open spec fn shifted(u: usize, i: i32) -> usize {
    if 0 <= u + i <= usize::MAX {
        (u + i) as usize
    } else {
        0
    }
}

impl Position {
    fn add_signed_to_usize(u: usize, i: i32) -> (r: usize)
        ensures
            r == shifted(u, i),
    {
        if i < 0 {
            let back: usize = (-(i as i64)) as usize;
            if back <= u {
                u - back
            } else {
                0
            }
        } else {
            let forth: usize = i as usize;
            if forth <= usize::MAX - u {
                u + forth
            } else {
                0
            }
        }
    }

    /// Moves the position by `dir`, each coordinate by itself.
    pub fn add_dir_mut(&mut self, dir: Direction)
        ensures
            final(self).x == shifted(old(self).x, dir.x),
            final(self).y == shifted(old(self).y, dir.y),
    {
        self.x = Self::add_signed_to_usize(self.x, dir.x);
        self.y = Self::add_signed_to_usize(self.y, dir.y);
    }

    /// The position moved by `dir`, each coordinate by itself. The position
    /// itself stays where it is.
    pub fn add_dir(&mut self, dir: &Direction) -> (moved: Self)
        ensures
            *final(self) == *old(self),
            moved.x == shifted(old(self).x, dir.x),
            moved.y == shifted(old(self).y, dir.y),
    {
        Position {
            x: Self::add_signed_to_usize(self.x, dir.x),
            y: Self::add_signed_to_usize(self.y, dir.y),
        }
    }
}

} // verus!
