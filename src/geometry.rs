//! Grid coordinates and signed offsets.

use vstd::prelude::*;

verus! {

/// Number of columns of the playing field.
pub const WIDTH: usize = 10;

/// Number of rows of the playing field.
pub const HEIGHT: usize = 20;

/// Number of cells of the playing field.
pub const SIZE: usize = WIDTH * HEIGHT;

/// A cell of the grid: column `x`, row `y` (row 0 is the bottom row).
#[derive(Clone, Copy, Debug, PartialEq, Eq, Structural)]
pub struct Coordinate {
    pub x: usize,
    pub y: usize,
}

/// A signed displacement on the grid.
#[derive(Clone, Copy, Debug, PartialEq, Eq, Structural)]
pub struct Offset {
    pub x: isize,
    pub y: isize,
}

impl Coordinate {
    pub fn new(x: usize, y: usize) -> (r: Coordinate)
        ensures
            r.x == x,
            r.y == y,
    {
        Coordinate { x, y }
    }

    /// The coordinate `(0, 0)`.
    pub fn origin() -> (r: Coordinate)
        ensures
            r.x == 0,
            r.y == 0,
    {
        Coordinate { x: 0, y: 0 }
    }
}

impl Offset {
    pub fn new(x: isize, y: isize) -> (r: Offset)
        ensures
            r.x == x,
            r.y == y,
    {
        Offset { x, y }
    }

    /// The null offset.
    pub fn zero() -> (r: Offset)
        ensures
            r.x == 0,
            r.y == 0,
    {
        Offset { x: 0, y: 0 }
    }
}

/// Row-major successor of a coordinate on a grid `WIDTH` columns wide.
pub open spec fn grid_next(c: Coordinate) -> Coordinate {
    if c.x + 1 == WIDTH {
        Coordinate { x: 0, y: (c.y + 1) as usize }
    } else {
        Coordinate { x: (c.x + 1) as usize, y: c.y }
    }
}

/// Stepping through a grid in row-major order.
pub trait GridIncrement: Sized {
    /// Whether `self` can be advanced without leaving the representable range.
    spec fn can_inc(&self) -> bool;

    /// The value that follows `self`.
    spec fn next_of(&self) -> Self;

    /// Advances to the next position.
    fn grid_inc(&mut self)
        requires
            old(self).can_inc(),
        ensures
            *final(self) == old(self).next_of(),
    ;

    /// Returns the next position.
    fn grid_incd(self) -> (r: Self)
        requires
            self.can_inc(),
        ensures
            r == self.next_of(),
    ;
}

impl GridIncrement for Coordinate {
    open spec fn can_inc(&self) -> bool {
        self.x < WIDTH && self.y < usize::MAX
    }

    open spec fn next_of(&self) -> Coordinate {
        grid_next(*self)
    }

    fn grid_inc(&mut self) {
        self.x = self.x + 1;
        if self.x == WIDTH {
            self.x = 0;
            self.y = self.y + 1;
        }
    }

    fn grid_incd(self) -> (r: Coordinate) {
        let mut c = self;
        c.grid_inc();
        c
    }
}

} // verus!
