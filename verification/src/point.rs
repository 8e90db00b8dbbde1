//! Buffer and display coordinates.
use vstd::prelude::*;

verus! {

/// A position in a text buffer: a zero-based row and a column within that row.
#[derive(Clone, Copy, Debug, PartialEq, Eq, PartialOrd, Ord, Structural)]
pub struct Point {
    pub row: u32,
    pub column: u32,
}

/// Lexicographic order on points: first by row, then by column.
pub open spec fn point_le(a: Point, b: Point) -> bool {
    a.row < b.row || (a.row == b.row && a.column <= b.column)
}

/// Strict lexicographic order on points.
pub open spec fn point_lt(a: Point, b: Point) -> bool {
    a.row < b.row || (a.row == b.row && a.column < b.column)
}

/// Appending the extent `b` after the position `a`: a row advance resets the column.
pub open spec fn point_add(a: Point, b: Point) -> Point {
    if b.row == 0 {
        Point { row: a.row, column: (a.column + b.column) as u32 }
    } else {
        Point { row: (a.row + b.row) as u32, column: b.column }
    }
}

/// The extent from `b` to `a` (for `b <= a`).
pub open spec fn point_sub(a: Point, b: Point) -> Point {
    if a.row == b.row {
        Point { row: 0, column: (a.column - b.column) as u32 }
    } else {
        Point { row: (a.row - b.row) as u32, column: a.column }
    }
}

impl Point {
    pub fn new(row: u32, column: u32) -> (p: Point)
        ensures
            p.row == row,
            p.column == column,
    {
        Point { row, column }
    }

    pub fn zero() -> (p: Point)
        ensures
            p.row == 0,
            p.column == 0,
    {
        Point { row: 0, column: 0 }
    }

    /// Whether `self <= other` in lexicographic order.
    pub fn le(&self, other: &Point) -> (b: bool)
        ensures
            b == point_le(*self, *other),
    {
        self.row < other.row || (self.row == other.row && self.column <= other.column)
    }

    /// Whether `self < other` in lexicographic order.
    pub fn lt(&self, other: &Point) -> (b: bool)
        ensures
            b == point_lt(*self, *other),
    {
        self.row < other.row || (self.row == other.row && self.column < other.column)
    }

    /// Appends the extent `other` after this position.
    pub fn add(&self, other: &Point) -> (p: Point)
        requires
            other.row == 0 ==> self.column + other.column <= u32::MAX,
            other.row != 0 ==> self.row + other.row <= u32::MAX,
        ensures
            p == point_add(*self, *other),
    {
        if other.row == 0 {
            Point { row: self.row, column: self.column + other.column }
        } else {
            Point { row: self.row + other.row, column: other.column }
        }
    }

    /// The extent from `other` to this position.
    pub fn sub(&self, other: &Point) -> (p: Point)
        requires
            point_le(*other, *self),
        ensures
            p == point_sub(*self, *other),
    {
        if self.row == other.row {
            Point { row: 0, column: self.column - other.column }
        } else {
            Point { row: self.row - other.row, column: self.column }
        }
    }
}

/// A position in the soft-wrapped display: a display row and a column within it.
#[derive(Clone, Copy, Debug, PartialEq, Eq, PartialOrd, Ord, Structural)]
pub struct WrapPoint {
    pub row: u32,
    pub column: u32,
}

/// Lexicographic order on wrap points.
pub open spec fn wrap_le(a: WrapPoint, b: WrapPoint) -> bool {
    a.row < b.row || (a.row == b.row && a.column <= b.column)
}

/// Appending the extent `b` after the display position `a`.
pub open spec fn wrap_add(a: WrapPoint, b: WrapPoint) -> WrapPoint {
    if b.row == 0 {
        WrapPoint { row: a.row, column: (a.column + b.column) as u32 }
    } else {
        WrapPoint { row: (a.row + b.row) as u32, column: b.column }
    }
}

/// The display extent from `start` to `point`, with a saturating column on the same row.
pub open spec fn wrap_delta_spec(point: WrapPoint, start: WrapPoint) -> WrapPoint {
    if point.row == start.row {
        WrapPoint { row: 0, column: if point.column >= start.column { (point.column - start.column) as u32 } else { 0 } }
    } else {
        WrapPoint { row: (point.row - start.row) as u32, column: point.column }
    }
}

impl WrapPoint {
    pub fn new(row: u32, column: u32) -> (p: WrapPoint)
        ensures
            p.row == row,
            p.column == column,
    {
        WrapPoint { row, column }
    }

    /// Appends the extent `other` after this display position.
    pub fn add_assign(&mut self, other: WrapPoint)
        requires
            other.row == 0 ==> old(self).column + other.column <= u32::MAX,
            other.row != 0 ==> old(self).row + other.row <= u32::MAX,
        ensures
            *final(self) == wrap_add(*old(self), other),
    {
        if other.row == 0 {
            self.column = self.column + other.column;
        } else {
            self.row = self.row + other.row;
            self.column = other.column;
        }
    }
}

/// The display extent from `start` to `point`; on the same row the column difference saturates at zero.
pub fn wrap_delta(point: WrapPoint, start: WrapPoint) -> (d: WrapPoint)
    requires
        point.row >= start.row,
    ensures
        d == wrap_delta_spec(point, start),
{
    if point.row == start.row {
        WrapPoint { row: 0, column: if point.column >= start.column { point.column - start.column } else { 0 } }
    } else {
        WrapPoint { row: point.row - start.row, column: point.column }
    }
}

} // verus!
