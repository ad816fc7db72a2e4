//! Extents of dense two-dimensional arrays and the rules by which they combine.
use vstd::prelude::*;

verus! {

/// The extent of a dense two-dimensional array.
#[derive(Clone, Copy, Debug, PartialEq, Eq, Structural)]
pub struct Shape {
    pub rows: usize,
    pub cols: usize,
}

impl Shape {
    /// The shape of a column vector with `rows` entries.
    pub open spec fn column_of(rows: usize) -> Shape {
        Shape { rows, cols: 1 }
    }

    /// The shape of the transposed array.
    pub open spec fn transposed(self) -> Shape {
        Shape { rows: self.cols, cols: self.rows }
    }

    /// The shape of the matrix product `self · rhs`, which exists only when the
    /// inner extents agree.
    pub open spec fn times(self, rhs: Shape) -> Option<Shape> {
        if self.cols == rhs.rows {
            Some(Shape { rows: self.rows, cols: rhs.cols })
        } else {
            None
        }
    }

    /// The shape of a column vector with `rows` entries.
    pub fn column(rows: usize) -> (shape: Shape)
        ensures
            shape == Shape::column_of(rows),
    {
        Shape { rows, cols: 1 }
    }

    /// Whether this is a column vector with exactly `rows` entries.
    pub fn is_column(&self, rows: usize) -> (yes: bool)
        ensures
            yes == (*self == Shape::column_of(rows)),
    {
        self.rows == rows && self.cols == 1
    }
}

} // verus!
