use vstd::prelude::*;

verus! {

/// A position in source text: a row and a column, both counted from zero.
///
/// The column is expressed in the position unit native to the active backend
/// (bytes for the native engine, UTF-16 code units for the sandboxed one);
/// the facade never converts between the two units.
#[derive(Clone, Copy, PartialEq, Eq, Structural, Debug)]
pub struct Point {
    pub row: u64,
    pub column: u64,
}

/// Lexicographic order on points: by row, then by column.
pub open spec fn point_le(a: Point, b: Point) -> bool {
    a.row < b.row || (a.row == b.row && a.column <= b.column)
}

/// Strict lexicographic order on points.
pub open spec fn point_lt(a: Point, b: Point) -> bool {
    a.row < b.row || (a.row == b.row && a.column < b.column)
}

impl Point {
    pub fn new(row: u64, column: u64) -> (r: Point)
        ensures
            r.row == row,
            r.column == column,
    {
        Point { row, column }
    }

    /// Whether this point lies at or before `other`, by row then column.
    pub fn le(&self, other: &Point) -> (r: bool)
        ensures
            r == point_le(*self, *other),
    {
        self.row < other.row || (self.row == other.row && self.column <= other.column)
    }

    /// Whether this point lies strictly before `other`, by row then column.
    pub fn lt(&self, other: &Point) -> (r: bool)
        ensures
            r == point_lt(*self, *other),
    {
        self.row < other.row || (self.row == other.row && self.column < other.column)
    }
}

/// The order is transitive.
pub proof fn lemma_point_le_trans(a: Point, b: Point, c: Point)
    requires
        point_le(a, b),
        point_le(b, c),
    ensures
        point_le(a, c),
{
}

} // verus!
