use vstd::prelude::*;

use crate::point::{point_le, Point};
use crate::range::Range;

verus! {

/// A single text mutation, described for incremental re-parse.
///
/// Values are caller-supplied and are not validated beyond their shape: an
/// impossible edit is passed through, and position adjustment stays total
/// (saturating at the top of the offset space) so that it never panics.
#[derive(Clone, Copy, PartialEq, Eq, Structural, Debug)]
pub struct InputEdit {
    pub start_offset: u64,
    pub old_end_offset: u64,
    pub new_end_offset: u64,
    pub start_point: Point,
    pub old_end_point: Point,
    pub new_end_point: Point,
}

/// Addition that saturates at the top of the offset space instead of wrapping.
pub open spec fn sat_add(a: u64, b: u64) -> u64 {
    if a + b <= u64::MAX {
        (a + b) as u64
    } else {
        u64::MAX
    }
}

/// How an edit moves a recorded offset: positions at or before the edit's
/// start are untouched; positions at or past the old end are shifted by the
/// edit's growth; positions inside the replaced span collapse to the new end.
pub open spec fn adjusted_offset(e: InputEdit, o: u64) -> u64 {
    if o <= e.start_offset {
        o
    } else if o >= e.old_end_offset {
        sat_add(e.new_end_offset, (o - e.old_end_offset) as u64)
    } else {
        e.new_end_offset
    }
}

/// How an edit moves a recorded point, mirroring `adjusted_offset` in
/// row/column coordinates.
pub open spec fn adjusted_point(e: InputEdit, p: Point) -> Point {
    if point_le(p, e.start_point) {
        p
    } else if point_le(e.old_end_point, p) {
        Point {
            row: sat_add(e.new_end_point.row, (p.row - e.old_end_point.row) as u64),
            column: if p.row == e.old_end_point.row {
                sat_add(e.new_end_point.column, (p.column - e.old_end_point.column) as u64)
            } else {
                p.column
            },
        }
    } else {
        e.new_end_point
    }
}

/// Both ends of a span, moved by an edit.
pub open spec fn adjusted_range(e: InputEdit, r: Range) -> Range {
    Range {
        start_point: adjusted_point(e, r.start_point),
        end_point: adjusted_point(e, r.end_point),
        start_offset: adjusted_offset(e, r.start_offset),
        end_offset: adjusted_offset(e, r.end_offset),
    }
}

fn saturating_add(a: u64, b: u64) -> (r: u64)
    ensures
        r == sat_add(a, b),
{
    if b <= u64::MAX - a {
        a + b
    } else {
        u64::MAX
    }
}

impl InputEdit {
    /// Moves one recorded offset the way this edit moves text.
    pub fn adjust_offset(&self, o: u64) -> (r: u64)
        ensures
            r == adjusted_offset(*self, o),
    {
        if o <= self.start_offset {
            o
        } else if o >= self.old_end_offset {
            saturating_add(self.new_end_offset, o - self.old_end_offset)
        } else {
            self.new_end_offset
        }
    }

    /// Moves one recorded point the way this edit moves text.
    pub fn adjust_point(&self, p: &Point) -> (r: Point)
        ensures
            r == adjusted_point(*self, *p),
    {
        if p.le(&self.start_point) {
            *p
        } else if self.old_end_point.le(p) {
            let row = saturating_add(self.new_end_point.row, p.row - self.old_end_point.row);
            let column = if p.row == self.old_end_point.row {
                saturating_add(self.new_end_point.column, p.column - self.old_end_point.column)
            } else {
                p.column
            };
            Point { row, column }
        } else {
            self.new_end_point
        }
    }

    /// Moves both ends of a span the way this edit moves text.
    pub fn adjust_range(&self, r: &Range) -> (out: Range)
        ensures
            out == adjusted_range(*self, *r),
    {
        Range {
            start_point: self.adjust_point(&r.start_point),
            end_point: self.adjust_point(&r.end_point),
            start_offset: self.adjust_offset(r.start_offset),
            end_offset: self.adjust_offset(r.end_offset),
        }
    }
}

/// An edit leaves untouched every position at or before its start.
pub proof fn lemma_edit_preserves_prefix(e: InputEdit, o: u64, p: Point)
    requires
        o <= e.start_offset,
        point_le(p, e.start_point),
    ensures
        adjusted_offset(e, o) == o,
        adjusted_point(e, p) == p,
{
}

/// A span lying entirely at or before an edit's start keeps its range.
pub proof fn lemma_edit_preserves_range_before(e: InputEdit, r: Range)
    requires
        r.wf(),
        r.end_offset <= e.start_offset,
        point_le(r.end_point, e.start_point),
    ensures
        adjusted_range(e, r) == r,
{
}

} // verus!
