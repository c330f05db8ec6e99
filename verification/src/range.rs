use vstd::prelude::*;

use crate::point::{point_le, point_lt, Point};

verus! {

/// A contiguous span of source text, described both as scalar offsets and as
/// points. Offsets are counts in the same unit as `Point::column`.
#[derive(Clone, Copy, PartialEq, Eq, Structural, Debug)]
pub struct Range {
    pub start_point: Point,
    pub end_point: Point,
    pub start_offset: u64,
    pub end_offset: u64,
}

/// Whether `inner` lies entirely within `outer`, in both coordinate systems.
pub open spec fn range_within(inner: Range, outer: Range) -> bool {
    outer.start_offset <= inner.start_offset
    && inner.end_offset <= outer.end_offset
    && point_le(outer.start_point, inner.start_point)
    && point_le(inner.end_point, outer.end_point)
}

impl Range {
    /// Validity: the start does not lie after the end, in either coordinate
    /// system.
    pub open spec fn wf(self) -> bool {
        self.start_offset <= self.end_offset && point_le(self.start_point, self.end_point)
    }

    /// Builds a range after checking that the start does not lie after the
    /// end; a backwards span is rejected rather than constructed.
    pub fn new(start_point: Point, end_point: Point, start_offset: u64, end_offset: u64) -> (r:
        Option<Range>)
        ensures
            match r {
                Some(rg) => {
                    &&& rg.wf()
                    &&& rg.start_point == start_point
                    &&& rg.end_point == end_point
                    &&& rg.start_offset == start_offset
                    &&& rg.end_offset == end_offset
                },
                None => !(start_offset <= end_offset && point_le(start_point, end_point)),
            },
    {
        if start_offset <= end_offset && start_point.le(&end_point) {
            Some(Range { start_point, end_point, start_offset, end_offset })
        } else {
            None
        }
    }

    /// Whether the given offset falls inside this span; the end is exclusive.
    pub fn contains_offset(&self, offset: u64) -> (r: bool)
        ensures
            r == (self.start_offset <= offset && offset < self.end_offset),
    {
        self.start_offset <= offset && offset < self.end_offset
    }

    /// Whether the given point falls inside this span; the end is exclusive.
    pub fn contains_point(&self, p: &Point) -> (r: bool)
        ensures
            r == (point_le(self.start_point, *p) && point_lt(*p, self.end_point)),
    {
        self.start_point.le(p) && p.lt(&self.end_point)
    }
}

} // verus!
