//! State of one draggable divider: the adjustable size of a split's first
//! child, the legal range for that size, the measured container rectangle,
//! and whether a drag is in progress.  One instance lives in every split
//! node of the pane tree.

use vstd::prelude::*;

use crate::geometry::{Axis, Bounds, Point};

verus! {

/// The state machine behind an interactive divider.  While a drag is
/// active, pointer positions are converted into a new size for the first
/// child, clamped into the legal range and into the container.
pub struct ResizableState {
    pub axis: Axis,
    pub size: i64,
    pub range_min: i64,
    pub range_max: i64,
    pub bounds: Bounds,
    pub resizing: bool,
}

impl ResizableState {
    /// The divider's size never leaves `[0, _]`, and its legal range is an
    /// ordered pair of non-negative pixels inside a well-formed container.
    pub open spec fn wf(self) -> bool {
        &&& 0 <= self.range_min
        &&& self.range_min <= self.range_max
        &&& 0 <= self.size
        &&& self.bounds.wf()
    }

    /// The container's extent along this divider's own axis.
    pub open spec fn spec_extent(self) -> i64 {
        self.bounds.spec_extent_along(self.axis)
    }

    /// Where a requested size ends up: clamped into the legal range from
    /// both sides, and never past the container's extent.
    pub open spec fn spec_clamped_size(self, new_size: int) -> int {
        let lo = if new_size > self.range_min { new_size } else { self.range_min as int };
        let mid = if lo < self.range_max { lo } else { self.range_max as int };
        if mid < self.spec_extent() {
            mid
        } else {
            self.spec_extent() as int
        }
    }

    pub fn new(axis: Axis, size: i64, range_min: i64, range_max: i64) -> (r: ResizableState)
        requires
            0 <= size,
            0 <= range_min,
            range_min <= range_max,
        ensures
            r == (ResizableState {
                axis,
                size,
                range_min,
                range_max,
                bounds: Bounds::spec_default(),
                resizing: false,
            }),
    {
        ResizableState { axis, size, range_min, range_max, bounds: Bounds::default(), resizing: false }
    }

    /// The current size of the first child along the axis.
    pub fn size(&self) -> (r: i64)
        ensures
            r == self.size,
    {
        self.size
    }

    /// The container rectangle measured on the last layout pass.
    pub fn bounds(&self) -> (r: Bounds)
        ensures
            r == self.bounds,
    {
        self.bounds
    }

    /// Whether a drag is in progress.
    pub fn is_resizing(&self) -> (r: bool)
        ensures
            r == self.resizing,
    {
        self.resizing
    }

    /// Applies a requested size for the first child.  While the container
    /// is unmeasured (zero extent) the request is ignored; otherwise the
    /// request is clamped into the legal range and into the container.
    pub fn resize_first_panel(&mut self, new_size: i64)
        requires
            old(self).wf(),
        ensures
            final(self).wf(),
            final(self).axis == old(self).axis,
            final(self).range_min == old(self).range_min,
            final(self).range_max == old(self).range_max,
            final(self).bounds == old(self).bounds,
            final(self).resizing == old(self).resizing,
            old(self).spec_extent() == 0 ==> final(self).size == old(self).size,
            old(self).spec_extent() != 0 ==> final(self).size as int == old(
                self,
            ).spec_clamped_size(new_size as int),
    {
        let container_size = self.bounds.extent_along(self.axis);
        if container_size == 0 {
            return ;
        }
        let mut clamped = new_size;
        if clamped < self.range_min {
            clamped = self.range_min;
        }
        if clamped > self.range_max {
            clamped = self.range_max;
        }
        if clamped > container_size {
            clamped = container_size;
        }
        self.size = clamped;
    }

    /// A press on the divider starts a drag.
    pub fn start_resizing(&mut self)
        ensures
            *final(self) == (ResizableState { resizing: true, ..*old(self) }),
    {
        self.resizing = true;
    }

    /// A release ends the drag, wherever the pointer is.
    pub fn stop_resizing(&mut self)
        ensures
            *final(self) == (ResizableState { resizing: false, ..*old(self) }),
    {
        self.resizing = false;
    }

    /// Records the container rectangle measured by a layout pass.  This
    /// never moves the divider itself; a later resize request supplies any
    /// correction against the new bounds.
    pub fn set_container_bounds(&mut self, bounds: Bounds)
        requires
            bounds.wf(),
        ensures
            *final(self) == (ResizableState { bounds, ..*old(self) }),
    {
        self.bounds = bounds;
    }

    /// The pointer's travel from the container's origin along this
    /// divider's axis: the size the first child would get.
    pub open spec fn spec_pointer_delta(self, position: Point) -> int {
        position.spec_along(self.axis) - self.bounds.spec_origin_along(self.axis)
    }

    /// A pointer move is converted into a resize request while a drag is
    /// active, and ignored otherwise (a stale event after the divider was
    /// discarded must do nothing).
    pub fn on_pointer_move(&mut self, position: Point)
        requires
            old(self).wf(),
            old(self).resizing ==> i64::MIN <= old(self).spec_pointer_delta(position)
                <= i64::MAX,
        ensures
            final(self).wf(),
            !old(self).resizing ==> *final(self) == *old(self),
            old(self).resizing ==> {
                &&& final(self).axis == old(self).axis
                &&& final(self).range_min == old(self).range_min
                &&& final(self).range_max == old(self).range_max
                &&& final(self).bounds == old(self).bounds
                &&& final(self).resizing == old(self).resizing
                &&& old(self).spec_extent() == 0 ==> final(self).size == old(self).size
                &&& old(self).spec_extent() != 0 ==> final(self).size as int == old(
                    self,
                ).spec_clamped_size(old(self).spec_pointer_delta(position))
            },
    {
        if !self.resizing {
            return ;
        }
        let coord = position.along(self.axis);
        let origin = self.bounds.origin_along(self.axis);
        let new_size = coord - origin;
        self.resize_first_panel(new_size);
    }

    /// A pointer release ends any active drag and changes nothing else.
    pub fn on_pointer_up(&mut self)
        ensures
            *final(self) == (ResizableState { resizing: false, ..*old(self) }),
    {
        if self.resizing {
            self.stop_resizing();
        }
    }
}

/// A requested divider position is clamped exactly: a value below the legal
/// range becomes the range's minimum, a value above it becomes the range's
/// maximum, and a value inside the range is applied unchanged — whenever
/// the container is measured and can hold the whole range.
pub proof fn lemma_apply_position_clamped(s: ResizableState, new_size: int)
    requires
        s.wf(),
        0 < s.spec_extent(),
        s.range_max <= s.spec_extent(),
    ensures
        new_size < s.range_min ==> s.spec_clamped_size(new_size) == s.range_min,
        new_size > s.range_max ==> s.spec_clamped_size(new_size) == s.range_max,
        s.range_min <= new_size <= s.range_max ==> s.spec_clamped_size(new_size) == new_size,
{
}

} // verus!
