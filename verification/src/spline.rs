//! Which part of a spline segment is removed when it is split.
use vstd::prelude::*;

verus! {

/// The part of a segment that a split removes.
#[derive(Debug, Clone, Copy, PartialEq, Eq, Structural)]
pub enum SegmentRemovalOp {
    RemoveLeft,
    RemoveRight,
}

} // verus!
