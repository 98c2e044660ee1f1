//! Axis-aligned bounding boxes and their overlap test.

use vstd::prelude::*;
use crate::vector2::{Vector2, Vec2V};

verus! {

/// Mathematical value of a `CollisionBox`.
pub ghost struct BoxV {
    pub min: Vec2V,
    pub max: Vec2V,
}

impl BoxV {
    /// Open-interval overlap test: boxes that merely touch along an edge do
    /// not overlap.
    pub open spec fn overlaps(self, other: BoxV) -> bool {
        &&& self.max.x > other.min.x
        &&& self.min.x < other.max.x
        &&& self.max.y > other.min.y
        &&& self.min.y < other.max.y
    }

    /// The box shifted by a displacement.
    pub open spec fn translated(self, d: Vec2V) -> BoxV {
        BoxV { min: self.min.plus(d), max: self.max.plus(d) }
    }
}

/// An axis-aligned bounding box in screen coordinates (y grows downward):
/// `min` is the top-left corner, `max` the bottom-right one, in sub-pixels.
#[derive(Clone, Copy, Debug)]
pub struct CollisionBox {
    pub min: Vector2,
    pub max: Vector2,
}

impl View for CollisionBox {
    type V = BoxV;

    open spec fn view(&self) -> BoxV {
        BoxV { min: self.min@, max: self.max@ }
    }
}

impl CollisionBox {
    pub fn new(min: Vector2, max: Vector2) -> (r: CollisionBox)
        ensures
            r@ == (BoxV { min: min@, max: max@ }),
    {
        CollisionBox { min, max }
    }

    /// Whether the two boxes overlap on an open region; touching edges do
    /// not count.
    pub fn collides_with(&self, other: &CollisionBox) -> (r: bool)
        ensures
            r == self@.overlaps(other@),
    {
        self.max.x > other.min.x
            && self.min.x < other.max.x
            && self.max.y > other.min.y
            && self.min.y < other.max.y
    }
}

/// Overlap is symmetric: the test gives the same answer with its two boxes
/// exchanged.
pub proof fn lemma_overlap_symmetric(a: BoxV, b: BoxV)
    ensures
        a.overlaps(b) == b.overlaps(a),
{
}

} // verus!
