//! Plain 2-D integer vectors.

use vstd::prelude::*;

verus! {

/// Mathematical value of a `Vector2`: the same two coordinates as unbounded
/// integers.
pub ghost struct Vec2V {
    pub x: int,
    pub y: int,
}

impl Vec2V {
    /// Componentwise sum.
    pub open spec fn plus(self, other: Vec2V) -> Vec2V {
        Vec2V { x: self.x + other.x, y: self.y + other.y }
    }

    /// Componentwise scaling.
    pub open spec fn scaled(self, k: int) -> Vec2V {
        Vec2V { x: self.x * k, y: self.y * k }
    }
}

/// A 2-D vector. Depending on context it holds a position in sub-pixels or a
/// velocity in pixels per second.
#[derive(Clone, Copy, Debug)]
pub struct Vector2 {
    pub x: i64,
    pub y: i64,
}

impl View for Vector2 {
    type V = Vec2V;

    open spec fn view(&self) -> Vec2V {
        Vec2V { x: self.x as int, y: self.y as int }
    }
}

impl Vector2 {
    pub fn new(x: i64, y: i64) -> (r: Vector2)
        ensures
            r@ == (Vec2V { x: x as int, y: y as int }),
    {
        Vector2 { x, y }
    }

    /// The unit vector pointing up the screen (y grows downward).
    pub fn up() -> (r: Vector2)
        ensures
            r@ == (Vec2V { x: 0, y: -1 }),
    {
        Vector2 { x: 0, y: -1 }
    }

    /// The unit vector pointing down the screen.
    pub fn down() -> (r: Vector2)
        ensures
            r@ == (Vec2V { x: 0, y: 1 }),
    {
        Vector2 { x: 0, y: 1 }
    }

    /// The unit vector pointing toward the left edge of the screen.
    pub fn left() -> (r: Vector2)
        ensures
            r@ == (Vec2V { x: -1, y: 0 }),
    {
        Vector2 { x: -1, y: 0 }
    }

    /// Componentwise sum.
    pub fn plus(self, other: Vector2) -> (r: Vector2)
        requires
            i64::MIN <= self@.x + other@.x <= i64::MAX,
            i64::MIN <= self@.y + other@.y <= i64::MAX,
        ensures
            r@ == self@.plus(other@),
    {
        Vector2 { x: self.x + other.x, y: self.y + other.y }
    }

    /// Componentwise scaling.
    pub fn scaled(self, k: i64) -> (r: Vector2)
        requires
            i64::MIN <= self@.x * k <= i64::MAX,
            i64::MIN <= self@.y * k <= i64::MAX,
        ensures
            r@ == self@.scaled(k as int),
    {
        Vector2 { x: self.x * k, y: self.y * k }
    }
}

} // verus!
