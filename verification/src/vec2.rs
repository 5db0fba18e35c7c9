//! Two-dimensional integer vectors.
//!
//! Positions and velocities are fixed-point values: pixels scaled by 256.
use vstd::prelude::*;

verus! {

/// A 2D vector of 32-bit integers, used for positions, velocities and
/// hitbox half-extents throughout the engine.
#[derive(Copy, Clone, Debug, PartialEq, Eq, Structural)]
pub struct Vec2 {
    pub x: i32,
    pub y: i32,
}

/// Shorthand constructor.
pub fn vec2(x: i32, y: i32) -> (r: Vec2)
    ensures
        r == (Vec2 { x, y }),
{
    Vec2 { x, y }
}

impl Vec2 {
    /// Apply `f` to both components.
    pub fn map<F: Fn(i32) -> i32>(self, f: F) -> (r: Vec2)
        requires
            f.requires((self.x,)),
            f.requires((self.y,)),
        ensures
            f.ensures((self.x,), r.x),
            f.ensures((self.y,), r.y),
    {
        Vec2 { x: f(self.x), y: f(self.y) }
    }

    /// Componentwise sum.
    pub fn plus(self, other: Vec2) -> (r: Vec2)
        requires
            i32::MIN <= self.x + other.x <= i32::MAX,
            i32::MIN <= self.y + other.y <= i32::MAX,
        ensures
            r.x == self.x + other.x,
            r.y == self.y + other.y,
    {
        Vec2 { x: self.x + other.x, y: self.y + other.y }
    }

    /// Componentwise difference.
    pub fn minus(self, other: Vec2) -> (r: Vec2)
        requires
            i32::MIN <= self.x - other.x <= i32::MAX,
            i32::MIN <= self.y - other.y <= i32::MAX,
        ensures
            r.x == self.x - other.x,
            r.y == self.y - other.y,
    {
        Vec2 { x: self.x - other.x, y: self.y - other.y }
    }

    /// Componentwise wrapping sum, for arithmetic that must stay total.
    pub fn wrapping_plus(self, other: Vec2) -> (r: Vec2)
        ensures
            r.x == vstd::wrapping::i32_specs::wrapping_add(self.x, other.x),
            r.y == vstd::wrapping::i32_specs::wrapping_add(self.y, other.y),
    {
        Vec2 { x: self.x.wrapping_add(other.x), y: self.y.wrapping_add(other.y) }
    }

    /// Scale both components by `k`.
    pub fn scale(self, k: i32) -> (r: Vec2)
        requires
            i32::MIN <= self.x * k <= i32::MAX,
            i32::MIN <= self.y * k <= i32::MAX,
        ensures
            r.x == self.x * k,
            r.y == self.y * k,
    {
        Vec2 { x: self.x * k, y: self.y * k }
    }

    /// Divide both components by `k`, truncating toward zero as Rust does.
    pub fn div_trunc(self, k: i32) -> (r: Vec2)
        requires
            k > 0,
        ensures
            r.x == crate::vec2::div_t(self.x as int, k as int),
            r.y == crate::vec2::div_t(self.y as int, k as int),
    {
        Vec2 { x: self.x / k, y: self.y / k }
    }
}

/// Truncating (Rust-style) division of `a` by a positive `k`:
/// rounds toward zero, unlike the Euclidean `/` of specifications.
pub open spec fn div_t(a: int, k: int) -> int
    recommends
        k > 0,
{
    if a >= 0 {
        a / k
    } else {
        -((-a) / k)
    }
}

/// Truncating (Rust-style) remainder of `a` by a positive `k`:
/// has the sign of `a`, unlike the Euclidean `%` of specifications.
pub open spec fn rem_t(a: int, k: int) -> int
    recommends
        k > 0,
{
    a - k * div_t(a, k)
}

} // verus!
