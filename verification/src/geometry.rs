//! Plain geometric value types shared by the rendering and widget layers.
//!
//! All coordinates are logical pixels: top-left origin, y growing downward.
//! Colors are 8-bit RGBA channels where 255 is full intensity.

use vstd::prelude::*;

verus! {

/// A position or direction in 3-space, in logical pixels.
#[derive(Clone, Copy, Debug, PartialEq, Eq, Structural)]
pub struct Vec3 {
    pub x: i32,
    pub y: i32,
    pub z: i32,
}

/// An RGBA color; 255 per channel is full intensity / fully opaque.
#[derive(Clone, Copy, Debug, PartialEq, Eq, Structural)]
pub struct Color {
    pub r: u8,
    pub g: u8,
    pub b: u8,
    pub a: u8,
}

/// A texture coordinate; the unit square spans 0..=1 on each axis.
#[derive(Clone, Copy, Debug, PartialEq, Eq, Structural)]
pub struct Uv {
    pub u: i32,
    pub v: i32,
}

/// An axis-aligned rectangle: top-left corner plus extent, in logical pixels.
#[derive(Clone, Copy, Debug, PartialEq, Eq, Structural)]
pub struct Bounds {
    pub x: i32,
    pub y: i32,
    pub w: i32,
    pub h: i32,
}

impl Bounds {
    /// The far corner of the rectangle stays within the coordinate range.
    pub open spec fn fits(&self) -> bool {
        &&& i32::MIN <= self.x + self.w <= i32::MAX
        &&& i32::MIN <= self.y + self.h <= i32::MAX
    }

    /// Whether a point lies inside the rectangle, edges included.
    pub open spec fn spec_contains(&self, px: int, py: int) -> bool {
        &&& self.x <= px <= self.x + self.w
        &&& self.y <= py <= self.y + self.h
    }

    /// Edge-inclusive point test, the hit test every widget uses.
    pub fn contains(&self, px: i32, py: i32) -> (r: bool)
        ensures
            r == self.spec_contains(px as int, py as int),
    {
        let px = px as i64;
        let py = py as i64;
        let x = self.x as i64;
        let y = self.y as i64;
        let w = self.w as i64;
        let h = self.h as i64;
        x <= px && px <= x + w && y <= py && py <= y + h
    }
}

/// The normal attached to a vertex when the caller supplies none.
pub open spec fn default_normal() -> Vec3 {
    Vec3 { x: 1, y: 1, z: 1 }
}

/// The color attached to a vertex when the caller supplies none.
pub open spec fn opaque_white() -> Color {
    Color { r: 255, g: 255, b: 255, a: 255 }
}

} // verus!
