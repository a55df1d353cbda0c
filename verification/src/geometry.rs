//! Integer pixel geometry: points, centered axis-aligned rectangles and
//! solid colors, shared by collision detection and by the draw commands.

use vstd::prelude::*;

verus! {

/// A 2D point in pixel coordinates; the authoritative location of an
/// entity is the center point stored in its position component.
#[derive(Clone, Copy, PartialEq, Eq, Structural, Debug)]
pub struct Point {
    pub x: i32,
    pub y: i32,
}

impl Point {
    pub fn new(x: i32, y: i32) -> (p: Point)
        ensures
            p == (Point { x, y }),
    {
        Point { x, y }
    }
}

/// An axis-aligned rectangle, stored as its center plus its size, so
/// that building one from an entity's position can never overflow.
/// Its edges follow the usual screen convention: `y` grows downward,
/// `top` is the smallest `y` covered and `bottom` the largest.
#[derive(Clone, Copy, PartialEq, Eq, Structural, Debug)]
pub struct Rect {
    pub cx: i32,
    pub cy: i32,
    pub w: u32,
    pub h: u32,
}

impl Rect {
    pub open spec fn left(self) -> int {
        self.cx - self.w as int / 2
    }

    pub open spec fn top(self) -> int {
        self.cy - self.h as int / 2
    }

    pub open spec fn right(self) -> int {
        self.left() + self.w as int
    }

    pub open spec fn bottom(self) -> int {
        self.top() + self.h as int
    }

    pub fn from_center(center: Point, w: u32, h: u32) -> (r: Rect)
        ensures
            r == (Rect { cx: center.x, cy: center.y, w, h }),
    {
        Rect { cx: center.x, cy: center.y, w, h }
    }

    /// Containment is inclusive on all four edges.
    pub open spec fn spec_contains(self, px: int, py: int) -> bool {
        self.left() <= px <= self.right() && self.top() <= py <= self.bottom()
    }

    pub fn contains_point(&self, p: Point) -> (b: bool)
        ensures
            b == self.spec_contains(p.x as int, p.y as int),
    {
        let left: i64 = self.cx as i64 - (self.w / 2) as i64;
        let top: i64 = self.cy as i64 - (self.h / 2) as i64;
        let right: i64 = left + self.w as i64;
        let bottom: i64 = top + self.h as i64;
        left <= p.x as i64 && p.x as i64 <= right && top <= p.y as i64 && p.y as i64 <= bottom
    }

    /// Overlap is strict: rectangles that merely share an edge do not
    /// intersect.
    pub open spec fn spec_intersects(self, other: Rect) -> bool {
        self.left() < other.right() && other.left() < self.right() && self.top()
            < other.bottom() && other.top() < self.bottom()
    }

    pub fn has_intersection(&self, other: &Rect) -> (b: bool)
        ensures
            b == self.spec_intersects(*other),
    {
        let sl: i64 = self.cx as i64 - (self.w / 2) as i64;
        let st: i64 = self.cy as i64 - (self.h / 2) as i64;
        let ol: i64 = other.cx as i64 - (other.w / 2) as i64;
        let ot: i64 = other.cy as i64 - (other.h / 2) as i64;
        sl < ol + other.w as i64 && ol < sl + self.w as i64 && st < ot + other.h as i64 && ot < st
            + self.h as i64
    }
}

/// A solid color with an alpha channel, as the rendering backend takes it.
#[derive(Clone, Copy, PartialEq, Eq, Structural, Debug)]
pub struct Color {
    pub r: u8,
    pub g: u8,
    pub b: u8,
    pub a: u8,
}

impl Color {
    pub fn rgb(r: u8, g: u8, b: u8) -> (c: Color)
        ensures
            c == (Color { r, g, b, a: 255u8 }),
    {
        Color { r, g, b, a: 255 }
    }

    pub open spec fn spec_white() -> Color {
        Color { r: 255, g: 255, b: 255, a: 255 }
    }

    pub fn white() -> (c: Color)
        ensures
            c == Color::spec_white(),
    {
        Color { r: 255, g: 255, b: 255, a: 255 }
    }

    pub open spec fn spec_black() -> Color {
        Color { r: 0, g: 0, b: 0, a: 255 }
    }

    pub fn black() -> (c: Color)
        ensures
            c == Color::spec_black(),
    {
        Color { r: 0, g: 0, b: 0, a: 255 }
    }
}

} // verus!
