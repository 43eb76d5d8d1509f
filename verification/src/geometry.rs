//! Plain geometry values: sizes, points and rectangles in display pixels.
use vstd::prelude::*;

use embedded_graphics::geometry::{Point as EgPoint, Size as EgSize};
use embedded_graphics::primitives::Rectangle as EgRectangle;

verus! {

/// The largest `i32`, as a `u32`.
pub const I32_MAX_AS_U32: u32 = 0x7fff_ffffu32;

/// `a + b`, capped at `u32::MAX`.
pub open spec fn sat_add(a: u32, b: u32) -> u32 {
    if a + b > u32::MAX {
        u32::MAX
    } else {
        (a + b) as u32
    }
}

/// `a - b`, floored at zero.
pub open spec fn sat_sub(a: u32, b: u32) -> u32 {
    if a < b {
        0
    } else {
        (a - b) as u32
    }
}

/// `v` clamped into `[lo, hi]` (for `lo <= hi`).
pub open spec fn clamp_u32(v: u32, lo: u32, hi: u32) -> u32 {
    if v < lo {
        lo
    } else if v > hi {
        hi
    } else {
        v
    }
}

pub open spec fn max_u32(a: u32, b: u32) -> u32 {
    if a >= b {
        a
    } else {
        b
    }
}

pub open spec fn min_u32(a: u32, b: u32) -> u32 {
    if a <= b {
        a
    } else {
        b
    }
}

/// A `u32` as an `i32`, saturating at `i32::MAX`.
pub open spec fn spec_to_i32(value: u32) -> i32 {
    if value > I32_MAX_AS_U32 {
        i32::MAX
    } else {
        value as i32
    }
}

/// Converts a `u32` value to an `i32`, saturating at `i32::MAX` if the value is too large.
pub fn to_i32(value: u32) -> (r: i32)
    ensures
        r == spec_to_i32(value),
        r >= 0,
        value <= I32_MAX_AS_U32 ==> r == value,
{
    if value > I32_MAX_AS_U32 {
        i32::MAX
    } else {
        value as i32
    }
}

/// `coordinate + offset` in `i32`, saturating at `i32::MAX` (the offset is first saturated into
/// `i32`).
pub open spec fn spec_saturating_coordinate_add(coordinate: i32, offset: u32) -> i32 {
    let sum = coordinate + spec_to_i32(offset);
    if sum > i32::MAX {
        i32::MAX
    } else {
        sum as i32
    }
}

/// Adds an unsigned offset to a coordinate, saturating at `i32::MAX`.
pub fn saturating_coordinate_add(coordinate: i32, offset: u32) -> (r: i32)
    ensures
        r == spec_saturating_coordinate_add(coordinate, offset),
{
    let off: i32 = to_i32(offset);
    if coordinate > i32::MAX - off {
        i32::MAX
    } else {
        coordinate + off
    }
}

/// A two-dimensional size, in pixels.
#[derive(Clone, Copy, Debug, PartialEq, Eq, Structural)]
pub struct Size {
    /// Horizontal extent.
    pub width: u32,
    /// Vertical extent.
    pub height: u32,
}

impl Size {
    /// Creates a size from a width and a height.
    pub fn new(width: u32, height: u32) -> (r: Size)
        ensures
            r.width == width,
            r.height == height,
    {
        Size { width, height }
    }

    /// The zero size.
    pub fn zero() -> (r: Size)
        ensures
            r.width == 0,
            r.height == 0,
    {
        Size { width: 0, height: 0 }
    }

    pub open spec fn spec_zero() -> Size {
        Size { width: 0, height: 0 }
    }

    pub open spec fn spec_saturating_sub(self, other: Size) -> Size {
        Size { width: sat_sub(self.width, other.width), height: sat_sub(self.height, other.height) }
    }

    pub open spec fn spec_inflate(self, by: Size) -> Size {
        Size { width: sat_add(self.width, by.width), height: sat_add(self.height, by.height) }
    }

    pub open spec fn spec_max(self, other: Size) -> Size {
        Size { width: max_u32(self.width, other.width), height: max_u32(self.height, other.height) }
    }

    /// Subtracts component-wise, flooring each component at zero.
    pub fn saturating_sub(self, other: Size) -> (r: Size)
        ensures
            r == self.spec_saturating_sub(other),
    {
        Size {
            width: self.width.saturating_sub(other.width),
            height: self.height.saturating_sub(other.height),
        }
    }

    /// Inflates the size by a horizontal and vertical amount (saturating).
    pub fn inflate(self, by: Size) -> (r: Size)
        ensures
            r == self.spec_inflate(by),
    {
        Size {
            width: self.width.saturating_add(by.width),
            height: self.height.saturating_add(by.height),
        }
    }

    /// Deflates the size by a horizontal and vertical amount (saturating at zero).
    pub fn deflate(self, by: Size) -> (r: Size)
        ensures
            r == self.spec_saturating_sub(by),
    {
        self.saturating_sub(by)
    }

    /// The component-wise maximum of two sizes.
    pub fn component_max(self, other: Size) -> (r: Size)
        ensures
            r == self.spec_max(other),
    {
        Size {
            width: if self.width >= other.width { self.width } else { other.width },
            height: if self.height >= other.height { self.height } else { other.height },
        }
    }
}

/// A point on the display, in pixels.
#[derive(Clone, Copy, Debug, PartialEq, Eq, Structural)]
pub struct Point {
    /// Horizontal coordinate.
    pub x: i32,
    /// Vertical coordinate.
    pub y: i32,
}

impl Point {
    /// Creates a point from its coordinates.
    pub fn new(x: i32, y: i32) -> (r: Point)
        ensures
            r.x == x,
            r.y == y,
    {
        Point { x, y }
    }

    /// The origin.
    pub fn zero() -> (r: Point)
        ensures
            r.x == 0,
            r.y == 0,
    {
        Point { x: 0, y: 0 }
    }

    /// Whether `self + other` is representable.
    pub open spec fn can_add(self, other: Point) -> bool {
        &&& i32::MIN <= self.x + other.x <= i32::MAX
        &&& i32::MIN <= self.y + other.y <= i32::MAX
    }

    pub open spec fn spec_add(self, other: Point) -> Point {
        Point { x: (self.x + other.x) as i32, y: (self.y + other.y) as i32 }
    }

    /// Component-wise sum of two points.
    pub fn add(self, other: Point) -> (r: Point)
        requires
            self.can_add(other),
        ensures
            r == self.spec_add(other),
    {
        Point { x: self.x + other.x, y: self.y + other.y }
    }
}

/// An axis-aligned rectangle given by its top-left corner and size.
#[derive(Clone, Copy, Debug, PartialEq, Eq, Structural)]
pub struct Rectangle {
    /// Top-left corner.
    pub top_left: Point,
    /// Width and height.
    pub size: Size,
}

impl Rectangle {
    /// Creates a rectangle from its top-left corner and size.
    pub fn new(top_left: Point, size: Size) -> (r: Rectangle)
        ensures
            r.top_left == top_left,
            r.size == size,
    {
        Rectangle { top_left, size }
    }

    /// Whether the rectangle covers no pixel.
    pub open spec fn is_empty(self) -> bool {
        self.size.width == 0 || self.size.height == 0
    }

    /// Whether embedded-graphics can compute the bottom-right corner of the rectangle: an empty
    /// rectangle has none, and a non-empty one needs `top_left + size` to be representable.
    pub open spec fn corners_fit(self) -> bool {
        self.is_empty() || {
            &&& self.size.width <= I32_MAX_AS_U32
            &&& self.size.height <= I32_MAX_AS_U32
            &&& self.top_left.x + self.size.width <= i32::MAX
            &&& self.top_left.y + self.size.height <= i32::MAX
        }
    }

    /// The bottom-right pixel of a non-empty rectangle.
    pub open spec fn spec_bottom_right(self) -> Option<Point> {
        if self.size.width > 0 && self.size.height > 0 {
            Some(
                Point {
                    x: (self.top_left.x + self.size.width - 1) as i32,
                    y: (self.top_left.y + self.size.height - 1) as i32,
                },
            )
        } else {
            None
        }
    }

    /// Whether the rectangle covers the pixel at `p`.
    pub open spec fn spec_contains(self, p: Point) -> bool {
        &&& p.x >= self.top_left.x
        &&& p.y >= self.top_left.y
        &&& match self.spec_bottom_right() {
            Some(br) => p.x <= br.x && p.y <= br.y,
            None => false,
        }
    }

    /// The rectangle spanned by two corners, both included.
    pub open spec fn spec_with_corners(c1: Point, c2: Point) -> Rectangle {
        Rectangle {
            top_left: Point {
                x: if c1.x <= c2.x { c1.x } else { c2.x },
                y: if c1.y <= c2.y { c1.y } else { c2.y },
            },
            size: Size {
                width: (abs_diff(c1.x, c2.x) + 1) as u32,
                height: (abs_diff(c1.y, c2.y) + 1) as u32,
            },
        }
    }

    /// The intersection of `self` and `other` as embedded-graphics computes it: the overlap of
    /// two non-empty rectangles; an empty rectangle that lies inside the other non-empty one; and
    /// otherwise the zero-sized rectangle at the origin.
    pub open spec fn spec_intersection(self, other: Rectangle) -> Rectangle {
        match (other.spec_bottom_right(), self.spec_bottom_right()) {
            (Some(obr), Some(sbr)) => if overlaps(self.top_left.x, sbr.x, other.top_left.x, obr.x)
                && overlaps(self.top_left.y, sbr.y, other.top_left.y, obr.y) {
                Rectangle::spec_with_corners(
                    Point {
                        x: max_i32(self.top_left.x, other.top_left.x),
                        y: max_i32(self.top_left.y, other.top_left.y),
                    },
                    Point { x: min_i32(sbr.x, obr.x), y: min_i32(sbr.y, obr.y) },
                )
            } else {
                zero_rectangle()
            },
            (Some(_), None) => if other.spec_contains(self.top_left) {
                self
            } else {
                zero_rectangle()
            },
            (None, Some(_)) => if self.spec_contains(other.top_left) {
                other
            } else {
                zero_rectangle()
            },
            (None, None) => zero_rectangle(),
        }
    }

    /// Returns the intersection of `self` and `other` (`Rectangle::intersection` of
    /// embedded-graphics); a zero-sized rectangle at the origin where they do not overlap.
    pub fn intersection(&self, other: &Rectangle) -> (r: Rectangle)
        requires
            self.corners_fit(),
            other.corners_fit(),
        ensures
            r == self.spec_intersection(*other),
    {
        eg_intersection(*self, *other)
    }
}

/// A point lies in the intersection of two rectangles exactly when it lies in both.
pub proof fn lemma_intersection_contains(a: Rectangle, b: Rectangle, p: Point)
    requires
        a.corners_fit(),
        b.corners_fit(),
    ensures
        a.spec_intersection(b).spec_contains(p) <==> (a.spec_contains(p) && b.spec_contains(p)),
{
}

/// A non-empty intersection of two rectangles lies within both.
pub proof fn lemma_intersection_within(a: Rectangle, b: Rectangle)
    requires
        a.corners_fit(),
        b.corners_fit(),
        !a.spec_intersection(b).is_empty(),
    ensures
        ({
            let r = a.spec_intersection(b);
            &&& a.top_left.x <= r.top_left.x
            &&& a.top_left.y <= r.top_left.y
            &&& r.top_left.x + r.size.width <= a.top_left.x + a.size.width
            &&& r.top_left.y + r.size.height <= a.top_left.y + a.size.height
            &&& b.top_left.x <= r.top_left.x
            &&& b.top_left.y <= r.top_left.y
            &&& r.top_left.x + r.size.width <= b.top_left.x + b.size.width
            &&& r.top_left.y + r.size.height <= b.top_left.y + b.size.height
        }),
{
}

/// `|a - b|`.
pub open spec fn abs_diff(a: i32, b: i32) -> int {
    if a <= b { b - a } else { a - b }
}

pub open spec fn max_i32(a: i32, b: i32) -> i32 {
    if a >= b { a } else { b }
}

pub open spec fn min_i32(a: i32, b: i32) -> i32 {
    if a <= b { a } else { b }
}

/// Whether the closed ranges `a0..=a1` and `b0..=b1` overlap, in the terms embedded-graphics
/// tests it: `b` holds an end of `a`, or `a` reaches past both ends of `b`.
pub open spec fn overlaps(a0: i32, a1: i32, b0: i32, b1: i32) -> bool {
    ||| b0 <= a0 <= b1
    ||| b0 <= a1 <= b1
    ||| (a0 < b0 && a1 > b1)
}

/// The zero-sized rectangle at the origin.
pub open spec fn zero_rectangle() -> Rectangle {
    Rectangle { top_left: Point { x: 0, y: 0 }, size: Size { width: 0, height: 0 } }
}

/// `Rectangle::intersection` of embedded-graphics, on rectangles converted field by field.
///
/// The claim is that the result is the one the source of `embedded-graphics-core` 0.4
/// (`primitives/rectangle/mod.rs`) computes: for two non-empty rectangles that overlap on both
/// axes, `Rectangle::with_corners` of the larger top-left and the smaller bottom-right corner;
/// for an empty rectangle, itself if the other (non-empty) one contains its top-left corner; and
/// the zero rectangle otherwise. The `requires` keeps out the rectangles whose bottom-right
/// corner overflows `i32`, on which `Point + Size` panics with debug assertions.
#[verifier::external_body]
fn eg_intersection(a: Rectangle, b: Rectangle) -> (r: Rectangle)
    requires
        a.corners_fit(),
        b.corners_fit(),
    ensures
        r == a.spec_intersection(b),
{
    let ea = EgRectangle::new(EgPoint::new(a.top_left.x, a.top_left.y), EgSize::new(a.size.width, a.size.height));
    let eb = EgRectangle::new(EgPoint::new(b.top_left.x, b.top_left.y), EgSize::new(b.size.width, b.size.height));
    let r = ea.intersection(&eb);
    Rectangle {
        top_left: Point { x: r.top_left.x, y: r.top_left.y },
        size: Size { width: r.size.width, height: r.size.height },
    }
}

} // verus!
