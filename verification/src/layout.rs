//! Layout values: constraints, resolved node layouts and flex directions.
use vstd::prelude::*;

use crate::geometry::{Point, Rectangle, Size, clamp_u32, spec_to_i32, to_i32};

verus! {

/// Minimum and maximum sizes a box may take.
///
/// Every value of this type keeps `min <= max` in both dimensions, which is what makes
/// [`Constraints::constrain`] well defined.
#[derive(Clone, Copy, Debug, PartialEq, Eq)]
pub struct Constraints {
    pub(crate) min: Size,
    pub(crate) max: Size,
}

/// `min <= max` in both dimensions.
pub open spec fn ordered(min: Size, max: Size) -> bool {
    min.width <= max.width && min.height <= max.height
}

impl Constraints {
    #[verifier::type_invariant]
    pub closed spec fn inv(self) -> bool {
        ordered(self.min, self.max)
    }

    /// The smallest size allowed.
    pub closed spec fn spec_min(self) -> Size {
        self.min
    }

    /// The largest size allowed.
    pub closed spec fn spec_max(self) -> Size {
        self.max
    }

    /// Constraints with the given bounds.
    pub closed spec fn spec_new(min: Size, max: Size) -> Constraints {
        Constraints { min, max }
    }

    /// The fields of constraints built from two bounds.
    pub proof fn lemma_spec_new(min: Size, max: Size)
        ensures
            Self::spec_new(min, max).spec_min() == min,
            Self::spec_new(min, max).spec_max() == max,
    {
    }

    /// Two constraints with the same bounds are equal.
    pub proof fn lemma_ext(a: Constraints, b: Constraints)
        requires
            a.spec_min() == b.spec_min(),
            a.spec_max() == b.spec_max(),
        ensures
            a == b,
    {
    }

    pub open spec fn spec_exact(size: Size) -> Constraints {
        Self::spec_new(size, size)
    }

    pub open spec fn spec_max_only(size: Size) -> Constraints {
        Self::spec_new(Size { width: 0, height: 0 }, size)
    }

    pub open spec fn spec_constrain(self, desired: Size) -> Size {
        Size {
            width: clamp_u32(desired.width, self.spec_min().width, self.spec_max().width),
            height: clamp_u32(desired.height, self.spec_min().height, self.spec_max().height),
        }
    }

    pub open spec fn spec_loosen(self) -> Constraints {
        Self::spec_new(Size { width: 0, height: 0 }, self.spec_max())
    }

    pub open spec fn spec_deflate(self, by: Size) -> Constraints {
        Self::spec_new(self.spec_min().spec_saturating_sub(by), self.spec_max().spec_saturating_sub(by))
    }

    /// Returns [`Constraints`] that is exact in both dimensions.
    pub fn exact(size: Size) -> (r: Constraints)
        ensures
            r == Self::spec_exact(size),
    {
        Constraints { min: size, max: size }
    }

    /// Returns [`Constraints`] with zero minimum size and the given maximum size.
    pub fn max(size: Size) -> (r: Constraints)
        ensures
            r == Self::spec_max_only(size),
    {
        Constraints { min: Size::zero(), max: size }
    }

    /// The smallest size allowed.
    pub fn min_size(&self) -> (r: Size)
        ensures
            r == self.spec_min(),
    {
        self.min
    }

    /// The largest size allowed.
    pub fn max_size(&self) -> (r: Size)
        ensures
            r == self.spec_max(),
    {
        self.max
    }

    /// Clamps `desired` into these constraints, dimension by dimension.
    pub fn constrain(self, desired: Size) -> (r: Size)
        ensures
            r == self.spec_constrain(desired),
            ordered(self.spec_min(), r),
            ordered(r, self.spec_max()),
    {
        proof {
            use_type_invariant(self);
        }
        Size::new(
            clamp(desired.width, self.min.width, self.max.width),
            clamp(desired.height, self.min.height, self.max.height),
        )
    }

    /// Returns [`Constraints`] with zero minimum size and the same maximum size as `self`.
    pub fn loosen(self) -> (r: Constraints)
        ensures
            r == self.spec_loosen(),
    {
        Constraints { min: Size::zero(), max: self.max }
    }

    /// Shrinks both bounds by `by` (saturating at zero).
    pub fn deflate(self, by: Size) -> (r: Constraints)
        ensures
            r == self.spec_deflate(by),
    {
        proof {
            use_type_invariant(self);
        }
        Constraints { min: self.min.saturating_sub(by), max: self.max.saturating_sub(by) }
    }

    pub open spec fn spec_with_exact_dimensions(self, width: Option<u32>, height: Option<u32>) -> Constraints {
        let w = match width {
            Some(w) => Some(clamp_u32(w, self.spec_min().width, self.spec_max().width)),
            None => None,
        };
        let h = match height {
            Some(h) => Some(clamp_u32(h, self.spec_min().height, self.spec_max().height)),
            None => None,
        };
        Self::spec_new(
            Size {
                width: match w { Some(v) => v, None => self.spec_min().width },
                height: match h { Some(v) => v, None => self.spec_min().height },
            },
            Size {
                width: match w { Some(v) => v, None => self.spec_max().width },
                height: match h { Some(v) => v, None => self.spec_max().height },
            },
        )
    }

    /// Makes configured dimensions exact while preserving the constraints of automatic axes.
    pub fn with_exact_dimensions(self, width: Option<u32>, height: Option<u32>) -> (r: Constraints)
        ensures
            r == self.spec_with_exact_dimensions(width, height),
    {
        proof {
            use_type_invariant(self);
        }
        let w = match width {
            Some(w) => Some(clamp(w, self.min.width, self.max.width)),
            None => None,
        };
        let h = match height {
            Some(h) => Some(clamp(h, self.min.height, self.max.height)),
            None => None,
        };
        let min = Size::new(
            match w { Some(v) => v, None => self.min.width },
            match h { Some(v) => v, None => self.min.height },
        );
        let max = Size::new(
            match w { Some(v) => v, None => self.max.width },
            match h { Some(v) => v, None => self.max.height },
        );
        Constraints { min, max }
    }
}

/// `value` clamped into `[lo, hi]`.
fn clamp(value: u32, lo: u32, hi: u32) -> (r: u32)
    requires
        lo <= hi,
    ensures
        r == clamp_u32(value, lo, hi),
{
    if value < lo {
        lo
    } else if value > hi {
        hi
    } else {
        value
    }
}

/// Constraining a size gives one within the constraints, and leaves a size that is already
/// within them as it is.
pub proof fn lemma_constrain_within(c: Constraints, desired: Size)
    requires
        ordered(c.spec_min(), c.spec_max()),
    ensures
        ordered(c.spec_min(), c.spec_constrain(desired)),
        ordered(c.spec_constrain(desired), c.spec_max()),
        ordered(c.spec_min(), desired) && ordered(desired, c.spec_max()) ==> c.spec_constrain(desired)
            == desired,
{
}

/// Shrinking constraints by a size keeps them ordered.
pub proof fn lemma_deflate_ordered(c: Constraints, by: Size)
    requires
        ordered(c.spec_min(), c.spec_max()),
    ensures
        ordered(c.spec_deflate(by).spec_min(), c.spec_deflate(by).spec_max()),
{
    Constraints::lemma_spec_new(
        c.spec_min().spec_saturating_sub(by),
        c.spec_max().spec_saturating_sub(by),
    );
}

/// The resolved layout of one node, relative to its parent's content origin.
#[derive(Clone, Copy, Debug, PartialEq, Eq, Structural)]
pub struct Layout {
    /// Position relative to the parent.
    pub offset: Point,
    /// Position of the border relative to the node's outer-box origin.
    pub border_offset: Point,
    /// Position of the content relative to the node's outer-box origin.
    pub content_offset: Point,
    /// Size of the node including its margin (after constraints are applied).
    pub outer_size: Size,
    /// Size of the border box.
    pub border_size: Size,
    /// Size of the actual content.
    pub content_size: Size,
}

pub open spec fn zero_point() -> Point {
    Point { x: 0, y: 0 }
}

pub open spec fn zero_size() -> Size {
    Size { width: 0, height: 0 }
}

impl Layout {
    pub open spec fn spec_empty() -> Layout {
        Layout {
            offset: zero_point(),
            border_offset: zero_point(),
            content_offset: zero_point(),
            outer_size: zero_size(),
            border_size: zero_size(),
            content_size: zero_size(),
        }
    }

    /// Creates an empty unresolved layout.
    pub fn empty() -> (r: Layout)
        ensures
            r == Self::spec_empty(),
    {
        Layout {
            offset: Point::zero(),
            border_offset: Point::zero(),
            content_offset: Point::zero(),
            outer_size: Size::zero(),
            border_size: Size::zero(),
            content_size: Size::zero(),
        }
    }

    /// Sets the position relative to the parent.
    pub fn set_offset(&mut self, offset: Point)
        ensures
            *final(self) == (Layout { offset, ..*old(self) }),
    {
        self.offset = offset;
    }

    /// Whether the absolute positions of this layout are representable below `parent_origin`.
    pub open spec fn resolvable(self, parent_origin: Point) -> bool {
        &&& parent_origin.can_add(self.offset)
        &&& parent_origin.spec_add(self.offset).can_add(self.border_offset)
        &&& parent_origin.spec_add(self.offset).can_add(self.content_offset)
    }

    pub open spec fn spec_resolve(self, parent_origin: Point) -> BoxLayout {
        let outer = parent_origin.spec_add(self.offset);
        BoxLayout {
            border: Rectangle { top_left: outer.spec_add(self.border_offset), size: self.border_size },
            content: Rectangle {
                top_left: outer.spec_add(self.content_offset),
                size: self.content_size,
            },
        }
    }

    /// Resolves the absolute bounds of the complete box layout.
    pub fn resolve(&self, parent_origin: Point) -> (r: BoxLayout)
        requires
            self.resolvable(parent_origin),
        ensures
            r == self.spec_resolve(parent_origin),
    {
        let outer_origin = parent_origin.add(self.offset);
        let border_origin = outer_origin.add(self.border_offset);
        let content_origin = outer_origin.add(self.content_offset);

        BoxLayout {
            border: Rectangle::new(border_origin, self.border_size),
            content: Rectangle::new(content_origin, self.content_size),
        }
    }
}

/// Fully resolved box layout: absolutely positioned border and content rectangles.
#[derive(Clone, Copy, Debug, PartialEq, Eq, Structural)]
pub struct BoxLayout {
    pub border: Rectangle,
    pub content: Rectangle,
}

/// The axis along which a container lays out its children.
#[derive(Clone, Copy, Debug, PartialEq, Eq, Structural)]
pub enum FlexDirection {
    /// Children are placed left to right.
    Row,
    /// Children are placed top to bottom.
    Column,
}

impl FlexDirection {
    pub open spec fn spec_split(self, size: Size) -> (u32, u32) {
        match self {
            FlexDirection::Row => (size.width, size.height),
            FlexDirection::Column => (size.height, size.width),
        }
    }

    pub open spec fn spec_offset(self, main: u32, cross: u32) -> Point {
        match self {
            FlexDirection::Row => Point { x: spec_to_i32(main), y: spec_to_i32(cross) },
            FlexDirection::Column => Point { x: spec_to_i32(cross), y: spec_to_i32(main) },
        }
    }

    pub open spec fn spec_size(self, main: u32, cross: u32) -> Size {
        match self {
            FlexDirection::Row => Size { width: main, height: cross },
            FlexDirection::Column => Size { width: cross, height: main },
        }
    }

    /// Splits a physical size into its main-axis and cross-axis components.
    ///
    /// A row uses width as its main size and height as its cross size, while a column uses
    /// height as its main size and width as its cross size.
    pub fn split(self, size: Size) -> (r: (u32, u32))
        ensures
            r == self.spec_split(size),
    {
        match self {
            FlexDirection::Row => (size.width, size.height),
            FlexDirection::Column => (size.height, size.width),
        }
    }

    /// Creates a physical offset from logical main-axis and cross-axis offsets.
    pub fn offset(self, main: u32, cross: u32) -> (r: Point)
        ensures
            r == self.spec_offset(main, cross),
    {
        let main: i32 = to_i32(main);
        let cross: i32 = to_i32(cross);

        match self {
            FlexDirection::Row => Point::new(main, cross),
            FlexDirection::Column => Point::new(cross, main),
        }
    }

    /// Creates a physical size from logical main-axis and cross-axis sizes.
    pub fn size(self, main: u32, cross: u32) -> (r: Size)
        ensures
            r == self.spec_size(main, cross),
    {
        match self {
            FlexDirection::Row => Size::new(main, cross),
            FlexDirection::Column => Size::new(cross, main),
        }
    }
}

impl Default for FlexDirection {
    fn default() -> (r: FlexDirection)
        ensures
            r == FlexDirection::Row,
    {
        FlexDirection::Row
    }
}

/// Resolving a layout below `origin` places the outer box at `origin` plus the layout's offset,
/// and the border and content boxes at their offsets from it, each with exactly its own size.
/// Where the border box's offset and size fit in the outer size, the border box lies inside the
/// outer box.
pub proof fn lemma_resolve_places_boxes(layout: Layout, origin: Point)
    requires
        layout.resolvable(origin),
    ensures
        layout.spec_resolve(origin).border.size == layout.border_size,
        layout.spec_resolve(origin).content.size == layout.content_size,
        layout.spec_resolve(origin).border.top_left.x == origin.x + layout.offset.x + layout.border_offset.x,
        layout.spec_resolve(origin).border.top_left.y == origin.y + layout.offset.y + layout.border_offset.y,
        layout.spec_resolve(origin).content.top_left.x == origin.x + layout.offset.x + layout.content_offset.x,
        layout.spec_resolve(origin).content.top_left.y == origin.y + layout.offset.y + layout.content_offset.y,
        0 <= layout.border_offset.x && layout.border_offset.x + layout.border_size.width <= layout.outer_size.width
            ==> origin.x + layout.offset.x <= layout.spec_resolve(origin).border.top_left.x
            && layout.spec_resolve(origin).border.top_left.x + layout.spec_resolve(origin).border.size.width
            <= origin.x + layout.offset.x + layout.outer_size.width,
        0 <= layout.border_offset.y && layout.border_offset.y + layout.border_size.height <= layout.outer_size.height
            ==> origin.y + layout.offset.y <= layout.spec_resolve(origin).border.top_left.y
            && layout.spec_resolve(origin).border.top_left.y + layout.spec_resolve(origin).border.size.height
            <= origin.y + layout.offset.y + layout.outer_size.height,
{
}

} // verus!
