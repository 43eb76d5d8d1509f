//! Styling utilities: colors, insets and the box model.
use vstd::prelude::*;

use crate::geometry::{Size, sat_add};
use crate::layout::{Constraints, lemma_constrain_within, lemma_deflate_ordered, ordered};

verus! {

/// A display color, carried as the display's raw pixel value.
///
/// The layout and painting logic never looks inside a color: it only hands colors on to the
/// display. Every pixel color of a display fits in 32 raw bits, so the raw value identifies the
/// color exactly.
#[derive(Clone, Copy, Debug, PartialEq, Eq, Structural)]
pub struct Color {
    /// The raw pixel value.
    pub raw: u32,
}

impl Color {
    /// Creates a color from its raw pixel value.
    pub fn from_raw(raw: u32) -> (r: Color)
        ensures
            r.raw == raw,
    {
        Color { raw }
    }
}

/// Physical top, right, bottom, and left insets in pixels.
///
/// Guillotine uses the same one-to-four-value shorthand ordering as CSS:
///
/// - `10`: all sides
/// - `(4, 8)`: vertical, horizontal
/// - `(4, 8, 12)`: top, horizontal, bottom
/// - `(4, 8, 12, 16)`: top, right, bottom, left
///
/// Insets are non-negative pixel lengths. Percentages, `auto`, logical edges, negative margins,
/// and margin collapsing are not supported.
#[derive(Clone, Copy, Debug, PartialEq, Eq, Hash, Structural)]
pub struct Insets {
    /// Top inset.
    pub top: u32,
    /// Right inset.
    pub right: u32,
    /// Bottom inset.
    pub bottom: u32,
    /// Left inset.
    pub left: u32,
}

/// Insets with the given edges.
pub open spec fn insets(top: u32, right: u32, bottom: u32, left: u32) -> Insets {
    Insets { top, right, bottom, left }
}

/// A `usize` saturated into `u32`.
pub open spec fn usize_to_u32_sat(value: usize) -> u32 {
    if value > u32::MAX {
        u32::MAX
    } else {
        value as u32
    }
}

fn usize_len(value: usize) -> (r: u32)
    ensures
        r == usize_to_u32_sat(value),
{
    if value > u32::MAX as usize {
        u32::MAX
    } else {
        value as u32
    }
}

impl Insets {
    /// Creates insets in CSS order: top, right, bottom, left.
    pub fn new(top: u32, right: u32, bottom: u32, left: u32) -> (r: Insets)
        ensures
            r == insets(top, right, bottom, left),
    {
        Insets { top, right, bottom, left }
    }

    /// Creates uniform insets from the given `value`.
    pub fn uniform(value: u32) -> (r: Insets)
        ensures
            r == insets(value, value, value, value),
    {
        Self::new(value, value, value, value)
    }

    /// Expands a CSS-like inset shorthand (see [`InsetShorthand`]); a signed length must not be
    /// negative: insets cannot be negative.
    pub fn from<I: InsetShorthand>(value: I) -> (r: Insets)
        requires
            value.spec_valid(),
        ensures
            r == value.spec_insets(),
    {
        value.to_insets()
    }

    /// Creates zero insets.
    pub fn zero() -> (r: Insets)
        ensures
            r == insets(0, 0, 0, 0),
    {
        Self::uniform(0)
    }

    pub open spec fn spec_horizontal(self) -> u32 {
        sat_add(self.left, self.right)
    }

    pub open spec fn spec_vertical(self) -> u32 {
        sat_add(self.top, self.bottom)
    }

    pub open spec fn spec_total_size(self) -> Size {
        Size { width: self.spec_horizontal(), height: self.spec_vertical() }
    }

    pub open spec fn spec_saturating_add(self, other: Insets) -> Insets {
        insets(
            sat_add(self.top, other.top),
            sat_add(self.right, other.right),
            sat_add(self.bottom, other.bottom),
            sat_add(self.left, other.left),
        )
    }

    /// Returns the horizontal insets (`left + right`, saturating).
    pub fn horizontal(self) -> (r: u32)
        ensures
            r == self.spec_horizontal(),
    {
        self.left.saturating_add(self.right)
    }

    /// Returns the vertical insets (`top + bottom`, saturating).
    pub fn vertical(self) -> (r: u32)
        ensures
            r == self.spec_vertical(),
    {
        self.top.saturating_add(self.bottom)
    }

    /// Returns the total horizontal and vertical inset as a size.
    pub fn total_size(self) -> (r: Size)
        ensures
            r == self.spec_total_size(),
    {
        Size::new(self.horizontal(), self.vertical())
    }

    /// Adds two sets of insets edge by edge using saturating arithmetic.
    pub fn saturating_add(self, other: Insets) -> (r: Insets)
        ensures
            r == self.spec_saturating_add(other),
    {
        Self::new(
            self.top.saturating_add(other.top),
            self.right.saturating_add(other.right),
            self.bottom.saturating_add(other.bottom),
            self.left.saturating_add(other.left),
        )
    }
}

impl Default for Insets {
    fn default() -> (r: Insets)
        ensures
            r == insets(0, 0, 0, 0),
    {
        Self::uniform(0)
    }
}

impl From<u32> for Insets {
    fn from(value: u32) -> (r: Insets) {
        Self::uniform(value)
    }
}

impl vstd::std_specs::convert::FromSpecImpl<u32> for Insets {
    open spec fn obeys_from_spec() -> bool {
        true
    }

    open spec fn from_spec(value: u32) -> Insets {
        insets(value, value, value, value)
    }
}

impl From<(u32, u32)> for Insets {
    fn from(value: (u32, u32)) -> (r: Insets) {
        let (vertical, horizontal) = value;
        Self::new(vertical, horizontal, vertical, horizontal)
    }
}

impl vstd::std_specs::convert::FromSpecImpl<(u32, u32)> for Insets {
    open spec fn obeys_from_spec() -> bool {
        true
    }

    open spec fn from_spec(value: (u32, u32)) -> Insets {
        insets(value.0, value.1, value.0, value.1)
    }
}

impl From<(u32, u32, u32)> for Insets {
    fn from(value: (u32, u32, u32)) -> (r: Insets) {
        let (top, horizontal, bottom) = value;
        Self::new(top, horizontal, bottom, horizontal)
    }
}

impl vstd::std_specs::convert::FromSpecImpl<(u32, u32, u32)> for Insets {
    open spec fn obeys_from_spec() -> bool {
        true
    }

    open spec fn from_spec(value: (u32, u32, u32)) -> Insets {
        insets(value.0, value.1, value.2, value.1)
    }
}

impl From<(u32, u32, u32, u32)> for Insets {
    fn from(value: (u32, u32, u32, u32)) -> (r: Insets) {
        let (top, right, bottom, left) = value;
        Self::new(top, right, bottom, left)
    }
}

impl vstd::std_specs::convert::FromSpecImpl<(u32, u32, u32, u32)> for Insets {
    open spec fn obeys_from_spec() -> bool {
        true
    }

    open spec fn from_spec(value: (u32, u32, u32, u32)) -> Insets {
        insets(value.0, value.1, value.2, value.3)
    }
}

impl From<usize> for Insets {
    fn from(value: usize) -> (r: Insets) {
        Self::uniform(usize_len(value))
    }
}

impl vstd::std_specs::convert::FromSpecImpl<usize> for Insets {
    open spec fn obeys_from_spec() -> bool {
        true
    }

    open spec fn from_spec(value: usize) -> Insets {
        let v = usize_to_u32_sat(value);
        insets(v, v, v, v)
    }
}

impl From<(usize, usize)> for Insets {
    fn from(value: (usize, usize)) -> (r: Insets) {
        let (vertical, horizontal) = value;
        let v: u32 = usize_len(vertical);
        let h: u32 = usize_len(horizontal);
        Self::new(v, h, v, h)
    }
}

impl vstd::std_specs::convert::FromSpecImpl<(usize, usize)> for Insets {
    open spec fn obeys_from_spec() -> bool {
        true
    }

    open spec fn from_spec(value: (usize, usize)) -> Insets {
        let v = usize_to_u32_sat(value.0);
        let h = usize_to_u32_sat(value.1);
        insets(v, h, v, h)
    }
}

impl From<(usize, usize, usize)> for Insets {
    fn from(value: (usize, usize, usize)) -> (r: Insets) {
        let (top, horizontal, bottom) = value;
        let h: u32 = usize_len(horizontal);
        Self::new(usize_len(top), h, usize_len(bottom), h)
    }
}

impl vstd::std_specs::convert::FromSpecImpl<(usize, usize, usize)> for Insets {
    open spec fn obeys_from_spec() -> bool {
        true
    }

    open spec fn from_spec(value: (usize, usize, usize)) -> Insets {
        let h = usize_to_u32_sat(value.1);
        insets(usize_to_u32_sat(value.0), h, usize_to_u32_sat(value.2), h)
    }
}

impl From<(usize, usize, usize, usize)> for Insets {
    fn from(value: (usize, usize, usize, usize)) -> (r: Insets) {
        let (top, right, bottom, left) = value;
        Self::new(usize_len(top), usize_len(right), usize_len(bottom), usize_len(left))
    }
}

impl vstd::std_specs::convert::FromSpecImpl<(usize, usize, usize, usize)> for Insets {
    open spec fn obeys_from_spec() -> bool {
        true
    }

    open spec fn from_spec(value: (usize, usize, usize, usize)) -> Insets {
        insets(
            usize_to_u32_sat(value.0),
            usize_to_u32_sat(value.1),
            usize_to_u32_sat(value.2),
            usize_to_u32_sat(value.3),
        )
    }
}

/// A CSS-like one-to-four-value inset shorthand: one length for every edge; vertical and
/// horizontal; top, horizontal and bottom; or top, right, bottom and left. Lengths are `u32`,
/// `usize` (saturated into `u32`) or non-negative `i32`; ready-made [`Insets`] stand for
/// themselves.
pub trait InsetShorthand: Sized {
    /// Whether every length of the shorthand is an inset: signed lengths must not be negative.
    spec fn spec_valid(&self) -> bool;

    /// The insets the shorthand stands for.
    spec fn spec_insets(&self) -> Insets;

    /// Expands the shorthand into insets.
    fn to_insets(self) -> (r: Insets)
        requires
            self.spec_valid(),
        ensures
            r == self.spec_insets(),
    ;
}

impl InsetShorthand for Insets {
    open spec fn spec_valid(&self) -> bool {
        true
    }

    open spec fn spec_insets(&self) -> Insets {
        *self
    }

    fn to_insets(self) -> (r: Insets) {
        self
    }
}

impl InsetShorthand for u32 {
    open spec fn spec_valid(&self) -> bool {
        true
    }

    open spec fn spec_insets(&self) -> Insets {
        insets(*self, *self, *self, *self)
    }

    fn to_insets(self) -> (r: Insets) {
        Insets::uniform(self)
    }
}

impl InsetShorthand for (u32, u32) {
    open spec fn spec_valid(&self) -> bool {
        true
    }

    open spec fn spec_insets(&self) -> Insets {
        insets(self.0, self.1, self.0, self.1)
    }

    fn to_insets(self) -> (r: Insets) {
        let (vertical, horizontal) = self;
        Insets::new(vertical, horizontal, vertical, horizontal)
    }
}

impl InsetShorthand for (u32, u32, u32) {
    open spec fn spec_valid(&self) -> bool {
        true
    }

    open spec fn spec_insets(&self) -> Insets {
        insets(self.0, self.1, self.2, self.1)
    }

    fn to_insets(self) -> (r: Insets) {
        let (top, horizontal, bottom) = self;
        Insets::new(top, horizontal, bottom, horizontal)
    }
}

impl InsetShorthand for (u32, u32, u32, u32) {
    open spec fn spec_valid(&self) -> bool {
        true
    }

    open spec fn spec_insets(&self) -> Insets {
        insets(self.0, self.1, self.2, self.3)
    }

    fn to_insets(self) -> (r: Insets) {
        let (top, right, bottom, left) = self;
        Insets::new(top, right, bottom, left)
    }
}

impl InsetShorthand for usize {
    open spec fn spec_valid(&self) -> bool {
        true
    }

    open spec fn spec_insets(&self) -> Insets {
        let v = usize_to_u32_sat(*self);
        insets(v, v, v, v)
    }

    fn to_insets(self) -> (r: Insets) {
        Insets::uniform(usize_len(self))
    }
}

impl InsetShorthand for (usize, usize) {
    open spec fn spec_valid(&self) -> bool {
        true
    }

    open spec fn spec_insets(&self) -> Insets {
        let v = usize_to_u32_sat(self.0);
        let h = usize_to_u32_sat(self.1);
        insets(v, h, v, h)
    }

    fn to_insets(self) -> (r: Insets) {
        let (vertical, horizontal) = self;
        let v: u32 = usize_len(vertical);
        let h: u32 = usize_len(horizontal);
        Insets::new(v, h, v, h)
    }
}

impl InsetShorthand for (usize, usize, usize) {
    open spec fn spec_valid(&self) -> bool {
        true
    }

    open spec fn spec_insets(&self) -> Insets {
        let h = usize_to_u32_sat(self.1);
        insets(usize_to_u32_sat(self.0), h, usize_to_u32_sat(self.2), h)
    }

    fn to_insets(self) -> (r: Insets) {
        let (top, horizontal, bottom) = self;
        let h: u32 = usize_len(horizontal);
        Insets::new(usize_len(top), h, usize_len(bottom), h)
    }
}

impl InsetShorthand for (usize, usize, usize, usize) {
    open spec fn spec_valid(&self) -> bool {
        true
    }

    open spec fn spec_insets(&self) -> Insets {
        insets(
            usize_to_u32_sat(self.0),
            usize_to_u32_sat(self.1),
            usize_to_u32_sat(self.2),
            usize_to_u32_sat(self.3),
        )
    }

    fn to_insets(self) -> (r: Insets) {
        let (top, right, bottom, left) = self;
        Insets::new(usize_len(top), usize_len(right), usize_len(bottom), usize_len(left))
    }
}

impl InsetShorthand for i32 {
    open spec fn spec_valid(&self) -> bool {
        *self >= 0
    }

    open spec fn spec_insets(&self) -> Insets {
        insets(*self as u32, *self as u32, *self as u32, *self as u32)
    }

    fn to_insets(self) -> (r: Insets) {
        Insets::uniform(self as u32)
    }
}

impl InsetShorthand for (i32, i32) {
    open spec fn spec_valid(&self) -> bool {
        self.0 >= 0 && self.1 >= 0
    }

    open spec fn spec_insets(&self) -> Insets {
        insets(self.0 as u32, self.1 as u32, self.0 as u32, self.1 as u32)
    }

    fn to_insets(self) -> (r: Insets) {
        let (vertical, horizontal) = self;
        Insets::new(vertical as u32, horizontal as u32, vertical as u32, horizontal as u32)
    }
}

impl InsetShorthand for (i32, i32, i32) {
    open spec fn spec_valid(&self) -> bool {
        self.0 >= 0 && self.1 >= 0 && self.2 >= 0
    }

    open spec fn spec_insets(&self) -> Insets {
        insets(self.0 as u32, self.1 as u32, self.2 as u32, self.1 as u32)
    }

    fn to_insets(self) -> (r: Insets) {
        let (top, horizontal, bottom) = self;
        Insets::new(top as u32, horizontal as u32, bottom as u32, horizontal as u32)
    }
}

impl InsetShorthand for (i32, i32, i32, i32) {
    open spec fn spec_valid(&self) -> bool {
        self.0 >= 0 && self.1 >= 0 && self.2 >= 0 && self.3 >= 0
    }

    open spec fn spec_insets(&self) -> Insets {
        insets(self.0 as u32, self.1 as u32, self.2 as u32, self.3 as u32)
    }

    fn to_insets(self) -> (r: Insets) {
        let (top, right, bottom, left) = self;
        Insets::new(top as u32, right as u32, bottom as u32, left as u32)
    }
}

/// The box-model part of a style: what layout reads.
#[derive(Clone, Copy, Debug, PartialEq, Eq, Structural)]
pub struct BoxStyle {
    pub margin: Insets,
    pub border: Insets,
    pub padding: Insets,
    pub size: Option<Size>,
}

impl BoxStyle {
    pub open spec fn spec_content_insets(self) -> Insets {
        self.border.spec_saturating_add(self.padding)
    }

    pub open spec fn spec_border_constraints(self, constraints: Constraints) -> Constraints {
        constraints.spec_deflate(self.margin.spec_total_size())
    }

    /// The border-box size a configured `size` asks for: grown to hold border and padding.
    pub open spec fn spec_desired_border(size: Size, insets_size: Size) -> Size {
        size.spec_max(insets_size)
    }

    pub open spec fn spec_content_constraints(self, constraints: Constraints) -> Constraints {
        let border_constraints = self.spec_border_constraints(constraints);
        let content_size = self.spec_content_insets().spec_total_size();
        let border_constraints = match self.size {
            Some(size) => Constraints::spec_exact(
                border_constraints.spec_constrain(Self::spec_desired_border(size, content_size)),
            ),
            None => border_constraints,
        };
        border_constraints.spec_deflate(content_size).spec_loosen()
    }

    /// Returns the constraints for the border box by subtracting the margin from
    /// the given constraints.
    pub fn border_constraints(&self, constraints: Constraints) -> (r: Constraints)
        ensures
            r == self.spec_border_constraints(constraints),
    {
        constraints.deflate(self.margin.total_size())
    }

    /// Returns loose constraints for the contents of a box, which lives inside the border
    /// and padding.
    pub fn content_constraints(&self, constraints: Constraints) -> (r: Constraints)
        ensures
            r == self.spec_content_constraints(constraints),
    {
        let border_constraints = self.border_constraints(constraints);
        let content_size = self.content_insets().total_size();

        let border_constraints = match self.size {
            Some(size) => {
                // `size` describes the border box. Like CSS `border-box`, it grows to the minimum
                // needed by its padding and border unless hard parent constraints prevent that.
                let desired = size.component_max(content_size);
                let border_size = border_constraints.constrain(desired);

                Constraints::exact(border_size)
            },
            None => border_constraints,
        };

        border_constraints.deflate(content_size).loosen()
    }

    /// Returns the content insets, i.e. `border + padding` on each edge.
    pub fn content_insets(&self) -> (r: Insets)
        ensures
            r == self.spec_content_insets(),
    {
        self.border.saturating_add(self.padding)
    }
}

} // verus!

verus! {

/// Common style type shared between all element kinds.
///
/// # Box model
///
/// ```text
/// ┌─────────────────────────┐
/// │         margin          │
/// │  ┌───────────────────┐  │
/// │  │      border       │  │
/// │  │  ┌─────────────┐  │  │
/// │  │  │   padding   │  │  │
/// │  │  │  ┌───────┐  │  │  │
/// │  │  │  │content│  │  │  │
/// │  │  │  └───────┘  │  │  │
/// │  │  └─────────────┘  │  │
/// │  └───────────────────┘  │
/// └─────────────────────────┘
/// ```
///
/// [`Self::margin`], [`Self::padding`], and [`Self::border`] use physical top/right/bottom/left
/// edges. Adjacent margins in rows and columns add together; they do not collapse.
///
/// [`Self::size`] sets the border-box size. Padding and border are placed inside that size, while
/// margin is added outside it. A configured border box grows to contain its padding and border
/// when parent constraints allow.
#[derive(Clone, Copy)]
pub struct Style<S> {
    /// Margin insets: transparent space outside the border box.
    pub margin: Insets,
    /// Padding insets: space between the border and content.
    pub padding: Insets,
    /// Border widths.
    pub border: Insets,
    /// Border color shared by all four edges.
    pub border_color: Option<Color>,
    /// Background color painted across the complete border box, beneath the border.
    pub background: Option<Color>,
    /// Size of the border box.
    pub size: Option<Size>,
    /// Specific style properties for each element kind.
    pub specific: S,
}

impl<S> Style<S> {
    pub open spec fn spec_box_style(self) -> BoxStyle {
        BoxStyle { margin: self.margin, border: self.border, padding: self.padding, size: self.size }
    }

    /// Whether the box-model fields are the defaults.
    pub open spec fn has_default_box(self) -> bool {
        &&& self.margin == insets(0, 0, 0, 0)
        &&& self.padding == insets(0, 0, 0, 0)
        &&& self.border == insets(0, 0, 0, 0)
        &&& self.border_color.is_none()
        &&& self.background.is_none()
        &&& self.size.is_none()
    }

    /// The default box-model style with the given specific properties.
    pub fn with_specific(specific: S) -> (r: Style<S>)
        ensures
            r.has_default_box(),
            r.specific == specific,
    {
        Style {
            margin: Insets::zero(),
            padding: Insets::zero(),
            border: Insets::zero(),
            border_color: None,
            background: None,
            size: None,
            specific,
        }
    }

    /// Derive a [`BoxStyle`] for layout.
    pub fn box_style(&self) -> (r: BoxStyle)
        ensures
            r == self.spec_box_style(),
    {
        BoxStyle { margin: self.margin, border: self.border, padding: self.padding, size: self.size }
    }

    /// The style-specific properties.
    pub fn specific(&self) -> (r: &S)
        ensures
            *r == self.specific,
    {
        &self.specific
    }
}

impl<S: Default> Default for Style<S> {
    fn default() -> (r: Style<S>)
        ensures
            r.has_default_box(),
    {
        Style {
            margin: Insets::zero(),
            padding: Insets::zero(),
            border: Insets::zero(),
            border_color: None,
            background: None,
            size: None,
            specific: S::default(),
        }
    }
}

} // verus!

verus! {

/// Elements that can be styled.
pub trait StyledElement: Sized {
    /// The specific style type for this element.
    type Specific: Copy;

    /// The element's style.
    spec fn spec_style(&self) -> Style<Self::Specific>;

    /// This element with its style replaced by `style`, everything else as it was.
    spec fn spec_with_style(&self, style: Style<Self::Specific>) -> Self;

    /// Returns a reference to the element's style.
    fn style(&self) -> (r: &Style<Self::Specific>)
        ensures
            *r == self.spec_style(),
    ;

    /// Replaces the element's style.
    fn set_style(&mut self, style: Style<Self::Specific>)
        ensures
            *final(self) == old(self).spec_with_style(style),
    ;

    /// Sets the padding using a CSS-like one-to-four-value inset shorthand (see
    /// [`InsetShorthand`]); a signed length must not be negative: insets cannot be negative.
    fn padding<I: InsetShorthand>(self, padding: I) -> (r: Self)
        requires
            padding.spec_valid(),
        ensures
            r == self.spec_with_style((Style { padding: padding.spec_insets(), ..self.spec_style() })),
    {
        let mut this = self;
        let mut s = *this.style();
        s.padding = padding.to_insets();
        this.set_style(s);
        this
    }

    /// Sets the margin using a CSS-like one-to-four-value inset shorthand (see
    /// [`InsetShorthand`]); a signed length must not be negative: insets cannot be negative.
    fn margin<I: InsetShorthand>(self, margin: I) -> (r: Self)
        requires
            margin.spec_valid(),
        ensures
            r == self.spec_with_style((Style { margin: margin.spec_insets(), ..self.spec_style() })),
    {
        let mut this = self;
        let mut s = *this.style();
        s.margin = margin.to_insets();
        this.set_style(s);
        this
    }

    /// Sets the border widths using a CSS-like one-to-four-value inset shorthand (see
    /// [`InsetShorthand`]); a signed length must not be negative: insets cannot be negative.
    fn border<I: InsetShorthand>(self, border: I) -> (r: Self)
        requires
            border.spec_valid(),
        ensures
            r == self.spec_with_style((Style { border: border.spec_insets(), ..self.spec_style() })),
    {
        let mut this = self;
        let mut s = *this.style();
        s.border = border.to_insets();
        this.set_style(s);
        this
    }

    /// Sets the background color of the element.
    fn background(self, color: Color) -> (r: Self)
        ensures
            r == self.spec_with_style((Style { background: Some(color), ..self.spec_style() })),
    {
        let mut this = self;
        let mut s = *this.style();
        s.background = Some(color);
        this.set_style(s);
        this
    }

    /// Sets the size of the element's border box.
    fn size(self, size: Size) -> (r: Self)
        ensures
            r == self.spec_with_style((Style { size: Some(size), ..self.spec_style() })),
    {
        let mut this = self;
        let mut s = *this.style();
        s.size = Some(size);
        this.set_style(s);
        this
    }

    /// Sets the border color of the element.
    fn border_color(self, color: Color) -> (r: Self)
        ensures
            r == self.spec_with_style((Style { border_color: Some(color), ..self.spec_style() })),
    {
        let mut this = self;
        let mut s = *this.style();
        s.border_color = Some(color);
        this.set_style(s);
        this
    }
}

/// A box hands its contents loose constraints: no minimum in either dimension, so content that
/// fits keeps its natural size, and a maximum no larger than the box's own maximum.
pub proof fn lemma_content_constraints_loose(style: BoxStyle, constraints: Constraints)
    requires
        ordered(constraints.spec_min(), constraints.spec_max()),
    ensures
        style.spec_content_constraints(constraints).spec_min() == (Size { width: 0, height: 0 }),
        style.spec_content_constraints(constraints).spec_max().width <= constraints.spec_max().width,
        style.spec_content_constraints(constraints).spec_max().height <= constraints.spec_max().height,
{
    let m = style.margin.spec_total_size();
    let c = style.spec_content_insets().spec_total_size();
    let bc = style.spec_border_constraints(constraints);
    Constraints::lemma_spec_new(
        constraints.spec_min().spec_saturating_sub(m),
        constraints.spec_max().spec_saturating_sub(m),
    );
    lemma_deflate_ordered(constraints, m);
    let inner = match style.size {
        Some(size) => {
            let d = BoxStyle::spec_desired_border(size, c);
            lemma_constrain_within(bc, d);
            let b = bc.spec_constrain(d);
            Constraints::lemma_spec_new(b, b);
            Constraints::spec_exact(b)
        },
        None => bc,
    };
    Constraints::lemma_spec_new(
        inner.spec_min().spec_saturating_sub(c),
        inner.spec_max().spec_saturating_sub(c),
    );
    let deflated = inner.spec_deflate(c);
    Constraints::lemma_spec_new(Size { width: 0, height: 0 }, deflated.spec_max());
}

/// A two-value shorthand `(vertical, horizontal)` puts its first length on the top and bottom
/// edges and its second on the right and left edges, whatever the length type: unsigned,
/// `usize` within `u32`, or non-negative `i32`.
pub proof fn lemma_two_value_shorthand(vertical: u32, horizontal: u32)
    ensures
        (vertical, horizontal).spec_insets() == (Insets {
            top: vertical,
            right: horizontal,
            bottom: vertical,
            left: horizontal,
        }),
        (vertical as usize, horizontal as usize).spec_insets() == (Insets {
            top: vertical,
            right: horizontal,
            bottom: vertical,
            left: horizontal,
        }),
        vertical <= i32::MAX && horizontal <= i32::MAX ==> (vertical as i32, horizontal as i32).spec_valid()
            && (vertical as i32, horizontal as i32).spec_insets() == (Insets {
            top: vertical,
            right: horizontal,
            bottom: vertical,
            left: horizontal,
        }),
{
}

/// A one-value shorthand puts its length on every edge; a three-value shorthand
/// `(top, horizontal, bottom)` puts its middle length on the right and left edges; a four-value
/// shorthand goes clockwise from the top.
pub proof fn lemma_other_shorthands(a: u32, b: u32, c: u32, d: u32)
    ensures
        a.spec_insets() == (Insets { top: a, right: a, bottom: a, left: a }),
        (a, b, c).spec_insets() == (Insets { top: a, right: b, bottom: c, left: b }),
        (a, b, c, d).spec_insets() == (Insets { top: a, right: b, bottom: c, left: d }),
        (a as usize).spec_insets() == (Insets { top: a, right: a, bottom: a, left: a }),
        (a as usize, b as usize, c as usize).spec_insets() == (Insets { top: a, right: b, bottom: c, left: b }),
        (a as usize, b as usize, c as usize, d as usize).spec_insets() == (Insets {
            top: a,
            right: b,
            bottom: c,
            left: d,
        }),
{
}

} // verus!
