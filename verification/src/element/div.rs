//! Div containers: a flex direction and a gap between children.
use vstd::prelude::*;

use crate::element::{
    Container, ContainerKind, Element, ElementBuilder, FluentBuilder, ParentElement, push_elements,
};
use crate::geometry::Size;
use crate::layout::FlexDirection;
use crate::style::{Style, StyledElement};

verus! {

/// Represents a gap between elements, stored as a `Size` (horizontal, vertical).
#[derive(Clone, Copy, Debug, PartialEq, Eq, Structural)]
pub struct Gap(pub Size);

impl Gap {
    /// The gap as a size: horizontal gap as width, vertical gap as height.
    pub fn size(&self) -> (r: Size)
        ensures
            r == self.0,
    {
        self.0
    }
}

impl From<u32> for Gap {
    fn from(value: u32) -> (r: Gap) {
        Gap(Size::new(value, value))
    }
}

impl vstd::std_specs::convert::FromSpecImpl<u32> for Gap {
    open spec fn obeys_from_spec() -> bool {
        true
    }

    open spec fn from_spec(value: u32) -> Gap {
        Gap(Size { width: value, height: value })
    }
}

impl From<Size> for Gap {
    fn from(value: Size) -> (r: Gap) {
        Gap(value)
    }
}

impl vstd::std_specs::convert::FromSpecImpl<Size> for Gap {
    open spec fn obeys_from_spec() -> bool {
        true
    }

    open spec fn from_spec(value: Size) -> Gap {
        Gap(value)
    }
}

impl From<(u32, u32)> for Gap {
    fn from(value: (u32, u32)) -> (r: Gap) {
        let (horizontal, vertical) = value;
        Gap(Size::new(horizontal, vertical))
    }
}

impl vstd::std_specs::convert::FromSpecImpl<(u32, u32)> for Gap {
    open spec fn obeys_from_spec() -> bool {
        true
    }

    open spec fn from_spec(value: (u32, u32)) -> Gap {
        Gap(Size { width: value.0, height: value.1 })
    }
}

/// Style for a div element.
#[derive(Clone, Copy, Debug, PartialEq, Eq, Structural)]
pub struct DivStyle {
    /// Gap between child elements.
    pub gap: Size,
    /// Flex direction.
    pub direction: FlexDirection,
}

impl DivStyle {
    /// The gap between child elements.
    pub fn gap(&self) -> (r: Size)
        ensures
            r == self.gap,
    {
        self.gap
    }

    /// The flex direction.
    pub fn direction(&self) -> (r: FlexDirection)
        ensures
            r == self.direction,
    {
        self.direction
    }
}

impl Default for DivStyle {
    fn default() -> (r: DivStyle)
        ensures
            r.gap == Size::spec_zero(),
            r.direction == FlexDirection::Row,
    {
        DivStyle { gap: Size::zero(), direction: FlexDirection::Row }
    }
}

/// Declaration of a div: a container with a flex direction and a gap between children.
pub struct DivBuilder<'t> {
    pub style: Style<DivStyle>,
    pub children: Vec<Element<'t>>,
}

impl<'t> DivBuilder<'t> {
    /// Creates an empty div with the default style (row direction, no gap).
    pub fn new() -> (r: DivBuilder<'t>)
        ensures
            r.style.has_default_box(),
            r.style.specific.gap == Size::spec_zero(),
            r.style.specific.direction == FlexDirection::Row,
            r.children@.len() == 0,
    {
        DivBuilder { style: Style::with_specific(DivStyle::default()), children: Vec::new() }
    }
}

impl<'t> StyledElement for DivBuilder<'t> {
    type Specific = DivStyle;

    open spec fn spec_style(&self) -> Style<DivStyle> {
        self.style
    }

    open spec fn spec_with_style(&self, style: Style<DivStyle>) -> Self {
        DivBuilder { style, children: self.children }
    }

    fn style(&self) -> (r: &Style<DivStyle>) {
        &self.style
    }

    fn set_style(&mut self, style: Style<DivStyle>) {
        self.style = style;
    }
}

impl<'t> ParentElement<'t> for DivBuilder<'t> {
    open spec fn spec_children(&self) -> Seq<Element<'t>> {
        self.children@
    }

    open spec fn spec_same_but_children(&self, other: &Self) -> bool {
        self.style == other.style
    }

    fn extend<E: ElementBuilder<'t>>(&mut self, elements: Vec<E>) {
        push_elements(&mut self.children, elements);
    }
}

impl<'t> ElementBuilder<'t> for DivBuilder<'t> {
    open spec fn spec_element(&self) -> Element<'t> {
        Element::Container(Container { kind: ContainerKind::Div(self.style), children: self.children })
    }

    fn into_element(self) -> (r: Element<'t>) {
        Element::Container(Container { kind: ContainerKind::Div(self.style), children: self.children })
    }
}

impl<'t> FluentBuilder for DivBuilder<'t> {}

/// Elements that can be styled as a flex container.
pub trait StyledFlexContainer: StyledElement<Specific = DivStyle> {
    /// Sets the gap between child elements.
    fn gap<G: Into<Gap>>(self, gap: G) -> (r: Self)
        ensures
            exists|g: Gap|
                call_ensures(G::into, (gap,), g) && r == self.spec_with_style(
                    (Style {
                        specific: DivStyle { gap: g.0, ..self.spec_style().specific },
                        ..self.spec_style()
                    }),
                ),
    {
        let mut this = self;
        let mut s = *this.style();
        let g: Gap = gap.into();
        s.specific.gap = g.0;
        this.set_style(s);
        this
    }

    /// Sets the flex direction of the container.
    fn flex_direction(self, direction: FlexDirection) -> (r: Self)
        ensures
            r == self.spec_with_style(
                (Style {
                    specific: DivStyle { direction, ..self.spec_style().specific },
                    ..self.spec_style()
                }),
            ),
    {
        let mut this = self;
        let mut s = *this.style();
        s.specific.direction = direction;
        this.set_style(s);
        this
    }
}

impl<'t> StyledFlexContainer for DivBuilder<'t> {}

} // verus!
