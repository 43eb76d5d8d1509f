//! Row containers: children placed left to right.
use vstd::prelude::*;

use crate::element::{
    Container, ContainerKind, Element, ElementBuilder, FluentBuilder, ParentElement, push_elements,
};
use crate::style::{Style, StyledElement};

verus! {

/// Style for a row.
#[derive(Clone, Copy, Debug, PartialEq, Eq, Structural)]
pub struct RowStyle {}

impl Default for RowStyle {
    fn default() -> (r: RowStyle) {
        RowStyle {}
    }
}

/// Declaration of a row: a container that places its children left to right.
pub struct RowBuilder<'t> {
    pub style: Style<RowStyle>,
    pub children: Vec<Element<'t>>,
}

impl<'t> RowBuilder<'t> {
    /// Creates an empty row with the default style.
    pub fn new() -> (r: RowBuilder<'t>)
        ensures
            r.style.has_default_box(),
            r.children@.len() == 0,
    {
        RowBuilder { style: Style::with_specific(RowStyle::default()), children: Vec::new() }
    }
}

impl<'t> StyledElement for RowBuilder<'t> {
    type Specific = RowStyle;

    open spec fn spec_style(&self) -> Style<RowStyle> {
        self.style
    }

    open spec fn spec_with_style(&self, style: Style<RowStyle>) -> Self {
        RowBuilder { style, children: self.children }
    }

    fn style(&self) -> (r: &Style<RowStyle>) {
        &self.style
    }

    fn set_style(&mut self, style: Style<RowStyle>) {
        self.style = style;
    }
}

impl<'t> ParentElement<'t> for RowBuilder<'t> {
    open spec fn spec_children(&self) -> Seq<Element<'t>> {
        self.children@
    }

    open spec fn spec_same_but_children(&self, other: &Self) -> bool {
        self.style == other.style
    }

    fn extend<E: ElementBuilder<'t>>(&mut self, elements: Vec<E>) {
        push_elements(&mut self.children, elements);
    }
}

impl<'t> ElementBuilder<'t> for RowBuilder<'t> {
    open spec fn spec_element(&self) -> Element<'t> {
        Element::Container(Container { kind: ContainerKind::Row(self.style), children: self.children })
    }

    fn into_element(self) -> (r: Element<'t>) {
        Element::Container(Container { kind: ContainerKind::Row(self.style), children: self.children })
    }
}

impl<'t> FluentBuilder for RowBuilder<'t> {}

} // verus!
