//! Column containers: children placed top to bottom.
use vstd::prelude::*;

use crate::element::{
    Container, ContainerKind, Element, ElementBuilder, FluentBuilder, ParentElement, push_elements,
};
use crate::style::{Style, StyledElement};

verus! {

/// Style for a column.
#[derive(Clone, Copy, Debug, PartialEq, Eq, Structural)]
pub struct ColumnStyle {}

impl Default for ColumnStyle {
    fn default() -> (r: ColumnStyle) {
        ColumnStyle {}
    }
}

/// Declaration of a column: a container that places its children top to bottom.
pub struct Column<'t> {
    pub style: Style<ColumnStyle>,
    pub children: Vec<Element<'t>>,
}

impl<'t> Column<'t> {
    /// Creates an empty column with the default style.
    pub fn new() -> (r: Column<'t>)
        ensures
            r.style.has_default_box(),
            r.children@.len() == 0,
    {
        Column { style: Style::with_specific(ColumnStyle::default()), children: Vec::new() }
    }

    /// Sets the style of this column.
    pub fn with_style(self, style: Style<ColumnStyle>) -> (r: Column<'t>)
        ensures
            r.style == style,
            r.children == self.children,
    {
        Column { style, children: self.children }
    }
}

/// Creates an empty vertical container.
pub fn column<'t>() -> (r: Column<'t>)
    ensures
        r.style.has_default_box(),
        r.children@.len() == 0,
{
    Column::new()
}

impl<'t> StyledElement for Column<'t> {
    type Specific = ColumnStyle;

    open spec fn spec_style(&self) -> Style<ColumnStyle> {
        self.style
    }

    open spec fn spec_with_style(&self, style: Style<ColumnStyle>) -> Self {
        Column { style, children: self.children }
    }

    fn style(&self) -> (r: &Style<ColumnStyle>) {
        &self.style
    }

    fn set_style(&mut self, style: Style<ColumnStyle>) {
        self.style = style;
    }
}

impl<'t> ParentElement<'t> for Column<'t> {
    open spec fn spec_children(&self) -> Seq<Element<'t>> {
        self.children@
    }

    open spec fn spec_same_but_children(&self, other: &Self) -> bool {
        self.style == other.style
    }

    fn extend<E: ElementBuilder<'t>>(&mut self, elements: Vec<E>) {
        push_elements(&mut self.children, elements);
    }
}

impl<'t> ElementBuilder<'t> for Column<'t> {
    open spec fn spec_element(&self) -> Element<'t> {
        Element::Container(Container { kind: ContainerKind::Column(self.style), children: self.children })
    }

    fn into_element(self) -> (r: Element<'t>) {
        Element::Container(Container { kind: ContainerKind::Column(self.style), children: self.children })
    }
}

impl<'t> FluentBuilder for Column<'t> {}

} // verus!
