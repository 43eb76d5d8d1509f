//! Color theming.
use vstd::prelude::*;

use crate::style::Color;

verus! {

/// Colors used by the UI when an element doesn't specify a color explicitly.
#[derive(Clone, Copy, Debug, PartialEq, Eq, Structural)]
pub struct Theme {
    /// Color used to clear the display before drawing a frame.
    pub background: Color,
    /// Default text color.
    pub foreground: Color,
}

impl Theme {
    /// Creates a theme from its background and foreground colors.
    pub fn new(background: Color, foreground: Color) -> (r: Theme)
        ensures
            r.background == background,
            r.foreground == foreground,
    {
        Theme { background, foreground }
    }
}

} // verus!
