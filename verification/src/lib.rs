//! # Guillotine
//!
//! A graphical user interface layout and painting core for small displays: declarative element
//! trees are built into fixed-capacity frame storage, laid out in a single pass (constraints go
//! down, sizes come up) and painted onto a display, optionally through a framebuffer.
pub mod buffer;
pub mod context;
pub mod draw;
pub mod element;
pub mod frame;
pub mod frame_tree;
pub mod geometry;
pub mod layout;
pub mod render;
pub mod style;
pub mod target;
pub mod theme;
pub mod tree;

pub use buffer::{FrameBuffer, Mode};
pub use context::Context;
pub use draw::{Command, box_commands, draw_box, execute, node_commands};
pub use element::{
    BuildError, Column, ColumnStyle, DivBuilder, DivStyle, Element, ElementBuilder,
    FluentBuilder, Font, Gap, ParentElement, RenderError, RowBuilder, RowStyle,
    StyledFlexContainer, TextBuilder, TextStyle, TextStyledElement,
};
pub use frame::{FrameStorage, StorageView};
pub use frame_tree::FrameTree;
pub use geometry::{Point, Rectangle, Size};
pub use layout::{BoxLayout, Constraints, FlexDirection, Layout};
pub use render::render_frame;
pub use style::{BoxStyle, Color, InsetShorthand, Insets, Style, StyledElement};
pub use target::{DisplayTarget, Event, Logged, TargetOp};
pub use theme::Theme;
pub use tree::{Node, NodeIndex, NodeKind, TextNode, TextRange};
