//! The frame tree: nodes stored in an arena, linked by first-child and next-sibling indices.
use vstd::prelude::*;

use crate::element::{ColumnStyle, DivStyle, RowStyle, TextStyle};
use crate::geometry::Size;
use crate::layout::{FlexDirection, Layout};
use crate::style::{BoxStyle, Color, Style};
use vstd::string::StringSliceAdditionalSpecFns;
use vstd::utf8::{decode_utf8, encode_utf8, encode_utf8_decode_utf8, encode_utf8_valid_utf8, valid_utf8};

verus! {

/// Index of a node in the frame arena.
pub type NodeIndex = usize;

/// A range of bytes in the frame's text arena.
#[derive(Clone, Copy, Debug, PartialEq, Eq, Structural)]
pub struct TextRange {
    pub offset: usize,
    pub len: usize,
}

/// A text leaf: where its UTF-8 content is stored, its measured size and its style.
#[derive(Clone, Copy)]
pub struct TextNode {
    pub range: TextRange,
    pub size: Size,
    pub style: Style<TextStyle>,
}

impl TextNode {
    /// The characters of this node's content, decoded from the text arena.
    pub open spec fn spec_content(self, text: Seq<u8>) -> Seq<char> {
        decode_utf8(text.subrange(self.range.offset as int, self.range.offset + self.range.len))
    }

    /// Extracts the content of this text node from the text arena as a `&str` slice.
    pub fn content<'a>(&self, storage: &'a [u8]) -> (r: &'a str)
        requires
            text_range_valid(storage@, self.range),
        ensures
            r.spec_bytes() == storage@.subrange(
                self.range.offset as int,
                self.range.offset + self.range.len,
            ),
            r@ == self.spec_content(storage@),
    {
        let available = storage.len();
        assert(self.range.offset + self.range.len <= available);
        let end = self.range.offset + self.range.len;
        let bytes = &storage[self.range.offset..end];
        let r = str_from_utf8(bytes).unwrap();
        proof {
            encode_utf8_decode_utf8(r@);
        }
        r
    }
}

/// Text reads back as it was stored: a text node whose range covers the bytes appended to the
/// arena for `content` decodes to `content`, however the arena grows afterwards.
pub proof fn lemma_stored_text_reads_back(text: Seq<u8>, content: Seq<char>, later: Seq<u8>, t: TextNode)
    requires
        t.range.offset == text.len(),
        t.range.len == encode_utf8(content).len(),
        text.len() + encode_utf8(content).len() <= later.len(),
        later.subrange(0, (text.len() + encode_utf8(content).len()) as int) == text + encode_utf8(content),
    ensures
        text_range_valid(later, t.range),
        t.spec_content(later) == content,
{
    let bytes = encode_utf8(content);
    let end = (text.len() + bytes.len()) as int;
    assert(later.subrange(text.len() as int, end) =~= bytes) by {
        assert forall|i: int| 0 <= i < bytes.len() implies later.subrange(text.len() as int, end)[i]
            == bytes[i] by {
            assert(later.subrange(0, end)[text.len() + i] == (text + bytes)[text.len() + i]);
        }
    }
    encode_utf8_decode_utf8(content);
    encode_utf8_valid_utf8(content);
}

/// `core::str::from_utf8`: the bytes as a string slice exactly when they are valid UTF-8, as std
/// documents it; the slice then holds exactly the given bytes.
#[verifier::external_body]
fn str_from_utf8(bytes: &[u8]) -> (r: Option<&str>)
    ensures
        r is Some <==> valid_utf8(bytes@),
        r matches Some(s) ==> s.spec_bytes() == bytes@,
{
    core::str::from_utf8(bytes).ok()
}

/// What a node is.
#[derive(Clone, Copy)]
pub enum NodeKind {
    /// A container that places its children left to right.
    Row(Style<RowStyle>),
    /// A container that places its children top to bottom.
    Column(Style<ColumnStyle>),
    /// A container with a configurable direction and gap.
    Div(Style<DivStyle>),
    /// A text leaf.
    Text(TextNode),
}

impl NodeKind {
    pub open spec fn spec_box_style(self) -> BoxStyle {
        match self {
            NodeKind::Row(style) => style.spec_box_style(),
            NodeKind::Column(style) => style.spec_box_style(),
            NodeKind::Div(style) => style.spec_box_style(),
            NodeKind::Text(text) => text.style.spec_box_style(),
        }
    }

    pub open spec fn spec_background(self) -> Option<Color> {
        match self {
            NodeKind::Row(style) => style.background,
            NodeKind::Column(style) => style.background,
            NodeKind::Div(style) => style.background,
            NodeKind::Text(text) => text.style.background,
        }
    }

    /// How a container lays out its children: direction and main-axis gap; `None` for a leaf.
    pub open spec fn spec_flow(self) -> Option<(FlexDirection, u32)> {
        match self {
            NodeKind::Row(_) => Some((FlexDirection::Row, 0u32)),
            NodeKind::Column(_) => Some((FlexDirection::Column, 0u32)),
            NodeKind::Div(style) => Some(
                (style.specific.direction, style.specific.direction.spec_split(style.specific.gap).0),
            ),
            NodeKind::Text(_) => None,
        }
    }

    /// The box-model part of the node's style.
    pub fn box_style(&self) -> (r: BoxStyle)
        ensures
            r == self.spec_box_style(),
    {
        match self {
            NodeKind::Row(style) => style.box_style(),
            NodeKind::Column(style) => style.box_style(),
            NodeKind::Div(style) => style.box_style(),
            NodeKind::Text(text) => text.style.box_style(),
        }
    }

    /// Returns the background color of this node, if any.
    pub fn background(&self) -> (r: Option<Color>)
        ensures
            r == self.spec_background(),
    {
        match self {
            NodeKind::Row(style) => style.background,
            NodeKind::Column(style) => style.background,
            NodeKind::Div(style) => style.background,
            NodeKind::Text(text) => text.style.background,
        }
    }

    /// Whether this node paints a background.
    pub fn has_background(&self) -> (r: bool)
        ensures
            r == self.spec_background().is_some(),
    {
        self.background().is_some()
    }

    /// Direction and main-axis gap of a container; `None` for a text leaf.
    pub fn flow(&self) -> (r: Option<(FlexDirection, u32)>)
        ensures
            r == self.spec_flow(),
    {
        match self {
            NodeKind::Row(_) => Some((FlexDirection::Row, 0u32)),
            NodeKind::Column(_) => Some((FlexDirection::Column, 0u32)),
            NodeKind::Div(style) => {
                let (gap, _) = style.specific.direction.split(style.specific.gap);
                Some((style.specific.direction, gap))
            },
            NodeKind::Text(_) => None,
        }
    }
}

/// A node in a frame tree.
#[derive(Clone, Copy)]
pub struct Node {
    /// The node's element.
    pub kind: NodeKind,
    /// The layout of this node.
    pub layout: Layout,
    /// Index of the first child node, if any.
    pub child: Option<NodeIndex>,
    /// Index of the next sibling node, if any.
    pub sibling: Option<NodeIndex>,
}

impl Node {
    /// The box-model part of the node's style.
    pub fn box_style(&self) -> (r: BoxStyle)
        ensures
            r == self.kind.spec_box_style(),
    {
        self.kind.box_style()
    }

    /// Sets the index of the next sibling node.
    pub fn set_sibling(&mut self, sibling: NodeIndex)
        ensures
            *final(self) == (Node { sibling: Some(sibling), ..*old(self) }),
    {
        self.sibling = Some(sibling);
    }
}

/// Whether a text range lies in `text` and holds valid UTF-8.
pub open spec fn text_range_valid(text: Seq<u8>, range: TextRange) -> bool {
    &&& range.offset + range.len <= text.len()
    &&& valid_utf8(text.subrange(range.offset as int, range.offset + range.len))
}

/// The shape conditions of node `p` in an arena.
///
/// `lo[p]` is the first index of the subtree of `p`, which occupies `lo[p]..=p`; `up[p]` is the
/// index of the parent of `p`, or negative for a node that is nobody's child. A child comes
/// before its parent and starts its parent's subtree; a sibling comes after its predecessor,
/// starts right after it and has the same parent.
pub open spec fn node_wf(nodes: Seq<Node>, text: Seq<u8>, lo: Seq<int>, up: Seq<int>, p: int) -> bool {
    let n = nodes[p];
    &&& 0 <= lo[p] <= p
    &&& up[p] < nodes.len()
    &&& (up[p] >= 0 ==> p < up[p])
    &&& (n.child matches Some(c) ==> {
        &&& c < p
        &&& lo[c as int] == lo[p]
        &&& up[c as int] == p
    })
    &&& (n.sibling matches Some(s) ==> {
        &&& p < s < nodes.len()
        &&& lo[s as int] == p + 1
        &&& up[s as int] == up[p]
        &&& (up[p] >= 0 ==> s < up[p])
    })
    &&& (n.kind matches NodeKind::Text(t) ==> {
        &&& n.child is None
        &&& text_range_valid(text, t.range)
    })
}

/// Whether `q` lies in the subtree of `p`, below `p` itself.
pub open spec fn below(lo: Seq<int>, p: int, q: int) -> bool {
    lo[p] <= q < p
}

/// Whether an arena, its text and its shape are consistent. Besides the conditions on each
/// node, the subtree of a node is contiguous: every node in `lo[p]..p` has its parent above it,
/// at most at `p`, so that following parents from it leads to `p`.
pub open spec fn tree_wf(nodes: Seq<Node>, text: Seq<u8>, lo: Seq<int>, up: Seq<int>) -> bool {
    &&& lo.len() == nodes.len()
    &&& up.len() == nodes.len()
    &&& forall|p: int| 0 <= p < nodes.len() ==> #[trigger] node_wf(nodes, text, lo, up, p)
    &&& forall|p: int, q: int| 0 <= p < nodes.len() && #[trigger] below(lo, p, q) ==> q < up[q] <= p
}

} // verus!
