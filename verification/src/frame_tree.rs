//! Layout of a built frame.
//!
//! Operations, single pass: constraints flow down the tree, sizes flow back up, and each
//! container places its children one after the other along its main axis.
use vstd::prelude::*;

use crate::context::Context;
use crate::frame::{StorageView, view_node_capacity, view_nodes, view_text, view_text_capacity};
use crate::geometry::{Point, Size, max_u32, sat_add, spec_to_i32, to_i32};
use crate::layout::{Constraints, FlexDirection, Layout, lemma_constrain_within, lemma_deflate_ordered, ordered};
use crate::style::{BoxStyle, Insets};
use crate::tree::{Node, NodeIndex, NodeKind, node_wf, tree_wf};

verus! {

/// The layout a box gets from its style, the constraints its parent gives it and the size of its
/// content: the border box is the content grown by border and padding, or the configured size
/// grown to hold border and padding, clamped into the constraints left after the margin; the
/// outer box adds the margin back; the content box is what remains inside border and padding.
/// The offset is left at zero: the parent places the box.
pub open spec fn spec_box_layout(bs: BoxStyle, constraints: Constraints, intrinsic: Size) -> Layout {
    let border_constraints = bs.spec_border_constraints(constraints);
    let content_insets = bs.spec_content_insets();
    let inset_size = content_insets.spec_total_size();
    let natural = intrinsic.spec_inflate(inset_size);
    let desired = match bs.size {
        Some(size) => BoxStyle::spec_desired_border(size, inset_size),
        None => natural,
    };
    let border_size = border_constraints.spec_constrain(desired);
    let content_offset = bs.margin.spec_saturating_add(content_insets);
    Layout {
        offset: Point { x: 0, y: 0 },
        border_offset: Point { x: spec_to_i32(bs.margin.left), y: spec_to_i32(bs.margin.top) },
        content_offset: Point { x: spec_to_i32(content_offset.left), y: spec_to_i32(content_offset.top) },
        outer_size: border_size.spec_inflate(bs.margin.spec_total_size()),
        border_size,
        content_size: border_size.spec_saturating_sub(inset_size),
    }
}

/// Hard constraints win: whatever its style and content, a box's border box lies within the
/// constraints left after its margin.
pub proof fn lemma_border_box_within_constraints(bs: BoxStyle, constraints: Constraints, intrinsic: Size)
    requires
        ordered(constraints.spec_min(), constraints.spec_max()),
    ensures
        ({
            let bc = bs.spec_border_constraints(constraints);
            let border = spec_box_layout(bs, constraints, intrinsic).border_size;
            ordered(bc.spec_min(), border) && ordered(border, bc.spec_max())
        }),
{
    let bc = bs.spec_border_constraints(constraints);
    lemma_deflate_ordered(constraints, bs.margin.spec_total_size());
    let inset_size = bs.spec_content_insets().spec_total_size();
    let desired = match bs.size {
        Some(size) => BoxStyle::spec_desired_border(size, inset_size),
        None => intrinsic.spec_inflate(inset_size),
    };
    lemma_constrain_within(bc, desired);
}

/// The border box lies inside the outer box: it starts after the leading margin and ends at
/// least the trailing margin before the outer box ends (where neither the margins nor the box
/// with its margins overflow).
pub proof fn lemma_border_box_inside_outer_box(bs: BoxStyle, constraints: Constraints, intrinsic: Size)
    requires
        ordered(constraints.spec_min(), constraints.spec_max()),
        bs.margin.left <= i32::MAX,
        bs.margin.top <= i32::MAX,
        bs.margin.left + bs.margin.right + constraints.spec_max().width <= u32::MAX,
        bs.margin.top + bs.margin.bottom + constraints.spec_max().height <= u32::MAX,
    ensures
        ({
            let l = spec_box_layout(bs, constraints, intrinsic);
            &&& l.border_offset.x == bs.margin.left
            &&& l.border_offset.y == bs.margin.top
            &&& l.border_offset.x + l.border_size.width + bs.margin.right == l.outer_size.width
            &&& l.border_offset.y + l.border_size.height + bs.margin.bottom == l.outer_size.height
        }),
{
    lemma_border_box_within_constraints(bs, constraints, intrinsic);
    let bc = bs.spec_border_constraints(constraints);
    let m = bs.margin.spec_total_size();
    Constraints::lemma_spec_new(constraints.spec_min().spec_saturating_sub(m), constraints.spec_max().spec_saturating_sub(m));
}

/// A configured size describes the border box, which grows to contain border and padding when
/// the constraints allow it: where the constraints left after the margin admit the configured
/// size grown to hold border and padding, that is the border-box size, and the content box is
/// what border and padding leave of it.
pub proof fn lemma_configured_size_grows_for_insets(
    bs: BoxStyle,
    constraints: Constraints,
    intrinsic: Size,
    size: Size,
)
    requires
        ordered(constraints.spec_min(), constraints.spec_max()),
        bs.size == Some(size),
        ({
            let bc = bs.spec_border_constraints(constraints);
            let grown = size.spec_max(bs.spec_content_insets().spec_total_size());
            ordered(bc.spec_min(), grown) && ordered(grown, bc.spec_max())
        }),
    ensures
        ({
            let insets = bs.spec_content_insets().spec_total_size();
            let l = spec_box_layout(bs, constraints, intrinsic);
            &&& l.border_size == size.spec_max(insets)
            &&& ordered(insets, l.border_size)
            &&& l.content_size == size.spec_max(insets).spec_saturating_sub(insets)
        }),
{
    lemma_deflate_ordered(constraints, bs.margin.spec_total_size());
    let bc = bs.spec_border_constraints(constraints);
    let grown = size.spec_max(bs.spec_content_insets().spec_total_size());
    lemma_constrain_within(bc, grown);
}

/// The leading and trailing insets of `insets` along the main axis of `dir`.
pub open spec fn main_insets(dir: FlexDirection, insets: Insets) -> (u32, u32) {
    match dir {
        FlexDirection::Row => (insets.left, insets.right),
        FlexDirection::Column => (insets.top, insets.bottom),
    }
}

/// The main-axis coordinate of a point along `dir`.
pub open spec fn main_coord(dir: FlexDirection, p: Point) -> int {
    match dir {
        FlexDirection::Row => p.x as int,
        FlexDirection::Column => p.y as int,
    }
}

/// Adjacent margins add: in a laid-out container, the border box of a child starts after the
/// border box of the child before it by the sum of the earlier child's trailing margin, the gap
/// and the later child's leading margin, along the main axis (where no length involved
/// saturates).
pub proof fn lemma_adjacent_margins_add(
    nodes: Seq<Node>,
    p: int,
    x: int,
    dir: FlexDirection,
    gap: u32,
    constraints: Constraints,
    main: u32,
    s: usize,
)
    requires
        chain_laid_out(nodes, p, x, dir, gap, constraints, main),
        nodes[x].sibling == Some(s),
        ({
            let a = nodes[x].kind.spec_box_style().margin;
            let b = nodes[s as int].kind.spec_box_style().margin;
            let border = main_coord(dir, Point {
                x: nodes[x].layout.border_size.width as i32,
                y: nodes[x].layout.border_size.height as i32,
            });
            let (a_lead, a_trail) = main_insets(dir, a);
            let (b_lead, _) = main_insets(dir, b);
            let h = a.spec_horizontal();
            &&& nodes[x].layout.border_size.width <= i32::MAX
            &&& nodes[x].layout.border_size.height <= i32::MAX
            &&& main + a_lead + border + a_trail + gap + b_lead <= i32::MAX
            &&& a.left + a.right <= u32::MAX
            &&& a.top + a.bottom <= u32::MAX
        }),
    ensures
        ({
            let a = nodes[x].kind.spec_box_style().margin;
            let b = nodes[s as int].kind.spec_box_style().margin;
            let (_, a_trail) = main_insets(dir, a);
            let (b_lead, _) = main_insets(dir, b);
            let border = main_coord(dir, Point {
                x: nodes[x].layout.border_size.width as i32,
                y: nodes[x].layout.border_size.height as i32,
            });
            let x_border_end = main_coord(dir, nodes[x].layout.offset) + main_coord(
                dir,
                nodes[x].layout.border_offset,
            ) + border;
            let s_border_start = main_coord(dir, nodes[s as int].layout.offset) + main_coord(
                dir,
                nodes[s as int].layout.border_offset,
            );
            s_border_start - x_border_end == a_trail + gap + b_lead
        }),
{
    let n = nodes[x];
    let bs = n.kind.spec_box_style();
    let cc = bs.spec_content_constraints(constraints);
    assert(laid_out(nodes, x, constraints));
    assert(0 <= s < p);
    assert(chain_laid_out(
        nodes,
        p,
        s as int,
        dir,
        gap,
        constraints,
        sat_add(sat_add(main, dir.spec_split(n.layout.outer_size).0), gap),
    ));
    assert(laid_out(nodes, s as int, constraints));
}

/// `a` and `b` agree on everything but the offset.
pub open spec fn same_but_offset(a: Layout, b: Layout) -> bool {
    a == (Layout { offset: a.offset, ..b })
}

/// Whether node `i` and its subtree are laid out for `constraints`: every node's layout is the
/// box layout of its style for the constraints its parent hands down, and every child sits at
/// the running sum of the main-axis sizes of the children before it and the gaps between them.
pub open spec fn laid_out(nodes: Seq<Node>, i: int, constraints: Constraints) -> bool
    decreases i + 1, 0int,
{
    if !(0 <= i < nodes.len()) {
        false
    } else {
        let n = nodes[i];
        let bs = n.kind.spec_box_style();
        let cc = bs.spec_content_constraints(constraints);
        match n.kind.spec_flow() {
            None => match n.kind {
                NodeKind::Text(t) => same_but_offset(
                    n.layout,
                    spec_box_layout(bs, constraints, cc.spec_constrain(t.size)),
                ),
                _ => false,
            },
            Some(flow) => match n.child {
                None => same_but_offset(
                    n.layout,
                    spec_box_layout(bs, constraints, cc.spec_constrain(flow.0.spec_size(0, 0))),
                ),
                Some(c) => {
                    &&& 0 <= c < i
                    &&& chain_laid_out(nodes, i, c as int, flow.0, flow.1, cc, 0)
                    &&& {
                        let totals = chain_totals(nodes, i, c as int, flow.0, flow.1, 0, 0);
                        same_but_offset(
                            n.layout,
                            spec_box_layout(bs, constraints, cc.spec_constrain(flow.0.spec_size(totals.0, totals.1))),
                        )
                    }
                },
            },
        }
    }
}

/// Whether the children of `p` from `x` on are laid out for `constraints`, `x` sitting at `main`
/// on the main axis.
pub open spec fn chain_laid_out(
    nodes: Seq<Node>,
    p: int,
    x: int,
    dir: FlexDirection,
    gap: u32,
    constraints: Constraints,
    main: u32,
) -> bool
    decreases p, p - x,
{
    if !(0 <= x < p) {
        false
    } else {
        let n = nodes[x];
        let child_main = dir.spec_split(n.layout.outer_size).0;
        &&& n.layout.offset == dir.spec_offset(main, 0)
        &&& laid_out(nodes, x, constraints)
        &&& match n.sibling {
            None => true,
            Some(s) => x < s < p && chain_laid_out(
                nodes,
                p,
                s as int,
                dir,
                gap,
                constraints,
                sat_add(sat_add(main, child_main), gap),
            ),
        }
    }
}

/// The main-axis extent (sizes plus gaps between) and the largest cross-axis size of the children
/// of `p` from `x` on, added to `main` and maxed with `cross`.
pub open spec fn chain_totals(
    nodes: Seq<Node>,
    p: int,
    x: int,
    dir: FlexDirection,
    gap: u32,
    main: u32,
    cross: u32,
) -> (u32, u32)
    decreases p - x,
{
    if !(0 <= x < p) {
        (main, cross)
    } else {
        let n = nodes[x];
        let (child_main, child_cross) = dir.spec_split(n.layout.outer_size);
        let main1 = sat_add(main, child_main);
        let cross1 = max_u32(cross, child_cross);
        match n.sibling {
            Some(s) => if x < s < p {
                chain_totals(nodes, p, s as int, dir, gap, sat_add(main1, gap), cross1)
            } else {
                (main1, cross1)
            },
            None => (main1, cross1),
        }
    }
}

/// Whether `a` and `b` are the same node but for its layout.
pub open spec fn same_structure(a: Node, b: Node) -> bool {
    &&& a.kind == b.kind
    &&& a.child == b.child
    &&& a.sibling == b.sibling
}

/// `new` is `old` with only the layouts of nodes `lo..=hi` changed. For `lo[p]..=p` that is the
/// subtree of `p`, which `tree_wf` keeps contiguous.
pub open spec fn layout_frame(old: Seq<Node>, new: Seq<Node>, lo: int, hi: int) -> bool {
    &&& new.len() == old.len()
    &&& forall|j: int| 0 <= j < old.len() ==> same_structure(#[trigger] new[j], old[j])
    &&& forall|j: int| 0 <= j < old.len() && (j < lo || j > hi) ==> #[trigger] new[j] == old[j]
}

/// A frame tree: the nodes of one built frame, and the root once it is resolved.
pub struct FrameTree<'frame> {
    root: Option<NodeIndex>,
    storage: StorageView<'frame>,
    lo: Ghost<Seq<int>>,
    up: Ghost<Seq<int>>,
}

impl<'frame> FrameTree<'frame> {
    /// The root node, once the tree is resolved.
    pub closed spec fn spec_root(self) -> Option<NodeIndex> {
        self.root
    }

    /// The nodes of the tree.
    pub closed spec fn spec_nodes(self) -> Seq<Node> {
        view_nodes(self.storage)
    }

    /// The text arena of the tree.
    pub closed spec fn spec_text(self) -> Seq<u8> {
        view_text(self.storage)
    }

    /// First index of each node's subtree.
    pub closed spec fn spec_lo(self) -> Seq<int> {
        self.lo@
    }

    /// Parent of each node (negative for a node that is nobody's child).
    pub closed spec fn spec_up(self) -> Seq<int> {
        self.up@
    }

    /// The storage the tree lives in.
    pub closed spec fn spec_storage(self) -> StorageView<'frame> {
        self.storage
    }

    /// Whether the tree's arena is a consistent forest.
    pub open spec fn wf(self) -> bool {
        &&& tree_wf(self.spec_nodes(), self.spec_text(), self.spec_lo(), self.spec_up())
        &&& self.spec_nodes().len() <= usize::MAX
        &&& (self.spec_root() matches Some(r) ==> r < self.spec_nodes().len())
    }

    /// Creates a new (unresolved) frame tree from the nodes built in `cx`.
    pub fn new(cx: Context<'frame>) -> (r: FrameTree<'frame>)
        requires
            cx.wf(),
        ensures
            r.wf(),
            r.spec_root() is None,
            r.spec_nodes() == cx.spec_nodes(),
            r.spec_text() == cx.spec_text(),
    {
        let (storage, lo, up) = cx.into_parts();
        FrameTree { root: None, storage, lo, up }
    }

    /// The root node, once the tree is resolved.
    pub fn root(&self) -> (r: Option<NodeIndex>)
        ensures
            r == self.spec_root(),
    {
        self.root
    }

    /// Gives the storage back.
    pub fn into_inner(self) -> (r: StorageView<'frame>)
        ensures
            r == self.spec_storage(),
    {
        self.storage
    }

    /// Returns the number of nodes in the frame tree.
    pub fn len(&self) -> (r: usize)
        ensures
            r == self.spec_nodes().len(),
    {
        self.storage.node_count()
    }

    /// Returns a reference to the node at the given index.
    pub fn node(&self, index: NodeIndex) -> (r: &Node)
        requires
            index < self.spec_nodes().len(),
        ensures
            *r == self.spec_nodes()[index as int],
    {
        self.storage.node(index)
    }

    /// The text arena as bytes.
    pub fn text(&self) -> (r: &[u8])
        ensures
            r@ == self.spec_text(),
    {
        self.storage.text()
    }

    /// Resolves the tree: lays out the root node and its children recursively.
    pub fn resolve(&mut self, root: NodeIndex, constraints: Constraints)
        requires
            old(self).wf(),
            root < old(self).spec_nodes().len(),
        ensures
            final(self).wf(),
            final(self).spec_root() == Some(root),
            laid_out(final(self).spec_nodes(), root as int, constraints),
            final(self).spec_nodes()[root as int].layout.offset == (Point { x: 0, y: 0 }),
            layout_frame(old(self).spec_nodes(), final(self).spec_nodes(), old(self).spec_lo()[root as int], root as int),
            final(self).spec_lo() == old(self).spec_lo(),
            final(self).spec_up() == old(self).spec_up(),
            final(self).spec_text() == old(self).spec_text(),
    {
        self.root = Some(root);
        self.layout_node(root, constraints);
    }

    /// Sets the layout of node `index`.
    fn set_layout(&mut self, index: NodeIndex, layout: Layout)
        requires
            old(self).wf(),
            index < old(self).spec_nodes().len(),
        ensures
            final(self).wf(),
            final(self).spec_root() == old(self).spec_root(),
            final(self).spec_lo() == old(self).spec_lo(),
            final(self).spec_up() == old(self).spec_up(),
            final(self).spec_text() == old(self).spec_text(),
            final(self).spec_nodes() == old(self).spec_nodes().update(
                index as int,
                (Node { layout, ..old(self).spec_nodes()[index as int] }),
            ),
    {
        self.storage.set_layout(index, layout);
        proof {
            let nodes = self.spec_nodes();
            assert forall|q: int| 0 <= q < nodes.len() implies #[trigger] node_wf(
                nodes,
                self.spec_text(),
                self.spec_lo(),
                self.spec_up(),
                q,
            ) by {
                assert(node_wf(old(self).spec_nodes(), self.spec_text(), self.spec_lo(), self.spec_up(), q));
            }
        }
    }

    /// Lays out node `index` and its subtree for `constraints`.
    fn layout_node(&mut self, index: NodeIndex, constraints: Constraints)
        requires
            old(self).wf(),
            index < old(self).spec_nodes().len(),
        ensures
            final(self).wf(),
            final(self).spec_root() == old(self).spec_root(),
            final(self).spec_lo() == old(self).spec_lo(),
            final(self).spec_up() == old(self).spec_up(),
            final(self).spec_text() == old(self).spec_text(),
            laid_out(final(self).spec_nodes(), index as int, constraints),
            final(self).spec_nodes()[index as int].layout.offset == (Point { x: 0, y: 0 }),
            layout_frame(
                old(self).spec_nodes(),
                final(self).spec_nodes(),
                old(self).spec_lo()[index as int],
                index as int,
            ),
        decreases index + 1, 0int,
    {
        let ghost nodes0 = self.spec_nodes();
        let ghost lo = self.spec_lo();
        let ghost up = self.spec_up();
        proof {
            assert(node_wf(nodes0, self.spec_text(), lo, up, index as int));
        }
        let node = *self.node(index);
        let box_style = node.box_style();
        let border_constraints = box_style.border_constraints(constraints);
        let content_constraints = box_style.content_constraints(constraints);

        let intrinsic_content_size = match node.kind.flow() {
            Some((direction, gap)) => {
                match node.child {
                    Some(child) => {
                        let (main, cross) = self.layout_chain(
                            index,
                            child,
                            content_constraints,
                            direction,
                            gap,
                            0,
                            0,
                        );
                        content_constraints.constrain(direction.size(main, cross))
                    },
                    None => content_constraints.constrain(direction.size(0, 0)),
                }
            },
            None => match node.kind {
                NodeKind::Text(text) => content_constraints.constrain(text.size),
                _ => content_constraints.constrain(Size::zero()),
            },
        };
        let ghost nodes1 = self.spec_nodes();

        let content_insets = box_style.content_insets();
        let content_inset_size = content_insets.total_size();
        let border_size = {
            // The "natural" border size, i.e. derived from its children.
            let natural_border_size = intrinsic_content_size.inflate(content_inset_size);

            // A configured size describes the border box, but it grows to fit border and padding
            // when the parent constraints allow it.
            let desired_border_size = match box_style.size {
                Some(size) => size.component_max(content_inset_size),
                None => natural_border_size,
            };

            border_constraints.constrain(desired_border_size)
        };

        let outer_size = border_size.inflate(box_style.margin.total_size());
        let content_size = border_size.deflate(content_inset_size);
        let content_offset = box_style.margin.saturating_add(content_insets);

        let layout = Layout {
            // The parent assigns this later. The root remains at zero.
            offset: Point::new(0, 0),
            // Both offsets are relative to the node's outer-box origin.
            border_offset: Point::new(to_i32(box_style.margin.left), to_i32(box_style.margin.top)),
            content_offset: Point::new(to_i32(content_offset.left), to_i32(content_offset.top)),
            outer_size,
            border_size,
            content_size,
        };
        self.set_layout(index, layout);
        proof {
            let nodes2 = self.spec_nodes();
            if let Some(c) = node.child {
                if node.kind.spec_flow() is Some {
                    let flow = node.kind.spec_flow().unwrap();
                    lemma_chain_frame(
                        nodes1,
                        nodes2,
                        self.spec_text(),
                        lo,
                        up,
                        index as int,
                        c as int,
                        flow.0,
                        flow.1,
                        content_constraints,
                        0,
                        0,
                    );
                }
            }
            assert(laid_out(nodes2, index as int, constraints));
        }
    }

    /// Lays out the children of `parent` from `x` on, `x` at `main` on the main axis of `dir`,
    /// returning the main-axis extent and largest cross-axis size (added to `main`, maxed with
    /// `cross`).
    fn layout_chain(
        &mut self,
        parent: NodeIndex,
        x: NodeIndex,
        constraints: Constraints,
        dir: FlexDirection,
        gap: u32,
        main: u32,
        cross: u32,
    ) -> (r: (u32, u32))
        requires
            old(self).wf(),
            x < parent < old(self).spec_nodes().len(),
            old(self).spec_up()[x as int] == parent,
            old(self).spec_lo()[parent as int] <= old(self).spec_lo()[x as int],
        ensures
            final(self).wf(),
            final(self).spec_root() == old(self).spec_root(),
            final(self).spec_lo() == old(self).spec_lo(),
            final(self).spec_up() == old(self).spec_up(),
            final(self).spec_text() == old(self).spec_text(),
            chain_laid_out(final(self).spec_nodes(), parent as int, x as int, dir, gap, constraints, main),
            r == chain_totals(final(self).spec_nodes(), parent as int, x as int, dir, gap, main, cross),
            layout_frame(
                old(self).spec_nodes(),
                final(self).spec_nodes(),
                old(self).spec_lo()[x as int],
                parent - 1,
            ),
        decreases parent, parent - x,
    {
        let ghost nodes0 = self.spec_nodes();
        let ghost lo = self.spec_lo();
        let ghost up = self.spec_up();
        proof {
            assert(node_wf(nodes0, self.spec_text(), lo, up, x as int));
        }
        // First we lay out the child node, as layout calculations flow upwards
        // (with constraints pushing downwards).
        self.layout_node(x, constraints);
        let ghost nodes_a = self.spec_nodes();

        let size = self.node(x).layout.outer_size;
        let (child_main, child_cross) = dir.split(size);

        // The child's offset is the main-axis cursor.
        let offset = dir.offset(main, 0);
        let mut layout = self.node(x).layout;
        layout.set_offset(offset);
        self.set_layout(x, layout);
        let ghost nodes1 = self.spec_nodes();
        proof {
            lemma_laid_out_frame(nodes_a, nodes1, self.spec_text(), lo, up, x as int, constraints);
        }

        let main = main.saturating_add(child_main);
        let cross = if cross >= child_cross { cross } else { child_cross };

        match self.node(x).sibling {
            Some(next) => {
                let r = self.layout_chain(parent, next, constraints, dir, gap, main.saturating_add(gap), cross);
                proof {
                    let nodes2 = self.spec_nodes();
                    lemma_laid_out_frame(nodes1, nodes2, self.spec_text(), lo, up, x as int, constraints);
                }
                r
            },
            None => (main, cross),
        }
    }
}

/// Whether `n2` is `n1` with only layouts changed, equal on `lo..hi`, and with node `hi` changed at
/// most in the offset of its layout.
pub open spec fn agree_below(n1: Seq<Node>, n2: Seq<Node>, lo: int, hi: int) -> bool {
    &&& n1.len() == n2.len()
    &&& forall|j: int| 0 <= j < n1.len() ==> same_structure(#[trigger] n2[j], n1[j])
    &&& forall|j: int| lo <= j < hi ==> #[trigger] n2[j] == n1[j]
}

/// Being laid out depends only on the subtree, and not on the offset of its root.
proof fn lemma_laid_out_frame(
    n1: Seq<Node>,
    n2: Seq<Node>,
    text: Seq<u8>,
    lo: Seq<int>,
    up: Seq<int>,
    i: int,
    constraints: Constraints,
)
    requires
        tree_wf(n1, text, lo, up),
        0 <= i < n1.len(),
        agree_below(n1, n2, lo[i], i),
        same_but_offset(n2[i].layout, n1[i].layout),
    ensures
        laid_out(n1, i, constraints) == laid_out(n2, i, constraints),
    decreases i + 1, 0int,
{
    assert(node_wf(n1, text, lo, up, i));
    assert(same_structure(n2[i], n1[i]));
    if let Some(c) = n1[i].child {
        if n1[i].kind.spec_flow() is Some {
            let flow = n1[i].kind.spec_flow().unwrap();
            let cc = n1[i].kind.spec_box_style().spec_content_constraints(constraints);
            lemma_chain_frame(n1, n2, text, lo, up, i, c as int, flow.0, flow.1, cc, 0, 0);
        }
    }
}

/// Being laid out, and the totals, of the children of `p` from `x` on depend only on the nodes
/// from `x`'s subtree up to `p`.
proof fn lemma_chain_frame(
    n1: Seq<Node>,
    n2: Seq<Node>,
    text: Seq<u8>,
    lo: Seq<int>,
    up: Seq<int>,
    p: int,
    x: int,
    dir: FlexDirection,
    gap: u32,
    constraints: Constraints,
    main: u32,
    cross: u32,
)
    requires
        tree_wf(n1, text, lo, up),
        0 <= x < p < n1.len(),
        up[x] == p,
        agree_below(n1, n2, lo[x], p),
    ensures
        chain_laid_out(n1, p, x, dir, gap, constraints, main) == chain_laid_out(
            n2,
            p,
            x,
            dir,
            gap,
            constraints,
            main,
        ),
        chain_totals(n1, p, x, dir, gap, main, cross) == chain_totals(n2, p, x, dir, gap, main, cross),
    decreases p, p - x,
{
    assert(node_wf(n1, text, lo, up, x));
    assert(n2[x] == n1[x]);
    lemma_laid_out_frame(n1, n2, text, lo, up, x, constraints);
    if let Some(s) = n1[x].sibling {
        let child_main = dir.spec_split(n1[x].layout.outer_size).0;
        let child_cross = dir.spec_split(n1[x].layout.outer_size).1;
        lemma_chain_frame(
            n1,
            n2,
            text,
            lo,
            up,
            p,
            s as int,
            dir,
            gap,
            constraints,
            sat_add(sat_add(main, child_main), gap),
            sat_add(sat_add(cross, 0), 0),
        );
        lemma_chain_frame(
            n1,
            n2,
            text,
            lo,
            up,
            p,
            s as int,
            dir,
            gap,
            constraints,
            sat_add(sat_add(main, child_main), gap),
            max_u32(cross, child_cross),
        );
    }
}

} // verus!
