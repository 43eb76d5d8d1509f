//! Painting: the fills and text a node is drawn with, and running them on a target.
use vstd::prelude::*;

use crate::element::Font;
use crate::frame_tree::FrameTree;
use crate::geometry::{Point, Rectangle, Size, min_u32, sat_sub, saturating_coordinate_add,
    spec_saturating_coordinate_add};
use crate::layout::{BoxLayout, Layout};
use crate::style::{Color, Insets, Style};
use vstd::seq_lib::lemma_concat_associative;

use crate::target::{DisplayTarget, Event, Logged, TargetOp, extends, lemma_extends_trans, lemma_run_extend, lemma_run_single, run};
use crate::theme::Theme;
use crate::tree::{Node, NodeIndex, NodeKind, TextNode, node_wf, text_range_valid};

verus! {

/// One drawing operation, ready to be performed on a target.
#[derive(Clone, Copy)]
pub enum Command<'a> {
    /// Fill a rectangle with a color.
    Fill { area: Rectangle, color: Color },
    /// Draw a line of text, its top-left corner at `origin`.
    Text { content: &'a str, origin: Point, font: Font, color: Color },
}

impl<'a> Command<'a> {
    /// The target operation this command performs.
    pub open spec fn op(self) -> TargetOp {
        match self {
            Command::Fill { area, color } => TargetOp::Fill { area, color },
            Command::Text { content, origin, font, color } => TargetOp::Text {
                content: content@,
                origin,
                font,
                color,
            },
        }
    }
}

/// The target operations of a list of commands.
pub open spec fn ops_of<'a>(cmds: Seq<Command<'a>>) -> Seq<TargetOp> {
    cmds.map_values(|c: Command<'a>| c.op())
}

/// Filling `area` with `color`: nothing for an area without pixels.
pub open spec fn fill_op(area: Rectangle, color: Color) -> Seq<TargetOp> {
    if area.is_empty() {
        seq![]
    } else {
        seq![TargetOp::Fill { area, color }]
    }
}

/// The border bands of a box with border widths `border` around `bounds`, in the order top,
/// right, bottom, left. Each band lies inside the border box: a width is cut down to the box's
/// size, so opposing bands may overlap in a box smaller than its border.
pub open spec fn border_ops(border: Insets, bounds: Rectangle, color: Color) -> Seq<TargetOp> {
    let o = bounds.top_left;
    let w = bounds.size.width;
    let h = bounds.size.height;
    let top = min_u32(border.top, h);
    let right = min_u32(border.right, w);
    let bottom = min_u32(border.bottom, h);
    let left = min_u32(border.left, w);
    fill_op(Rectangle { top_left: o, size: Size { width: w, height: top } }, color) + fill_op(
        Rectangle {
            top_left: Point { x: spec_saturating_coordinate_add(o.x, sat_sub(w, right)), y: o.y },
            size: Size { width: right, height: h },
        },
        color,
    ) + fill_op(
        Rectangle {
            top_left: Point { x: o.x, y: spec_saturating_coordinate_add(o.y, sat_sub(h, bottom)) },
            size: Size { width: w, height: bottom },
        },
        color,
    ) + fill_op(Rectangle { top_left: o, size: Size { width: left, height: h } }, color)
}

/// How a styled box is painted over `bounds`, its border box: the background across the whole
/// border box, then the border bands over it.
pub open spec fn box_ops<S>(style: Style<S>, bounds: Rectangle) -> Seq<TargetOp> {
    let background = match style.background {
        Some(c) => fill_op(bounds, c),
        None => seq![],
    };
    match style.border_color {
        Some(c) => background + border_ops(style.border, bounds, c),
        None => background,
    }
}

/// The text operation of a text node laid out as `layout`: its content, at the top-left corner
/// of its content box, in its font and its color (the theme's foreground by default).
pub open spec fn text_op(t: TextNode, text: Seq<u8>, layout: BoxLayout, theme: Theme) -> TargetOp {
    TargetOp::Text {
        content: t.spec_content(text),
        origin: layout.content.top_left,
        font: t.style.specific.font,
        color: match t.style.specific.color {
            Some(c) => c,
            None => theme.foreground,
        },
    }
}

/// How a node is painted, laid out as `layout`: its box, and a text node's text over it.
pub open spec fn node_ops(kind: NodeKind, layout: BoxLayout, text: Seq<u8>, theme: Theme) -> Seq<
    TargetOp,
> {
    match kind {
        NodeKind::Row(s) => box_ops(s, layout.border),
        NodeKind::Column(s) => box_ops(s, layout.border),
        NodeKind::Div(s) => box_ops(s, layout.border),
        NodeKind::Text(t) => box_ops(t.style, layout.border).push(text_op(t, text, layout, theme)),
    }
}

/// Whether `inner` lies within `outer`.
pub open spec fn within(inner: Rectangle, outer: Rectangle) -> bool {
    &&& outer.top_left.x <= inner.top_left.x
    &&& outer.top_left.y <= inner.top_left.y
    &&& inner.top_left.x + inner.size.width <= outer.top_left.x + outer.size.width
    &&& inner.top_left.y + inner.size.height <= outer.top_left.y + outer.size.height
}

/// A box is painted inside its border box: background and border bands are fills of non-empty
/// rectangles that lie within the border box.
pub proof fn lemma_box_painted_inside<S>(style: Style<S>, bounds: Rectangle)
    requires
        bounds.corners_fit(),
    ensures
        forall|i: int|
            0 <= i < box_ops(style, bounds).len() ==> (#[trigger] box_ops(style, bounds)[i] matches TargetOp::Fill { area, color: _ }
                && within(area, bounds) && !area.is_empty()),
{
    let ops = box_ops(style, bounds);
    assert forall|i: int| 0 <= i < ops.len() implies (#[trigger] ops[i] matches TargetOp::Fill {
        area,
        color: _,
    } && within(area, bounds) && !area.is_empty()) by {
        let background = match style.background {
            Some(c) => fill_op(bounds, c),
            None => seq![],
        };
        if let Some(c) = style.border_color {
            let o = bounds.top_left;
            let w = bounds.size.width;
            let h = bounds.size.height;
            let top = min_u32(style.border.top, h);
            let right = min_u32(style.border.right, w);
            let bottom = min_u32(style.border.bottom, h);
            let left = min_u32(style.border.left, w);
            let f1 = fill_op(Rectangle { top_left: o, size: Size { width: w, height: top } }, c);
            let f2 = fill_op(
                Rectangle {
                    top_left: Point { x: spec_saturating_coordinate_add(o.x, sat_sub(w, right)), y: o.y },
                    size: Size { width: right, height: h },
                },
                c,
            );
            let f3 = fill_op(
                Rectangle {
                    top_left: Point { x: o.x, y: spec_saturating_coordinate_add(o.y, sat_sub(h, bottom)) },
                    size: Size { width: w, height: bottom },
                },
                c,
            );
            let f4 = fill_op(Rectangle { top_left: o, size: Size { width: left, height: h } }, c);
            assert(ops == background + (f1 + f2 + f3 + f4)) by {
                lemma_concat_associative(background, f1 + f2 + f3, f4);
                lemma_concat_associative(background, f1 + f2, f3);
                lemma_concat_associative(background, f1, f2);
            }
            let rest = f1 + f2 + f3 + f4;
            if i >= background.len() {
                let k = i - background.len();
                assert(ops[i] == rest[k]);
                if k < f1.len() {
                    assert(rest[k] == f1[k]);
                } else if k < f1.len() + f2.len() {
                    assert(rest[k] == f2[k - f1.len()]);
                } else if k < f1.len() + f2.len() + f3.len() {
                    assert(rest[k] == f3[k - f1.len() - f2.len()]);
                } else {
                    assert(rest[k] == f4[k - f1.len() - f2.len() - f3.len()]);
                }
            }
        }
    }
}

/// Appends the fill of `area` with `color`, unless the area has no pixels.
fn push_fill<'a>(cmds: &mut Vec<Command<'a>>, area: Rectangle, color: Color)
    ensures
        ops_of(final(cmds)@) == ops_of(old(cmds)@) + fill_op(area, color),
{
    let ghost before = ops_of(cmds@);
    if area.size.width == 0 || area.size.height == 0 {
        assert(ops_of(cmds@) =~= before + fill_op(area, color));
        return;
    }
    cmds.push(Command::Fill { area, color });
    assert(ops_of(cmds@) =~= before + fill_op(area, color));
}

/// Appends the border bands of a box with border widths `border` around `bounds`.
fn push_border<'a>(cmds: &mut Vec<Command<'a>>, border: Insets, bounds: Rectangle, color: Color)
    ensures
        ops_of(final(cmds)@) == ops_of(old(cmds)@) + border_ops(border, bounds, color),
{
    let ghost s0 = ops_of(cmds@);
    let origin = bounds.top_left;
    let size = bounds.size;
    let top = if border.top <= size.height { border.top } else { size.height };
    let right = if border.right <= size.width { border.right } else { size.width };
    let bottom = if border.bottom <= size.height { border.bottom } else { size.height };
    let left = if border.left <= size.width { border.left } else { size.width };

    // Border bands are painted inside the border box. Opposing bands may overlap when the box is
    // smaller than its border widths; all edges share one color, so overlap order is immaterial.
    let top_band = Rectangle::new(origin, Size::new(size.width, top));
    let right_band = Rectangle::new(
        Point::new(saturating_coordinate_add(origin.x, size.width - right), origin.y),
        Size::new(right, size.height),
    );
    let bottom_band = Rectangle::new(
        Point::new(origin.x, saturating_coordinate_add(origin.y, size.height - bottom)),
        Size::new(size.width, bottom),
    );
    let left_band = Rectangle::new(origin, Size::new(left, size.height));
    push_fill(cmds, top_band, color);
    push_fill(cmds, right_band, color);
    push_fill(cmds, bottom_band, color);
    push_fill(cmds, left_band, color);
    proof {
        let f1 = fill_op(top_band, color);
        let f2 = fill_op(right_band, color);
        let f3 = fill_op(bottom_band, color);
        let f4 = fill_op(left_band, color);
        lemma_concat_associative(s0, f1, f2);
        lemma_concat_associative(s0, f1 + f2, f3);
        lemma_concat_associative(s0, f1 + f2 + f3, f4);
        assert(border_ops(border, bounds, color) == f1 + f2 + f3 + f4);
    }
}

/// The commands that paint a styled box over `bounds`, its border box.
pub fn box_commands<'a, S>(style: &Style<S>, bounds: Rectangle) -> (r: Vec<Command<'a>>)
    ensures
        ops_of(r@) == box_ops(*style, bounds),
{
    let mut cmds: Vec<Command<'a>> = Vec::new();
    assert(ops_of(cmds@) =~= seq![]);
    if let Some(color) = style.background {
        push_fill(&mut cmds, bounds, color);
    }
    let color = match style.border_color {
        Some(color) => color,
        None => {
            assert(ops_of(cmds@) =~= box_ops(*style, bounds));
            return cmds;
        },
    };
    push_border(&mut cmds, style.border, bounds, color);
    assert(ops_of(cmds@) =~= box_ops(*style, bounds));
    cmds
}

/// The commands that paint a text node laid out as `layout`, its content being `content`.
fn text_commands<'a>(t: &TextNode, content: &'a str, layout: &BoxLayout, theme: &Theme) -> (r: Vec<
    Command<'a>,
>)
    ensures
        ops_of(r@) == box_ops(t.style, layout.border).push(
            TargetOp::Text {
                content: content@,
                origin: layout.content.top_left,
                font: t.style.specific.font,
                color: match t.style.specific.color {
                    Some(c) => c,
                    None => theme.foreground,
                },
            },
        ),
{
    let mut cmds = box_commands(&t.style, layout.border);
    let ghost before = ops_of(cmds@);
    let color = match t.style.specific.color {
        Some(color) => color,
        None => theme.foreground,
    };
    cmds.push(
        Command::Text { content, origin: layout.content.top_left, font: t.style.specific.font, color },
    );
    assert(ops_of(cmds@) =~= before.push(
        TargetOp::Text {
            content: content@,
            origin: layout.content.top_left,
            font: t.style.specific.font,
            color,
        },
    ));
    cmds
}

/// The commands that paint a node of kind `kind` laid out as `layout`, a text node's content
/// being read from the text arena `text`.
pub fn node_commands<'a>(kind: &NodeKind, layout: &BoxLayout, text: &'a [u8], theme: &Theme) -> (r:
    Vec<Command<'a>>)
    requires
        kind matches NodeKind::Text(t) ==> text_range_valid(text@, t.range),
    ensures
        ops_of(r@) == node_ops(*kind, *layout, text@, *theme),
{
    match kind {
        NodeKind::Row(style) => box_commands(style, layout.border),
        NodeKind::Column(style) => box_commands(style, layout.border),
        NodeKind::Div(style) => box_commands(style, layout.border),
        NodeKind::Text(t) => {
            let content = t.content(text);
            text_commands(t, content, layout, theme)
        },
    }
}

/// Performs `cmds[i..]` on `target`, one by one, stopping at the first that fails.
pub fn execute<'a, T: DisplayTarget>(target: &mut Logged<T>, cmds: &Vec<Command<'a>>, i: usize) -> (r: Result<
    (),
    T::Error,
>)
    requires
        i <= cmds.len(),
    ensures
        extends(final(target).events(), old(target).events()),
        r is Err ==> final(target).last_error() == Some(r->Err_0),
        run(ops_of(cmds@), i as int, final(target).events(), old(target).events().len() as int)
            == Some((final(target).events().len() as int, r is Ok)),
    decreases cmds.len() - i,
{
    let ghost start = target.events();
    if i == cmds.len() {
        return Ok(());
    }
    let res = match cmds[i] {
        Command::Fill { area, color } => target.fill_solid(area, color),
        Command::Text { content, origin, font, color } => target.draw_text(
            content,
            origin,
            font,
            color,
        ),
    };
    let ghost after_op = target.events();
    assert(ops_of(cmds@)[i as int] == cmds@[i as int].op());
    match res {
        Err(e) => Err(e),
        Ok(()) => {
            let r = execute(target, cmds, i + 1);
            proof {
                let end = target.events();
                assert(end[start.len() as int] == after_op[start.len() as int]);
                assert forall|j: int| 0 <= j < start.len() implies #[trigger] end[j] == start[j] by {
                    assert(end[j] == after_op[j]);
                }
            }
            r
        },
    }
}

/// Draws the box of a styled element laid out as `layout`.
pub fn draw_box<S, T: DisplayTarget>(style: &Style<S>, layout: &BoxLayout, target: &mut Logged<T>) -> (r:
    Result<(), T::Error>)
    ensures
        extends(final(target).events(), old(target).events()),
        r is Err ==> final(target).last_error() == Some(r->Err_0),
        run(box_ops(*style, layout.border), 0, final(target).events(), old(target).events().len() as int)
            == Some((final(target).events().len() as int, r is Ok)),
{
    let cmds: Vec<Command> = box_commands(style, layout.border);
    execute(target, &cmds, 0)
}

/// The rectangle of a display of size `size`.
pub open spec fn full_rect(size: Size) -> Rectangle {
    Rectangle { top_left: Point { x: 0, y: 0 }, size }
}

/// The background the children of a node are painted over: the node's own, or what it is
/// painted over itself.
pub open spec fn child_background(kind: NodeKind, inherited: Color) -> Color {
    match kind.spec_background() {
        Some(c) => c,
        None => inherited,
    }
}

/// Whether the layout of node `i` and the layouts of its subtree resolve to representable
/// positions below `origin` (each child below its parent's content origin), with border boxes
/// whose bottom-right corners are representable.
pub open spec fn drawable(nodes: Seq<Node>, i: int, origin: Point) -> bool
    decreases i + 1, 0int,
{
    if !(0 <= i < nodes.len()) {
        false
    } else {
        let l = nodes[i].layout;
        &&& l.resolvable(origin)
        &&& l.spec_resolve(origin).border.corners_fit()
        &&& match nodes[i].child {
            None => true,
            Some(c) => c < i && chain_drawable(
                nodes,
                i,
                c as int,
                l.spec_resolve(origin).content.top_left,
            ),
        }
    }
}

/// Whether the children of `p` from `x` on are drawable below `origin`.
pub open spec fn chain_drawable(nodes: Seq<Node>, p: int, x: int, origin: Point) -> bool
    decreases p, p - x,
{
    if !(0 <= x < p) {
        false
    } else {
        &&& drawable(nodes, x, origin)
        &&& match nodes[x].sibling {
            None => true,
            Some(s) => x < s < p && chain_drawable(nodes, p, s as int, origin),
        }
    }
}

/// Reads from `log` at `pos` the painting of node `i` and its subtree below `origin`: the node,
/// then each child in turn, below the node's content origin, while all succeeds.
pub open spec fn subtree_run(
    nodes: Seq<Node>,
    text: Seq<u8>,
    theme: Theme,
    i: int,
    origin: Point,
    log: Seq<Event>,
    pos: int,
) -> Option<(int, bool)>
    decreases i + 1, 0int,
{
    if !(0 <= i < nodes.len()) {
        None
    } else {
        let layout = nodes[i].layout.spec_resolve(origin);
        match run(node_ops(nodes[i].kind, layout, text, theme), 0, log, pos) {
            Some((p, true)) => match nodes[i].child {
                None => Some((p, true)),
                Some(c) => if c < i {
                    chain_subtree_run(nodes, text, theme, i, c as int, layout.content.top_left, log, p)
                } else {
                    None
                },
            },
            other => other,
        }
    }
}

/// Reads from `log` at `pos` the painting of the children of `p` from `x` on, below `origin`.
pub open spec fn chain_subtree_run(
    nodes: Seq<Node>,
    text: Seq<u8>,
    theme: Theme,
    p: int,
    x: int,
    origin: Point,
    log: Seq<Event>,
    pos: int,
) -> Option<(int, bool)>
    decreases p, p - x,
{
    if !(0 <= x < p) {
        None
    } else {
        match subtree_run(nodes, text, theme, x, origin, log, pos) {
            Some((q, true)) => match nodes[x].sibling {
                None => Some((q, true)),
                Some(s) => if x < s < p {
                    chain_subtree_run(nodes, text, theme, p, s as int, origin, log, q)
                } else {
                    None
                },
            },
            other => other,
        }
    }
}

/// Reads from `log` at `pos` the adaptive painting of node `i` below `origin`, over the
/// background `bg`. Where the node's border box meets the viewport, the target is asked to
/// buffer that region, pre-filled with `bg`; if it does, the whole subtree is painted into the
/// buffer, which is then flushed. Otherwise the node is painted directly, and each child is
/// painted adaptively in turn, over the node's background if it has one.
pub open spec fn adaptive_run(
    nodes: Seq<Node>,
    text: Seq<u8>,
    theme: Theme,
    viewport: Rectangle,
    i: int,
    origin: Point,
    bg: Color,
    log: Seq<Event>,
    pos: int,
) -> Option<(int, bool)>
    decreases i + 1, 0int,
{
    if !(0 <= i < nodes.len()) {
        None
    } else {
        let layout = nodes[i].layout.spec_resolve(origin);
        let bounds = layout.border.spec_intersection(viewport);
        let tries = !(bounds.size.width == 0 && bounds.size.height == 0);
        if tries && !(0 <= pos < log.len() && log[pos].op == (TargetOp::Begin { bounds, background: bg })) {
            None
        } else if tries && log[pos].ok {
            match subtree_run(nodes, text, theme, i, origin, log, pos + 1) {
                Some((q, true)) => run(seq![TargetOp::Flush], 0, log, q),
                other => other,
            }
        } else {
            let start = if tries { pos + 1 } else { pos };
            match run(node_ops(nodes[i].kind, layout, text, theme), 0, log, start) {
                Some((q, true)) => match nodes[i].child {
                    None => Some((q, true)),
                    Some(c) => if c < i {
                        chain_adaptive_run(
                            nodes,
                            text,
                            theme,
                            viewport,
                            i,
                            c as int,
                            layout.content.top_left,
                            child_background(nodes[i].kind, bg),
                            log,
                            q,
                        )
                    } else {
                        None
                    },
                },
                other => other,
            }
        }
    }
}

/// Reads from `log` at `pos` the adaptive painting of the children of `p` from `x` on.
pub open spec fn chain_adaptive_run(
    nodes: Seq<Node>,
    text: Seq<u8>,
    theme: Theme,
    viewport: Rectangle,
    p: int,
    x: int,
    origin: Point,
    bg: Color,
    log: Seq<Event>,
    pos: int,
) -> Option<(int, bool)>
    decreases p, p - x,
{
    if !(0 <= x < p) {
        None
    } else {
        match adaptive_run(nodes, text, theme, viewport, x, origin, bg, log, pos) {
            Some((q, true)) => match nodes[x].sibling {
                None => Some((q, true)),
                Some(s) => if x < s < p {
                    chain_adaptive_run(nodes, text, theme, viewport, p, s as int, origin, bg, log, q)
                } else {
                    None
                },
            },
            other => other,
        }
    }
}

/// A text node's text is drawn last, at the top-left corner of its content box: below `origin`,
/// at the node's offset plus its content offset (margin, border and padding), which is the
/// border box's corner moved by the difference of the two offsets; in the node's font, and in
/// its color or else the theme's foreground.
pub proof fn lemma_text_drawn_at_content_corner(
    t: TextNode,
    text: Seq<u8>,
    layout: Layout,
    origin: Point,
    theme: Theme,
)
    requires
        layout.resolvable(origin),
    ensures
        ({
            let resolved = layout.spec_resolve(origin);
            let ops = node_ops(NodeKind::Text(t), resolved, text, theme);
            &&& ops.len() > 0
            &&& ops.last() matches TargetOp::Text { content, origin: at, font, color }
            &&& content == t.spec_content(text)
            &&& at.x == origin.x + layout.offset.x + layout.content_offset.x
            &&& at.y == origin.y + layout.offset.y + layout.content_offset.y
            &&& at.x - resolved.border.top_left.x == layout.content_offset.x - layout.border_offset.x
            &&& at.y - resolved.border.top_left.y == layout.content_offset.y - layout.border_offset.y
            &&& font == t.style.specific.font
            &&& color == match t.style.specific.color {
                Some(c) => c,
                None => theme.foreground,
            }
        }),
{
}

/// A node painted directly, not through the framebuffer, hands its children the background it
/// paints itself, or, where it paints none, the background it is painted over: a first child
/// whose region meets the viewport is offered to the framebuffer pre-filled with that color.
pub proof fn lemma_child_region_prefilled(
    nodes: Seq<Node>,
    text: Seq<u8>,
    theme: Theme,
    viewport: Rectangle,
    i: int,
    origin: Point,
    bg: Color,
    log: Seq<Event>,
    pos: int,
    q: int,
)
    requires
        0 <= i < nodes.len(),
        nodes[i].child matches Some(c) && c < i,
        adaptive_run(nodes, text, theme, viewport, i, origin, bg, log, pos) is Some,
        ({
            let region = nodes[i].layout.spec_resolve(origin).border.spec_intersection(viewport);
            let empty = region.size.width == 0 && region.size.height == 0;
            &&& empty || (0 <= pos < log.len() && !log[pos].ok)
            &&& run(
                node_ops(nodes[i].kind, nodes[i].layout.spec_resolve(origin), text, theme),
                0,
                log,
                if empty { pos } else { pos + 1 },
            ) == Some((q, true))
        }),
        ({
            let c = nodes[i].child.unwrap() as int;
            let inner = nodes[i].layout.spec_resolve(origin).content.top_left;
            let region = nodes[c].layout.spec_resolve(inner).border.spec_intersection(viewport);
            !(region.size.width == 0 && region.size.height == 0)
        }),
    ensures
        ({
            let c = nodes[i].child.unwrap() as int;
            let inner = nodes[i].layout.spec_resolve(origin).content.top_left;
            let region = nodes[c].layout.spec_resolve(inner).border.spec_intersection(viewport);
            &&& 0 <= q < log.len()
            &&& log[q].op == (TargetOp::Begin {
                bounds: region,
                background: match nodes[i].kind.spec_background() {
                    Some(own) => own,
                    None => bg,
                },
            })
        }),
{
    let c = nodes[i].child.unwrap() as int;
    let inner = nodes[i].layout.spec_resolve(origin).content.top_left;
    let cbg = child_background(nodes[i].kind, bg);
    assert(adaptive_run(nodes, text, theme, viewport, i, origin, bg, log, pos) == chain_adaptive_run(
        nodes,
        text,
        theme,
        viewport,
        i,
        c,
        inner,
        cbg,
        log,
        q,
    ));
    assert(adaptive_run(nodes, text, theme, viewport, c, inner, cbg, log, q) is Some);
}

/// Whether the display must be cleared before drawing the frame: unless the root paints a
/// background over the complete viewport, pixels of the previous frame would remain.
pub open spec fn spec_needs_clear(nodes: Seq<Node>, root: Option<NodeIndex>, viewport: Size) -> bool {
    match root {
        None => true,
        Some(r) => {
            let node = nodes[r as int];
            ||| node.kind.spec_background() is None
            ||| node.layout.spec_resolve(Point { x: 0, y: 0 }).border.spec_intersection(
                full_rect(viewport),
            ) != full_rect(viewport)
        },
    }
}

/// Reads from `log` at `pos` the painting of a frame on a display of size `size`. An empty
/// frame clears the display. Where the display must be cleared, the complete frame is first
/// offered to the framebuffer; if it is not taken, the display is cleared and the frame painted
/// adaptively. Where the root covers the viewport, it is painted adaptively at once.
pub open spec fn draw_run(
    nodes: Seq<Node>,
    text: Seq<u8>,
    theme: Theme,
    root: Option<NodeIndex>,
    size: Size,
    log: Seq<Event>,
    pos: int,
) -> Option<(int, bool)> {
    let zero = Point { x: 0, y: 0 };
    let viewport = full_rect(size);
    let clear = seq![TargetOp::Clear { color: theme.background }];
    match root {
        None => run(clear, 0, log, pos),
        Some(r) => if spec_needs_clear(nodes, root, size) {
            if !(0 <= pos < log.len() && log[pos].op == (TargetOp::Begin {
                bounds: viewport,
                background: theme.background,
            })) {
                None
            } else if log[pos].ok {
                match subtree_run(nodes, text, theme, r as int, zero, log, pos + 1) {
                    Some((q, true)) => run(seq![TargetOp::Flush], 0, log, q),
                    other => other,
                }
            } else {
                match run(clear, 0, log, pos + 1) {
                    Some((q, true)) => adaptive_run(
                        nodes,
                        text,
                        theme,
                        viewport,
                        r as int,
                        zero,
                        theme.background,
                        log,
                        q,
                    ),
                    other => other,
                }
            }
        } else {
            adaptive_run(nodes, text, theme, viewport, r as int, zero, theme.background, log, pos)
        },
    }
}

/// Reading the painting of a subtree gives the same outcome from any longer log.
pub proof fn lemma_subtree_extend(
    nodes: Seq<Node>,
    text: Seq<u8>,
    theme: Theme,
    i: int,
    origin: Point,
    log: Seq<Event>,
    log2: Seq<Event>,
    pos: int,
)
    requires
        subtree_run(nodes, text, theme, i, origin, log, pos) is Some,
        extends(log2, log),
    ensures
        subtree_run(nodes, text, theme, i, origin, log2, pos) == subtree_run(
            nodes,
            text,
            theme,
            i,
            origin,
            log,
            pos,
        ),
    decreases i + 1, 0int,
{
    let layout = nodes[i].layout.spec_resolve(origin);
    let ops = node_ops(nodes[i].kind, layout, text, theme);
    lemma_run_extend(ops, 0, log, log2, pos);
    if let Some((p, true)) = run(ops, 0, log, pos) {
        if let Some(c) = nodes[i].child {
            if c < i {
                lemma_chain_subtree_extend(nodes, text, theme, i, c as int, layout.content.top_left, log, log2, p);
            }
        }
    }
}

/// Reading the painting of a chain of children gives the same outcome from any longer log.
pub proof fn lemma_chain_subtree_extend(
    nodes: Seq<Node>,
    text: Seq<u8>,
    theme: Theme,
    p: int,
    x: int,
    origin: Point,
    log: Seq<Event>,
    log2: Seq<Event>,
    pos: int,
)
    requires
        chain_subtree_run(nodes, text, theme, p, x, origin, log, pos) is Some,
        extends(log2, log),
    ensures
        chain_subtree_run(nodes, text, theme, p, x, origin, log2, pos) == chain_subtree_run(
            nodes,
            text,
            theme,
            p,
            x,
            origin,
            log,
            pos,
        ),
    decreases p, p - x,
{
    lemma_subtree_extend(nodes, text, theme, x, origin, log, log2, pos);
    if let Some((q, true)) = subtree_run(nodes, text, theme, x, origin, log, pos) {
        if let Some(s) = nodes[x].sibling {
            if x < s < p {
                lemma_chain_subtree_extend(nodes, text, theme, p, s as int, origin, log, log2, q);
            }
        }
    }
}

/// Reading an adaptive painting gives the same outcome from any longer log.
pub proof fn lemma_adaptive_extend(
    nodes: Seq<Node>,
    text: Seq<u8>,
    theme: Theme,
    viewport: Rectangle,
    i: int,
    origin: Point,
    bg: Color,
    log: Seq<Event>,
    log2: Seq<Event>,
    pos: int,
)
    requires
        adaptive_run(nodes, text, theme, viewport, i, origin, bg, log, pos) is Some,
        extends(log2, log),
    ensures
        adaptive_run(nodes, text, theme, viewport, i, origin, bg, log2, pos) == adaptive_run(
            nodes,
            text,
            theme,
            viewport,
            i,
            origin,
            bg,
            log,
            pos,
        ),
    decreases i + 1, 0int,
{
    let layout = nodes[i].layout.spec_resolve(origin);
    let bounds = layout.border.spec_intersection(viewport);
    let tries = !(bounds.size.width == 0 && bounds.size.height == 0);
    if tries {
        assert(log2[pos] == log[pos]);
    }
    if tries && log[pos].ok {
        lemma_subtree_extend(nodes, text, theme, i, origin, log, log2, pos + 1);
        if let Some((q, true)) = subtree_run(nodes, text, theme, i, origin, log, pos + 1) {
            lemma_run_extend(seq![TargetOp::Flush], 0, log, log2, q);
        }
    } else {
        let start = if tries { pos + 1 } else { pos };
        let ops = node_ops(nodes[i].kind, layout, text, theme);
        lemma_run_extend(ops, 0, log, log2, start);
        if let Some((q, true)) = run(ops, 0, log, start) {
            if let Some(c) = nodes[i].child {
                if c < i {
                    lemma_chain_adaptive_extend(
                        nodes,
                        text,
                        theme,
                        viewport,
                        i,
                        c as int,
                        layout.content.top_left,
                        child_background(nodes[i].kind, bg),
                        log,
                        log2,
                        q,
                    );
                }
            }
        }
    }
}

/// Reading the adaptive painting of a chain of children gives the same outcome from any longer
/// log.
pub proof fn lemma_chain_adaptive_extend(
    nodes: Seq<Node>,
    text: Seq<u8>,
    theme: Theme,
    viewport: Rectangle,
    p: int,
    x: int,
    origin: Point,
    bg: Color,
    log: Seq<Event>,
    log2: Seq<Event>,
    pos: int,
)
    requires
        chain_adaptive_run(nodes, text, theme, viewport, p, x, origin, bg, log, pos) is Some,
        extends(log2, log),
    ensures
        chain_adaptive_run(nodes, text, theme, viewport, p, x, origin, bg, log2, pos)
            == chain_adaptive_run(nodes, text, theme, viewport, p, x, origin, bg, log, pos),
    decreases p, p - x,
{
    lemma_adaptive_extend(nodes, text, theme, viewport, x, origin, bg, log, log2, pos);
    if let Some((q, true)) = adaptive_run(nodes, text, theme, viewport, x, origin, bg, log, pos) {
        if let Some(s) = nodes[x].sibling {
            if x < s < p {
                lemma_chain_adaptive_extend(nodes, text, theme, viewport, p, s as int, origin, bg, log, log2, q);
            }
        }
    }
}

impl NodeKind {
    /// Draws the box of a container node laid out as `layout`. Text nodes are drawn with their
    /// content by the frame tree.
    pub fn draw<T: DisplayTarget>(&self, layout: &BoxLayout, target: &mut Logged<T>) -> (r: Result<(), T::Error>)
        requires
            !(*self is Text),
        ensures
            extends(final(target).events(), old(target).events()),
            r is Err ==> final(target).last_error() == Some(r->Err_0),
            run(
                node_ops(*self, *layout, seq![], Theme { background: Color { raw: 0 }, foreground: Color { raw: 0 } }),
                0,
                final(target).events(),
                old(target).events().len() as int,
            ) == Some((final(target).events().len() as int, r is Ok)),
    {
        match self {
            NodeKind::Row(style) => draw_box(style, layout, target),
            NodeKind::Column(style) => draw_box(style, layout, target),
            NodeKind::Div(style) => draw_box(style, layout, target),
            NodeKind::Text(_) => {
                proof {
                    assert(false);
                }
                Ok(())
            },
        }
    }
}

impl<'frame> FrameTree<'frame> {
    /// Draws node `index` alone, laid out as `layout`.
    fn draw_node<T: DisplayTarget>(
        &self,
        index: NodeIndex,
        layout: &BoxLayout,
        target: &mut Logged<T>,
        theme: &Theme,
    ) -> (r: Result<(), T::Error>)
        requires
            self.wf(),
            index < self.spec_nodes().len(),
        ensures
            extends(final(target).events(), old(target).events()),
            r is Err ==> final(target).last_error() == Some(r->Err_0),
            run(
                node_ops(self.spec_nodes()[index as int].kind, *layout, self.spec_text(), *theme),
                0,
                final(target).events(),
                old(target).events().len() as int,
            ) == Some((final(target).events().len() as int, r is Ok)),
    {
        proof {
            assert(node_wf(self.spec_nodes(), self.spec_text(), self.spec_lo(), self.spec_up(), index as int));
        }
        let node = self.node(index);
        let cmds = node_commands(&node.kind, layout, self.text(), theme);
        execute(target, &cmds, 0)
    }

    /// Draws node `index` and its subtree below `parent_origin`.
    fn draw_subtree<T: DisplayTarget>(
        &self,
        index: NodeIndex,
        parent_origin: Point,
        target: &mut Logged<T>,
        theme: &Theme,
    ) -> (r: Result<(), T::Error>)
        requires
            self.wf(),
            drawable(self.spec_nodes(), index as int, parent_origin),
        ensures
            extends(final(target).events(), old(target).events()),
            r is Err ==> final(target).last_error() == Some(r->Err_0),
            subtree_run(
                self.spec_nodes(),
                self.spec_text(),
                *theme,
                index as int,
                parent_origin,
                final(target).events(),
                old(target).events().len() as int,
            ) == Some((final(target).events().len() as int, r is Ok)),
        decreases index + 1, 0int,
    {
        let ghost log0 = target.events();
        let node = self.node(index);
        let layout = node.layout.resolve(parent_origin);
        let drawn = self.draw_node(index, &layout, target, theme);
        if let Err(e) = drawn {
            return Err(e);
        }
        let ghost log1 = target.events();
        match node.child {
            None => Ok(()),
            Some(child) => {
                let r = self.draw_subtree_children(index, child, layout.content.top_left, target, theme);
                proof {
                    lemma_run_extend(
                        node_ops(node.kind, layout, self.spec_text(), *theme),
                        0,
                        log1,
                        target.events(),
                        log0.len() as int,
                    );
                    lemma_extends_trans(log0, log1, target.events());
                }
                r
            },
        }
    }

    /// Draws the children of `parent` from `x` on, with their subtrees, below `origin`.
    fn draw_subtree_children<T: DisplayTarget>(
        &self,
        parent: NodeIndex,
        x: NodeIndex,
        origin: Point,
        target: &mut Logged<T>,
        theme: &Theme,
    ) -> (r: Result<(), T::Error>)
        requires
            self.wf(),
            chain_drawable(self.spec_nodes(), parent as int, x as int, origin),
        ensures
            extends(final(target).events(), old(target).events()),
            r is Err ==> final(target).last_error() == Some(r->Err_0),
            chain_subtree_run(
                self.spec_nodes(),
                self.spec_text(),
                *theme,
                parent as int,
                x as int,
                origin,
                final(target).events(),
                old(target).events().len() as int,
            ) == Some((final(target).events().len() as int, r is Ok)),
        decreases parent, parent - x,
    {
        let ghost log0 = target.events();
        let drawn = self.draw_subtree(x, origin, target, theme);
        if let Err(e) = drawn {
            return Err(e);
        }
        let ghost log1 = target.events();
        match self.node(x).sibling {
            None => Ok(()),
            Some(next) => {
                let r = self.draw_subtree_children(parent, next, origin, target, theme);
                proof {
                    lemma_subtree_extend(
                        self.spec_nodes(),
                        self.spec_text(),
                        *theme,
                        x as int,
                        origin,
                        log1,
                        target.events(),
                        log0.len() as int,
                    );
                    lemma_extends_trans(log0, log1, target.events());
                }
                r
            },
        }
    }
}

impl<'frame> FrameTree<'frame> {
    /// Returns whether the display must be cleared before drawing the frame.
    ///
    /// Clearing can be skipped only when the root node paints a background across the entire
    /// viewport. An empty tree, a transparent root, or a root that leaves any part of the viewport
    /// uncovered requires a clear to remove pixels from the previous frame.
    pub fn needs_clear(&self, viewport: Size) -> (r: bool)
        requires
            self.wf(),
            self.spec_root() matches Some(root) ==> drawable(
                self.spec_nodes(),
                root as int,
                Point { x: 0, y: 0 },
            ),
            full_rect(viewport).corners_fit(),
        ensures
            r == spec_needs_clear(self.spec_nodes(), self.spec_root(), viewport),
    {
        let root = match self.root() {
            None => return true,
            Some(root) => root,
        };
        let root = self.node(root);
        if !root.kind.has_background() {
            return true;
        }
        let root_bounds = root.layout.resolve(Point::zero()).border;
        let viewport = Rectangle::new(Point::zero(), viewport);
        root_bounds.intersection(&viewport) != viewport
    }

    /// Draws the frame tree onto `target`: clears it for an empty frame, and otherwise paints the
    /// root at the origin, adaptively, after clearing what the root leaves uncovered.
    pub fn draw<T: DisplayTarget>(&self, target: &mut Logged<T>, theme: &Theme) -> (r: Result<(), T::Error>)
        requires
            self.wf(),
            self.spec_root() matches Some(root) ==> drawable(
                self.spec_nodes(),
                root as int,
                Point { x: 0, y: 0 },
            ),
            full_rect(old(target).spec_size()).corners_fit(),
        ensures
            extends(final(target).events(), old(target).events()),
            r is Err ==> final(target).last_error() == Some(r->Err_0),
            draw_run(
                self.spec_nodes(),
                self.spec_text(),
                *theme,
                self.spec_root(),
                old(target).spec_size(),
                final(target).events(),
                old(target).events().len() as int,
            ) == Some((final(target).events().len() as int, r is Ok)),
    {
        let ghost log0 = target.events();
        let root = match self.root() {
            None => {
                let r = target.clear(theme.background);
                proof {
                    lemma_run_single(TargetOp::Clear { color: theme.background }, target.events(), log0.len() as int);
                }
                return r;
            },
            Some(root) => root,
        };
        let viewport = Rectangle::new(Point::zero(), target.size());

        let ghost mut log_cleared = log0;
        if self.needs_clear(viewport.size) {
            // A transparent or partial root requires the complete viewport to be
            // initialized. Prefer doing that invisibly in the framebuffer.
            if target.try_begin(viewport, theme.background) {
                let ghost log1 = target.events();
                let drawn = self.draw_subtree(root, Point::zero(), target, theme);
                if let Err(e) = drawn {
                    proof {
                        lemma_extends_trans(log0, log1, target.events());
                    }
                    return Err(e);
                }
                let ghost log2 = target.events();
                let r = target.flush();
                proof {
                    lemma_subtree_extend(
                        self.spec_nodes(),
                        self.spec_text(),
                        *theme,
                        root as int,
                        Point { x: 0, y: 0 },
                        log2,
                        target.events(),
                        log0.len() + 1int,
                    );
                    lemma_extends_trans(log0, log1, log2);
                    lemma_extends_trans(log0, log2, target.events());
                    lemma_run_single(TargetOp::Flush, target.events(), log2.len() as int);
                }
                return r;
            }
            // The viewport doesn't fit, so a physical clear is unavoidable.
            let ghost log1 = target.events();
            let cleared = target.clear(theme.background);
            proof {
                lemma_extends_trans(log0, log1, target.events());
                lemma_run_single(TargetOp::Clear { color: theme.background }, target.events(), log1.len() as int);
            }
            if let Err(e) = cleared {
                return Err(e);
            }
            proof {
                log_cleared = target.events();
            }
        }
        let ghost log3 = target.events();
        let r = self.draw_adaptive(root, Point::zero(), theme.background, viewport, target, theme);
        proof {
            lemma_extends_trans(log0, log3, target.events());
            if spec_needs_clear(self.spec_nodes(), self.spec_root(), viewport.size) {
                assert(target.events()[log0.len() as int] == log3[log0.len() as int]);
                lemma_run_extend(
                    seq![TargetOp::Clear { color: theme.background }],
                    0,
                    log_cleared,
                    target.events(),
                    log0.len() + 1int,
                );
            }
        }
        r
    }

    /// Adaptive drawing that supports frame buffering through [`DisplayTarget`]. For each
    /// subtree, it checks whether the first node's bounds fit within the buffer using
    /// [`DisplayTarget::try_begin`]. If they do, that whole subtree is drawn into the buffer.
    ///
    /// If the subtree does not fit within the buffer, its node is drawn directly into the target
    /// without using the buffer, and each child node is tried in turn.
    fn draw_adaptive<T: DisplayTarget>(
        &self,
        index: NodeIndex,
        parent_origin: Point,
        inherited_background: Color,
        viewport: Rectangle,
        target: &mut Logged<T>,
        theme: &Theme,
    ) -> (r: Result<(), T::Error>)
        requires
            self.wf(),
            drawable(self.spec_nodes(), index as int, parent_origin),
            viewport.corners_fit(),
        ensures
            extends(final(target).events(), old(target).events()),
            r is Err ==> final(target).last_error() == Some(r->Err_0),
            adaptive_run(
                self.spec_nodes(),
                self.spec_text(),
                *theme,
                viewport,
                index as int,
                parent_origin,
                inherited_background,
                final(target).events(),
                old(target).events().len() as int,
            ) == Some((final(target).events().len() as int, r is Ok)),
        decreases index + 1, 0int,
    {
        let ghost log0 = target.events();
        let node = self.node(index);
        let layout = node.layout.resolve(parent_origin);
        let bounds = layout.border.intersection(&viewport);
        let tries = bounds.size.width != 0 || bounds.size.height != 0;

        if tries && target.try_begin(bounds, inherited_background) {
            let ghost log1 = target.events();
            let drawn = self.draw_subtree(index, parent_origin, target, theme);
            if let Err(e) = drawn {
                proof {
                    lemma_extends_trans(log0, log1, target.events());
                }
                return Err(e);
            }
            let ghost log2 = target.events();
            let r = target.flush();
            proof {
                lemma_subtree_extend(
                    self.spec_nodes(),
                    self.spec_text(),
                    *theme,
                    index as int,
                    parent_origin,
                    log2,
                    target.events(),
                    log0.len() + 1int,
                );
                lemma_extends_trans(log0, log1, log2);
                lemma_extends_trans(log0, log2, target.events());
                lemma_run_single(TargetOp::Flush, target.events(), log2.len() as int);
            }
            return r;
        }
        // This node didn't fit, so it is painted directly. The children will be tried to fit
        // into the remaining space in the next recursive call.
        let ghost log1 = target.events();
        let drawn = self.draw_node(index, &layout, target, theme);
        let ghost log2 = target.events();
        proof {
            lemma_extends_trans(log0, log1, log2);
        }
        if let Err(e) = drawn {
            return Err(e);
        }
        let child_background = match node.kind.background() {
            Some(color) => color,
            None => inherited_background,
        };
        match node.child {
            None => Ok(()),
            Some(child) => {
                let r = self.draw_adaptive_children(
                    index,
                    child,
                    layout.content.top_left,
                    child_background,
                    viewport,
                    target,
                    theme,
                );
                proof {
                    lemma_run_extend(
                        node_ops(node.kind, layout, self.spec_text(), *theme),
                        0,
                        log2,
                        target.events(),
                        log1.len() as int,
                    );
                    lemma_extends_trans(log0, log2, target.events());
                }
                r
            },
        }
    }

    /// Draws the children of `parent` from `x` on adaptively, below `origin`, over `background`.
    fn draw_adaptive_children<T: DisplayTarget>(
        &self,
        parent: NodeIndex,
        x: NodeIndex,
        origin: Point,
        background: Color,
        viewport: Rectangle,
        target: &mut Logged<T>,
        theme: &Theme,
    ) -> (r: Result<(), T::Error>)
        requires
            self.wf(),
            chain_drawable(self.spec_nodes(), parent as int, x as int, origin),
            viewport.corners_fit(),
        ensures
            extends(final(target).events(), old(target).events()),
            r is Err ==> final(target).last_error() == Some(r->Err_0),
            chain_adaptive_run(
                self.spec_nodes(),
                self.spec_text(),
                *theme,
                viewport,
                parent as int,
                x as int,
                origin,
                background,
                final(target).events(),
                old(target).events().len() as int,
            ) == Some((final(target).events().len() as int, r is Ok)),
        decreases parent, parent - x,
    {
        let ghost log0 = target.events();
        let drawn = self.draw_adaptive(x, origin, background, viewport, target, theme);
        if let Err(e) = drawn {
            return Err(e);
        }
        let ghost log1 = target.events();
        match self.node(x).sibling {
            None => Ok(()),
            Some(next) => {
                let r = self.draw_adaptive_children(parent, next, origin, background, viewport, target, theme);
                proof {
                    lemma_adaptive_extend(
                        self.spec_nodes(),
                        self.spec_text(),
                        *theme,
                        viewport,
                        x as int,
                        origin,
                        background,
                        log1,
                        target.events(),
                        log0.len() as int,
                    );
                    lemma_extends_trans(log0, log1, target.events());
                }
                r
            },
        }
    }
}

/// Whether `a + b` is representable in `i32`.
fn fits_sum(a: i32, b: i32) -> (r: bool)
    ensures
        r == (i32::MIN <= a + b <= i32::MAX),
{
    a.checked_add(b).is_some()
}

/// Whether embedded-graphics can compute the bottom-right corner of `r`.
fn corners_fit(r: Rectangle) -> (b: bool)
    ensures
        b == r.corners_fit(),
{
    if r.size.width == 0 || r.size.height == 0 {
        return true;
    }
    r.size.width <= 0x7fff_ffffu32 && r.size.height <= 0x7fff_ffffu32 && fits_sum(
        r.top_left.x,
        r.size.width as i32,
    ) && fits_sum(r.top_left.y, r.size.height as i32)
}

impl<'frame> FrameTree<'frame> {
    /// Whether the frame can be drawn on a display of size `viewport`: every position of its
    /// layout, and the viewport's corner, are representable.
    pub fn drawable_at(&self, viewport: Size) -> (r: bool)
        requires
            self.wf(),
        ensures
            r == ((self.spec_root() matches Some(root) ==> drawable(
                self.spec_nodes(),
                root as int,
                Point { x: 0, y: 0 },
            )) && full_rect(viewport).corners_fit()),
    {
        if !corners_fit(Rectangle::new(Point::zero(), viewport)) {
            return false;
        }
        match self.root() {
            None => true,
            Some(root) => self.node_drawable(root, Point::zero()),
        }
    }

    /// Whether node `index` and its subtree are drawable below `origin`.
    fn node_drawable(&self, index: NodeIndex, origin: Point) -> (r: bool)
        requires
            self.wf(),
            index < self.spec_nodes().len(),
        ensures
            r == drawable(self.spec_nodes(), index as int, origin),
        decreases index + 1, 0int,
    {
        let layout = &self.node(index).layout;
        let fits = fits_sum(origin.x, layout.offset.x) && fits_sum(origin.y, layout.offset.y);
        if !fits {
            return false;
        }
        let outer = origin.add(layout.offset);
        if !(fits_sum(outer.x, layout.border_offset.x) && fits_sum(outer.y, layout.border_offset.y)
            && fits_sum(outer.x, layout.content_offset.x) && fits_sum(
            outer.y,
            layout.content_offset.y,
        )) {
            return false;
        }
        let resolved = layout.resolve(origin);
        if !corners_fit(resolved.border) {
            return false;
        }
        match self.node(index).child {
            None => true,
            Some(child) => child < index && self.chain_drawable_from(
                index,
                child,
                resolved.content.top_left,
            ),
        }
    }

    /// Whether the children of `parent` from `x` on are drawable below `origin`.
    fn chain_drawable_from(&self, parent: NodeIndex, x: NodeIndex, origin: Point) -> (r: bool)
        requires
            self.wf(),
            x < parent < self.spec_nodes().len(),
        ensures
            r == chain_drawable(self.spec_nodes(), parent as int, x as int, origin),
        decreases parent, parent - x,
    {
        if !self.node_drawable(x, origin) {
            return false;
        }
        match self.node(x).sibling {
            None => true,
            Some(next) => x < next && next < parent && self.chain_drawable_from(parent, next, origin),
        }
    }
}

} // verus!
