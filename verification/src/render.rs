//! One frame, start to finish: build a declaration into cleared storage, lay it out for the
//! display and paint it.
use vstd::prelude::*;

use crate::context::{Context, lemma_node_lengths};
use crate::draw::{draw_run, drawable, full_rect};
use crate::element::{Element, ElementBuilder, RenderError};
use crate::frame::FrameStorage;
use crate::frame_tree::{FrameTree, laid_out, layout_frame};
use crate::geometry::{Point, Size};
use crate::layout::Constraints;
use crate::target::{DisplayTarget, Logged, TargetOp, extends};
use crate::theme::Theme;
use crate::tree::Node;

verus! {

/// Whether `nodes` is the frame that `element` builds into empty arenas, laid out from its root
/// (the last node built) under the maximum constraints of a display of size `size`.
pub open spec fn frame_of<'t>(element: Element<'t>, size: Size, nodes: Seq<Node>) -> bool {
    let built = element.nodes(0, 0);
    let root = element.node_count() - 1;
    &&& layout_frame(built, nodes, 0, root)
    &&& laid_out(nodes, root, Constraints::spec_max_only(size))
    &&& nodes[root].layout.offset == (Point { x: 0, y: 0 })
}

/// Renders `element` onto `target`: clears `storage`, builds the element into it, lays the
/// frame out for the target's size, clears the display with the theme's background and draws
/// the frame with `theme`.
///
/// A build that runs out of room is reported as [`RenderError::Build`] before anything is
/// drawn; an error of the target stops the drawing and is reported as [`RenderError::Draw`].
/// Returns `None`, with nothing drawn, when the laid-out frame has a position that does not fit
/// in `i32` on that display (see [`FrameTree::drawable_at`]).
pub fn render_frame<'t, D: DisplayTarget, const N: usize, const T: usize>(
    storage: &mut FrameStorage<N, T>,
    element: Element<'t>,
    target: &mut Logged<D>,
    theme: &Theme,
) -> (r: Option<Result<(), RenderError<D::Error>>>)
    requires
        element.measurable(),
    ensures
        extends(final(target).events(), old(target).events()),
        element.outcome(0, 0, N as nat, T as nat) matches Some(e) ==> r == Some(
            Err::<(), RenderError<D::Error>>(RenderError::Build(e)),
        ) && final(target).events() == old(target).events(),
        element.outcome(0, 0, N as nat, T as nat) is None ==> exists|nodes: Seq<Node>|
            #![trigger frame_of(element, old(target).spec_size(), nodes)]
            {
                let size = old(target).spec_size();
                let root = element.node_count() - 1;
                &&& frame_of(element, size, nodes)
                &&& if drawable(nodes, root, Point { x: 0, y: 0 }) && full_rect(size).corners_fit() {
                    let start = old(target).events().len() as int;
                    let log = final(target).events();
                    &&& r matches Some(res) && !(res matches Err(RenderError::Build(_)))
                    &&& start < log.len()
                    &&& log[start].op == (TargetOp::Clear { color: theme.background })
                    &&& if log[start].ok {
                        draw_run(
                            nodes,
                            element.text_bytes(),
                            *theme,
                            Some(root as usize),
                            size,
                            log,
                            start + 1,
                        ) == Some((log.len() as int, r == Some(Ok::<(), RenderError<D::Error>>(()))))
                    } else {
                        log.len() == start + 1 && r != Some(Ok::<(), RenderError<D::Error>>(()))
                    }
                    &&& r matches Some(Err(RenderError::Draw(e))) ==> final(target).last_error() == Some(e)
                } else {
                    &&& r is None
                    &&& final(target).events() == old(target).events()
                }
            },
{
    let mut cx = Context::new(storage.view());
    let root = match element.try_build(&mut cx) {
        Ok(root) => root,
        Err(e) => {
            return Some(Err(RenderError::Build(e)));
        },
    };
    proof {
        lemma_node_lengths(element, 0, 0);
        assert(cx.spec_nodes() =~= element.nodes(0, 0));
    }
    let size = target.size();
    let mut tree = FrameTree::new(cx);
    let ghost built = tree.spec_nodes();
    tree.resolve(root, Constraints::max(size));
    proof {
        let nodes = tree.spec_nodes();
        assert(element.node_count() >= 1);
        assert(root == element.node_count() - 1);
        assert forall|j: int| 0 <= j < built.len() && (j < 0 || j > root) implies #[trigger] nodes[j] == built[j] by {}
        assert(frame_of(element, size, nodes));
    }
    if !tree.drawable_at(size) {
        return None;
    }
    if let Err(e) = target.clear(theme.background) {
        return Some(Err(RenderError::Draw(e)));
    }
    match tree.draw(target, theme) {
        Ok(()) => Some(Ok(())),
        Err(e) => Some(Err(RenderError::Draw(e))),
    }
}

} // verus!
