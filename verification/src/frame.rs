//! Fixed-capacity frame storage: the node arena and the UTF-8 text arena of one frame.
use vstd::prelude::*;

use heapless::VecView;

use crate::tree::{Node, NodeIndex};
use crate::layout::Layout;

verus! {

/// Storage backed by [`heapless::Vec`] that holds frame data for rendering: at most `N` nodes and
/// `T` bytes of UTF-8 text.
#[verifier::external_body]
pub struct FrameStorage<const N: usize, const T: usize> {
    nodes: heapless::Vec<Node, N>,
    text: heapless::Vec<u8, T>,
}

/// A capacity-erased mutable view into a [`FrameStorage`] buffer.
#[verifier::external_body]
pub struct StorageView<'frame> {
    nodes: &'frame mut VecView<Node>,
    text: &'frame mut VecView<u8>,
}

/// The nodes held in the node arena of a view, in arena order.
pub uninterp spec fn view_nodes(view: StorageView) -> Seq<Node>;

/// The bytes held in the text arena of a view.
pub uninterp spec fn view_text(view: StorageView) -> Seq<u8>;

/// The capacity the node arena of a view was made with.
pub uninterp spec fn view_node_capacity(view: StorageView) -> nat;

/// The capacity the text arena of a view was made with.
pub uninterp spec fn view_text_capacity(view: StorageView) -> nat;

/// Whether the arenas of a view hold no more than their capacities.
pub open spec fn within_capacity(view: StorageView) -> bool {
    &&& view_nodes(view).len() <= view_node_capacity(view) <= usize::MAX
    &&& view_text(view).len() <= view_text_capacity(view) <= usize::MAX
}

impl<const N: usize, const T: usize> FrameStorage<N, T> {
    /// Creates empty storage (`heapless::Vec::new` for both arenas).
    #[verifier::external_body]
    fn new() -> FrameStorage<N, T> {
        FrameStorage { nodes: heapless::Vec::new(), text: heapless::Vec::new() }
    }

    /// Returns a mutable view into this storage buffer (`heapless::Vec::as_mut_view` on both
    /// arenas). The view's capacities are `N` and `T`; what the arenas hold is not stated, since
    /// the storage itself is opaque to verification.
    #[verifier::external_body]
    pub fn view(&mut self) -> (r: StorageView<'_>)
        ensures
            view_node_capacity(r) == N,
            view_text_capacity(r) == T,
            within_capacity(r),
    {
        StorageView { nodes: self.nodes.as_mut_view(), text: self.text.as_mut_view() }
    }

    /// Clears all nodes and text from this storage buffer.
    pub fn clear(&mut self) {
        let mut view = self.view();
        view.clear();
    }
}

impl<const N: usize, const T: usize> Default for FrameStorage<N, T> {
    /// Creates empty storage.
    fn default() -> FrameStorage<N, T> {
        FrameStorage::new()
    }
}

impl<'frame> StorageView<'frame> {
    /// Number of nodes (`VecView::len`).
    #[verifier::external_body]
    pub(crate) fn node_count(&self) -> (r: usize)
        ensures
            r == view_nodes(*self).len(),
    {
        self.nodes.len()
    }

    /// Capacity of the node arena (`VecView::capacity`).
    #[verifier::external_body]
    pub(crate) fn node_capacity(&self) -> (r: usize)
        ensures
            r == view_node_capacity(*self),
    {
        self.nodes.capacity()
    }

    /// Number of text bytes (`VecView::len`).
    #[verifier::external_body]
    pub(crate) fn text_len(&self) -> (r: usize)
        ensures
            r == view_text(*self).len(),
    {
        self.text.len()
    }

    /// Capacity of the text arena (`VecView::capacity`).
    #[verifier::external_body]
    pub(crate) fn text_capacity(&self) -> (r: usize)
        ensures
            r == view_text_capacity(*self),
    {
        self.text.capacity()
    }

    /// The node at `index` (indexing of `VecView`, which dereferences to a slice).
    #[verifier::external_body]
    pub(crate) fn node(&self, index: NodeIndex) -> (r: &Node)
        requires
            index < view_nodes(*self).len(),
        ensures
            *r == view_nodes(*self)[index as int],
    {
        &self.nodes[index]
    }

    /// The text arena as a byte slice (`VecView` dereferences to a slice).
    #[verifier::external_body]
    pub(crate) fn text(&self) -> (r: &[u8])
        ensures
            r@ == view_text(*self),
    {
        &self.text
    }

    /// Appends `node` to the node arena (`VecView::push`); fails, leaving the arena as it was,
    /// when the arena is full.
    #[verifier::external_body]
    pub(crate) fn push_node(&mut self, node: Node) -> (r: bool)
        ensures
            r == (view_nodes(*old(self)).len() < view_node_capacity(*old(self))),
            r ==> view_nodes(*final(self)) == view_nodes(*old(self)).push(node),
            !r ==> view_nodes(*final(self)) == view_nodes(*old(self)),
            view_text(*final(self)) == view_text(*old(self)),
            view_node_capacity(*final(self)) == view_node_capacity(*old(self)),
            view_text_capacity(*final(self)) == view_text_capacity(*old(self)),
    {
        self.nodes.push(node).is_ok()
    }

    /// Appends `bytes` to the text arena (`VecView::extend_from_slice`); fails, leaving the
    /// arena as it was, when they don't fit. The `requires` keeps out the lengths whose sum
    /// overflows `usize` in heapless' own capacity test.
    #[verifier::external_body]
    pub(crate) fn push_text(&mut self, bytes: &[u8]) -> (r: bool)
        requires
            view_text(*old(self)).len() + bytes@.len() <= usize::MAX,
        ensures
            r == (view_text(*old(self)).len() + bytes@.len() <= view_text_capacity(*old(self))),
            r ==> view_text(*final(self)) == view_text(*old(self)) + bytes@,
            !r ==> view_text(*final(self)) == view_text(*old(self)),
            view_nodes(*final(self)) == view_nodes(*old(self)),
            view_node_capacity(*final(self)) == view_node_capacity(*old(self)),
            view_text_capacity(*final(self)) == view_text_capacity(*old(self)),
    {
        self.text.extend_from_slice(bytes).is_ok()
    }

    /// Replaces the node at `index` (`IndexMut` of `VecView`).
    #[verifier::external_body]
    pub(crate) fn set_node(&mut self, index: NodeIndex, node: Node)
        requires
            index < view_nodes(*old(self)).len(),
        ensures
            view_nodes(*final(self)) == view_nodes(*old(self)).update(index as int, node),
            view_text(*final(self)) == view_text(*old(self)),
            view_node_capacity(*final(self)) == view_node_capacity(*old(self)),
            view_text_capacity(*final(self)) == view_text_capacity(*old(self)),
    {
        self.nodes[index] = node;
    }

    /// Removes all nodes and text (`VecView::clear` on both arenas).
    #[verifier::external_body]
    pub(crate) fn clear(&mut self)
        ensures
            view_nodes(*final(self)).len() == 0,
            view_text(*final(self)).len() == 0,
            view_node_capacity(*final(self)) == view_node_capacity(*old(self)),
            view_text_capacity(*final(self)) == view_text_capacity(*old(self)),
    {
        self.nodes.clear();
        self.text.clear();
    }

    /// Sets the layout of the node at `index`, leaving everything else as it was.
    pub(crate) fn set_layout(&mut self, index: NodeIndex, layout: Layout)
        requires
            index < view_nodes(*old(self)).len(),
        ensures
            view_nodes(*final(self)) == view_nodes(*old(self)).update(
                index as int,
                (Node { layout, ..view_nodes(*old(self))[index as int] }),
            ),
            view_text(*final(self)) == view_text(*old(self)),
            view_node_capacity(*final(self)) == view_node_capacity(*old(self)),
            view_text_capacity(*final(self)) == view_text_capacity(*old(self)),
    {
        let mut node = *self.node(index);
        node.layout = layout;
        self.set_node(index, node);
    }

    /// Sets the next sibling of the node at `index`, leaving everything else as it was.
    pub(crate) fn set_sibling(&mut self, index: NodeIndex, sibling: NodeIndex)
        requires
            index < view_nodes(*old(self)).len(),
        ensures
            view_nodes(*final(self)) == view_nodes(*old(self)).update(
                index as int,
                (Node { sibling: Some(sibling), ..view_nodes(*old(self))[index as int] }),
            ),
            view_text(*final(self)) == view_text(*old(self)),
            view_node_capacity(*final(self)) == view_node_capacity(*old(self)),
            view_text_capacity(*final(self)) == view_text_capacity(*old(self)),
    {
        let mut node = *self.node(index);
        node.set_sibling(sibling);
        self.set_node(index, node);
    }
}

} // verus!
