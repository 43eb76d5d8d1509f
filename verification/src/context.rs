//! The build context: frame storage being filled with the nodes and texts of one frame.
use vstd::prelude::*;
use vstd::seq_lib::lemma_concat_associative;
use vstd::string::StringSliceAdditionalSpecFns;

use crate::element::{
    BuildError, Element, build_result, children_failed_nodes, children_failed_text, children_measurable, lemma_children_measurable, children_node_count, children_nodes,
    children_outcome, children_text_bytes, content_bytes, text_node,
};
use crate::element::{Column, Container, DivBuilder, RowBuilder, TextBuilder};
use crate::element::text::default_metrics;
use crate::frame::{
    StorageView, view_node_capacity, view_nodes, view_text, view_text_capacity, within_capacity,
};
use crate::layout::Layout;
use crate::tree::{Node, NodeIndex, NodeKind, TextNode, TextRange, below, node_wf, tree_wf};
use vstd::utf8::{encode_utf8_valid_utf8, valid_utf8};

verus! {

/// The context a frame is declared and built in. It owns the frame's storage view while the
/// frame is being built.
pub struct Context<'frame> {
    storage: StorageView<'frame>,
    lo: Ghost<Seq<int>>,
    up: Ghost<Seq<int>>,
}

impl<'frame> Context<'frame> {
    /// The nodes built so far.
    pub closed spec fn spec_nodes(self) -> Seq<Node> {
        view_nodes(self.storage)
    }

    /// The text bytes stored so far.
    pub closed spec fn spec_text(self) -> Seq<u8> {
        view_text(self.storage)
    }

    /// Capacity of the node arena.
    pub closed spec fn spec_node_capacity(self) -> nat {
        view_node_capacity(self.storage)
    }

    /// Capacity of the text arena.
    pub closed spec fn spec_text_capacity(self) -> nat {
        view_text_capacity(self.storage)
    }

    /// First index of each node's subtree.
    pub closed spec fn spec_lo(self) -> Seq<int> {
        self.lo@
    }

    /// Parent of each node (negative for a node that is nobody's child).
    pub closed spec fn spec_up(self) -> Seq<int> {
        self.up@
    }

    /// The storage being built.
    pub closed spec fn spec_storage(self) -> StorageView<'frame> {
        self.storage
    }

    /// Whether the context's arena is a consistent forest within its capacities.
    pub open spec fn wf(self) -> bool {
        &&& tree_wf(self.spec_nodes(), self.spec_text(), self.spec_lo(), self.spec_up())
        &&& self.spec_nodes().len() <= self.spec_node_capacity() <= usize::MAX
        &&& self.spec_text().len() <= self.spec_text_capacity() <= usize::MAX
    }

    /// Whether both contexts have the same capacities.
    pub open spec fn same_capacity(self, other: Context) -> bool {
        &&& self.spec_node_capacity() == other.spec_node_capacity()
        &&& self.spec_text_capacity() == other.spec_text_capacity()
    }

    /// Creates a new [`Context`] that builds into `storage`, starting from empty arenas.
    pub fn new(storage: StorageView<'frame>) -> (r: Context<'frame>)
        requires
            within_capacity(storage),
        ensures
            r.wf(),
            r.spec_nodes().len() == 0,
            r.spec_text().len() == 0,
            r.spec_node_capacity() == view_node_capacity(storage),
            r.spec_text_capacity() == view_text_capacity(storage),
    {
        let mut storage = storage;
        storage.clear();
        Context { storage, lo: Ghost(Seq::empty()), up: Ghost(Seq::empty()) }
    }

    /// Gives the storage back.
    pub fn into_inner(self) -> (r: StorageView<'frame>)
        ensures
            r == self.spec_storage(),
    {
        self.storage
    }

    /// Gives the storage back together with its shape.
    pub(crate) fn into_parts(self) -> (r: (StorageView<'frame>, Ghost<Seq<int>>, Ghost<Seq<int>>))
        ensures
            r.0 == self.spec_storage(),
            view_nodes(r.0) == self.spec_nodes(),
            view_text(r.0) == self.spec_text(),
            view_node_capacity(r.0) == self.spec_node_capacity(),
            view_text_capacity(r.0) == self.spec_text_capacity(),
            r.1@ == self.spec_lo(),
            r.2@ == self.spec_up(),
    {
        (self.storage, self.lo, self.up)
    }

    /// Creates an empty row builder.
    pub fn row<'t>(&self) -> (r: RowBuilder<'t>)
        ensures
            r.style.has_default_box(),
            r.children@.len() == 0,
    {
        RowBuilder::new()
    }

    /// Creates an empty column builder.
    pub fn column<'t>(&self) -> (r: Column<'t>)
        ensures
            r.style.has_default_box(),
            r.children@.len() == 0,
    {
        Column::new()
    }

    /// Creates an empty div builder, with a row flex direction and no gap.
    pub fn div<'t>(&self) -> (r: DivBuilder<'t>)
        ensures
            r.style.has_default_box(),
            r.style.specific.gap == crate::geometry::Size::spec_zero(),
            r.style.specific.direction == crate::layout::FlexDirection::Row,
            r.children@.len() == 0,
    {
        DivBuilder::new()
    }

    /// Creates a text builder with the given content.
    pub fn text<'t>(&self, content: &'t str) -> (r: TextBuilder<'t>)
        ensures
            r.content == content,
            r.style.has_default_box(),
            r.style.specific.font.spec_metrics() == default_metrics(),
            r.style.specific.color.is_none(),
    {
        TextBuilder::new(content)
    }

    /// Stores `content` in the text arena, returning where it was stored.
    fn store_text(&mut self, content: &str) -> (r: Result<TextRange, BuildError>)
        requires
            old(self).wf(),
        ensures
            final(self).wf(),
            final(self).same_capacity(*old(self)),
            final(self).spec_nodes() == old(self).spec_nodes(),
            final(self).spec_lo() == old(self).spec_lo(),
            final(self).spec_up() == old(self).spec_up(),
            r is Err <==> old(self).spec_text().len() + content_bytes(content).len()
                > old(self).spec_text_capacity(),
            r is Err ==> r == Err::<TextRange, BuildError>(BuildError::TextCapacity),
            r is Err ==> final(self).spec_text() == old(self).spec_text(),
            r is Ok ==> final(self).spec_text() == old(self).spec_text() + content_bytes(content),
            r matches Ok(range) ==> range.offset == old(self).spec_text().len() && range.len
                == content_bytes(content).len(),
    {
        let offset = self.storage.text_len();
        let capacity = self.storage.text_capacity();
        let bytes = content.as_bytes();
        let len = bytes.len();
        let end = match offset.checked_add(len) {
            Some(end) => end,
            None => {
                return Err(BuildError::TextCapacity);
            },
        };
        if end > capacity {
            return Err(BuildError::TextCapacity);
        }
        if !self.storage.push_text(bytes) {
            return Err(BuildError::TextCapacity);
        }
        proof {
            let old_text = view_text(old(self).storage);
            let new_text = view_text(self.storage);
            assert forall|p: int| 0 <= p < self.spec_nodes().len() implies #[trigger] node_wf(
                self.spec_nodes(),
                new_text,
                self.spec_lo(),
                self.spec_up(),
                p,
            ) by {
                assert(node_wf(self.spec_nodes(), old_text, self.spec_lo(), self.spec_up(), p));
                if let NodeKind::Text(t) = self.spec_nodes()[p].kind {
                    assert(new_text.subrange(t.range.offset as int, t.range.offset + t.range.len)
                        =~= old_text.subrange(t.range.offset as int, t.range.offset + t.range.len));
                }
            }
        }
        Ok(TextRange { offset, len })
    }

    /// Builds a text leaf.
    fn build_text<'t>(&mut self, t: TextBuilder<'t>) -> (r: Result<NodeIndex, BuildError>)
        requires
            old(self).wf(),
            Element::Text(t).measurable(),
        ensures
            final(self).wf(),
            final(self).same_capacity(*old(self)),
            r == build_result(*old(self), Element::Text(t)),
            r is Err ==> final(self).spec_nodes() == old(self).spec_nodes() + Element::Text(t).failed_nodes(
                old(self).spec_nodes().len(),
                old(self).spec_text().len(),
                old(self).spec_node_capacity(),
                old(self).spec_text_capacity(),
            ),
            r is Err ==> final(self).spec_text() == old(self).spec_text() + Element::Text(t).failed_text(
                old(self).spec_nodes().len(),
                old(self).spec_text().len(),
                old(self).spec_node_capacity(),
                old(self).spec_text_capacity(),
            ),
            r is Ok ==> final(self).spec_nodes() == old(self).spec_nodes() + Element::Text(t).nodes(
                old(self).spec_nodes().len(),
                old(self).spec_text().len(),
            ),
            r is Ok ==> final(self).spec_text() == old(self).spec_text() + Element::Text(t).text_bytes(),
            r matches Ok(i) ==> final(self).spec_lo()[i as int] == old(self).spec_nodes().len()
                && final(self).spec_up()[i as int] == -1,
            r matches Ok(i) ==> forall|j: int| old(self).spec_nodes().len() <= j < i ==> final(self).spec_up()[j] >= 0,
            forall|i: int| 0 <= i < old(self).spec_nodes().len() ==> final(self).spec_lo()[i] == old(self).spec_lo()[i]
                && final(self).spec_up()[i] == old(self).spec_up()[i],
            final(self).spec_lo().len() == final(self).spec_nodes().len(),
            old(self).spec_nodes().len() <= final(self).spec_nodes().len(),
            forall|i: int| 0 <= i < old(self).spec_nodes().len() ==> final(self).spec_nodes()[i] == old(self).spec_nodes()[i],
    {
        let ghost nl = self.spec_nodes().len();
        let ghost tl = self.spec_text().len();
        let range = match self.store_text(t.content) {
            Ok(range) => range,
            Err(e) => {
                return Err(e);
            },
        };
        let ghost mid_nodes = self.spec_nodes();
        let ghost mid_lo = self.spec_lo();
        let ghost mid_up = self.spec_up();
        let size = t.measure();
        let node = Node {
            kind: NodeKind::Text(TextNode { range, size, style: t.style }),
            layout: Layout::empty(),
            child: None,
            sibling: None,
        };
        let index = self.storage.node_count();
        if !self.storage.push_node(node) {
            return Err(BuildError::NodeCapacity);
        }
        self.lo = Ghost(self.lo@.push(index as int));
        self.up = Ghost(self.up@.push(-1));
        proof {
            let nodes = self.spec_nodes();
            let text = self.spec_text();
            assert(text.subrange(range.offset as int, range.offset + range.len) =~= content_bytes(t.content));
            encode_utf8_valid_utf8(t.content@);
            assert forall|p: int| 0 <= p < nodes.len() implies #[trigger] node_wf(
                nodes,
                text,
                self.spec_lo(),
                self.spec_up(),
                p,
            ) by {
                if p < index {
                    assert(node_wf(mid_nodes, text, mid_lo, mid_up, p));
                }
            }
            assert(nodes =~= view_nodes(old(self).storage) + seq![text_node(t, tl)]);
            assert forall|p: int, q: int|
                0 <= p < nodes.len() && #[trigger] below(self.spec_lo(), p, q) implies q
                < self.spec_up()[q] <= p by {
                if p < index {
                    assert(node_wf(mid_nodes, text, mid_lo, mid_up, p));
                    assert(below(mid_lo, p, q));
                }
            }
        }
        Ok(index)
    }

    /// Builds a declared element, returning the index of its root node.
    pub(crate) fn build<'t>(&mut self, e: Element<'t>) -> (r: Result<NodeIndex, BuildError>)
        requires
            old(self).wf(),
            e.measurable(),
        ensures
            final(self).wf(),
            final(self).same_capacity(*old(self)),
            r == build_result(*old(self), e),
            r is Err ==> final(self).spec_nodes() == old(self).spec_nodes() + e.failed_nodes(
                old(self).spec_nodes().len(),
                old(self).spec_text().len(),
                old(self).spec_node_capacity(),
                old(self).spec_text_capacity(),
            ),
            r is Err ==> final(self).spec_text() == old(self).spec_text() + e.failed_text(
                old(self).spec_nodes().len(),
                old(self).spec_text().len(),
                old(self).spec_node_capacity(),
                old(self).spec_text_capacity(),
            ),
            r is Ok ==> final(self).spec_nodes() == old(self).spec_nodes() + e.nodes(
                old(self).spec_nodes().len(),
                old(self).spec_text().len(),
            ),
            r is Ok ==> final(self).spec_text() == old(self).spec_text() + e.text_bytes(),
            r matches Ok(i) ==> final(self).spec_lo()[i as int] == old(self).spec_nodes().len()
                && final(self).spec_up()[i as int] == -1,
            r matches Ok(i) ==> forall|j: int| old(self).spec_nodes().len() <= j < i ==> final(self).spec_up()[j] >= 0,
            forall|i: int| 0 <= i < old(self).spec_nodes().len() ==> final(self).spec_lo()[i] == old(self).spec_lo()[i]
                && final(self).spec_up()[i] == old(self).spec_up()[i],
            final(self).spec_lo().len() == final(self).spec_nodes().len(),
            old(self).spec_nodes().len() <= final(self).spec_nodes().len(),
            forall|i: int| 0 <= i < old(self).spec_nodes().len() ==> final(self).spec_nodes()[i] == old(self).spec_nodes()[i],
        decreases e, 1nat,
    {
        let ghost whole = e;
        match e {
            Element::Text(t) => self.build_text(t),
            Element::Container(c) => {
                proof {
                    assert(decreases_to!(whole => whole->Container_0));
                }
                self.build_container(c)
            },
        }
    }

    /// Builds a container: its children in order, linked as siblings, then the container.
    fn build_container<'t>(&mut self, c: Container<'t>) -> (r: Result<NodeIndex, BuildError>)
        requires
            old(self).wf(),
            Element::Container(c).measurable(),
        ensures
            final(self).wf(),
            final(self).same_capacity(*old(self)),
            r == build_result(*old(self), Element::Container(c)),
            r is Err ==> final(self).spec_nodes() == old(self).spec_nodes() + Element::Container(c).failed_nodes(
                old(self).spec_nodes().len(),
                old(self).spec_text().len(),
                old(self).spec_node_capacity(),
                old(self).spec_text_capacity(),
            ),
            r is Err ==> final(self).spec_text() == old(self).spec_text() + Element::Container(c).failed_text(
                old(self).spec_nodes().len(),
                old(self).spec_text().len(),
                old(self).spec_node_capacity(),
                old(self).spec_text_capacity(),
            ),
            r is Ok ==> final(self).spec_nodes() == old(self).spec_nodes() + Element::Container(c).nodes(
                old(self).spec_nodes().len(),
                old(self).spec_text().len(),
            ),
            r is Ok ==> final(self).spec_text() == old(self).spec_text() + Element::Container(c).text_bytes(),
            r matches Ok(i) ==> final(self).spec_lo()[i as int] == old(self).spec_nodes().len()
                && final(self).spec_up()[i as int] == -1,
            r matches Ok(i) ==> forall|j: int| old(self).spec_nodes().len() <= j < i ==> final(self).spec_up()[j] >= 0,
            forall|i: int| 0 <= i < old(self).spec_nodes().len() ==> final(self).spec_lo()[i] == old(self).spec_lo()[i]
                && final(self).spec_up()[i] == old(self).spec_up()[i],
            final(self).spec_lo().len() == final(self).spec_nodes().len(),
            old(self).spec_nodes().len() <= final(self).spec_nodes().len(),
            forall|i: int| 0 <= i < old(self).spec_nodes().len() ==> final(self).spec_nodes()[i] == old(self).spec_nodes()[i],
        decreases c, 0nat,
    {
        let ghost cc = c;
        let ghost cs = c.children@;
        let ghost nb = self.spec_nodes().len();
        let ghost tb = self.spec_text().len();
        let ghost ncap = self.spec_node_capacity();
        let ghost tcap = self.spec_text_capacity();
        let ghost old_nodes = self.spec_nodes();
        let ghost old_text = self.spec_text();
        let ghost old_lo = self.spec_lo();
        let ghost old_up = self.spec_up();
        let kind = c.kind.node_kind();
        let start = self.storage.node_count();
        let mut first: Option<NodeIndex> = None;
        let mut last: Option<NodeIndex> = None;
        let ghost mut roots: Seq<int> = seq![];
        proof {
            lemma_children_measurable(cs);
            assert(cs.take(0) =~= Seq::<Element<'t>>::empty());
            assert(self.spec_nodes() =~= old_nodes + children_nodes(cs.take(0), nb, tb));
            assert(self.spec_text() =~= old_text + children_text_bytes(cs.take(0)));
            assert forall|q: int| 0 <= q < nb implies ((#[trigger] self.spec_nodes()[q]).sibling matches Some(
                s,
            ) ==> s < nb) by {
                assert(node_wf(old_nodes, old_text, old_lo, old_up, q));
            }
        }
        for child in it: c.children.into_iter()
            invariant
                it.seq() == cs,
                cc.children@ == cs,
                forall|k: int| 0 <= k < cs.len() ==> #[trigger] cs[k].measurable(),
                start == nb,
                old_nodes.len() == nb,
                old_text.len() == tb,
                old_nodes == old(self).spec_nodes(),
                old_lo == old(self).spec_lo(),
                old_up == old(self).spec_up(),
                old_text == old(self).spec_text(),
                ncap == old(self).spec_node_capacity(),
                tcap == old(self).spec_text_capacity(),
                self.wf(),
                self.spec_node_capacity() == ncap,
                self.spec_text_capacity() == tcap,
                children_outcome(cs.take(it.index() as int), nb, tb, ncap, tcap) is None,
                self.spec_nodes() == old_nodes + children_nodes(cs.take(it.index() as int), nb, tb),
                self.spec_text() == old_text + children_text_bytes(cs.take(it.index() as int)),
                self.spec_nodes().len() == nb + children_node_count(cs.take(it.index() as int)),
                roots.len() == it.index(),
                forall|j: int| 0 <= j < roots.len() ==> #[trigger] roots[j] == nb
                    + children_node_count(cs.take(j + 1)) - 1,
                forall|j: int| 0 <= j < roots.len() ==> self.spec_up()[#[trigger] roots[j]] == -1,
                forall|j: int| 0 <= j < roots.len() ==> nb <= #[trigger] roots[j] < self.spec_nodes().len(),
                forall|j: int| 0 <= j < roots.len() ==> self.spec_lo()[#[trigger] roots[j]] == nb
                    + children_node_count(cs.take(j)),
                forall|i: int| nb <= i < self.spec_nodes().len() ==> (self.spec_up()[i] < 0 <==> roots.contains(i)),
                forall|i: int| 0 <= i < nb ==> self.spec_lo()[i] == old_lo[i] && self.spec_up()[i] == old_up[i],
                forall|i: int| 0 <= i < nb ==> self.spec_nodes()[i] == old_nodes[i],
                forall|q: int| 0 <= q < nb ==> ((#[trigger] self.spec_nodes()[q]).sibling matches Some(s) ==> s < nb),
                it.index() == 0 ==> first is None && last is None,
                it.index() > 0 ==> first == Some(roots[0] as usize) && last == Some(roots[roots.len() - 1] as usize),
                it.index() > 0 ==> roots[roots.len() - 1] == self.spec_nodes().len() - 1,
        {
            let ghost k = it.index() as int;
            proof {
                assert(0 <= k < cs.len());
                assert(decreases_to!(cc => cc.children));
                assert(decreases_to!(cc.children => cc.children@));
                assert(decreases_to!(cc.children@ => cc.children@[k]));
                assert(decreases_to!(cc => child));
                lemma_take_last(cs, k);
            }
            assert(child == cs[k]);
            let ghost before = self.spec_nodes();
            let ghost before_text = self.spec_text();
            let ghost before_up = self.spec_up();
            let index = match self.build(child) {
                Ok(index) => index,
                Err(err) => {
                    proof {
                        assert(before.len() == nb + children_node_count(cs.take(k)));
                        assert(before_text.len() == tb + children_text_bytes(cs.take(k)).len());
                        assert(children_outcome(cs.take(k + 1), nb, tb, ncap, tcap) == cs[k].outcome(
                            nb + children_node_count(cs.take(k)),
                            tb + children_text_bytes(cs.take(k)).len(),
                            ncap,
                            tcap,
                        ));
                        lemma_outcome_prefix(cs, k + 1, nb, tb, ncap, tcap);
                        lemma_failed_prefix(cs, k + 1, nb, tb, ncap, tcap);
                        let fn_child = cs[k].failed_nodes(before.len(), before_text.len(), ncap, tcap);
                        let ft_child = cs[k].failed_text(before.len(), before_text.len(), ncap, tcap);
                        assert(children_failed_nodes(cs.take(k + 1), nb, tb, ncap, tcap)
                            == children_nodes(cs.take(k), nb, tb) + fn_child);
                        assert(children_failed_text(cs.take(k + 1), nb, tb, ncap, tcap)
                            == children_text_bytes(cs.take(k)) + ft_child);
                        lemma_concat_associative(old_nodes, children_nodes(cs.take(k), nb, tb), fn_child);
                        lemma_concat_associative(old_text, children_text_bytes(cs.take(k)), ft_child);
                    }
                    return Err(err);
                },
            };
            let ghost built = self.spec_nodes();
            proof {
                lemma_node_lengths(child, before.len(), before_text.len());
                assert(self.spec_nodes().len() == before.len() + child.node_count());
                assert(index == before.len() + child.node_count() - 1);
            }
            proof {
                if k > 0 {
                    assert(roots.len() == k);
                    assert(last == Some(roots[k - 1] as usize));
                    assert(nb <= roots[k - 1] < before.len());
                }
            }
            if let Some(prev) = last {
                assert(prev as int == roots[k - 1]);
                self.storage.set_sibling(prev, index);
                proof {
                    let nodes = self.spec_nodes();
                    let text = self.spec_text();
                    assert forall|q: int| 0 <= q < nodes.len() implies #[trigger] node_wf(
                        nodes,
                        text,
                        self.spec_lo(),
                        self.spec_up(),
                        q,
                    ) by {
                        assert(node_wf(built, text, self.spec_lo(), self.spec_up(), q));
                        if q == prev as int {
                            assert(roots[k - 1] == prev as int);
                            assert(before_up[prev as int] == -1);
                            assert(self.spec_up()[prev as int] == -1);
                            assert(self.spec_lo()[index as int] == before.len());
                        }
                    }
                    let pre = children_nodes(cs.take(k), nb, tb);
                    assert(nodes =~= old_nodes + children_nodes(cs.take(k + 1), nb, tb));
                }
            } else {
                proof {
                    assert(self.spec_nodes() =~= old_nodes + children_nodes(cs.take(k + 1), nb, tb));
                }
            }
            if first.is_none() {
                first = Some(index);
            }
            last = Some(index);
            proof {
                let old_roots = roots;
                roots = roots.push(index as int);
                assert(self.spec_text() =~= old_text + children_text_bytes(cs.take(k + 1)));
                assert forall|i: int| nb <= i < self.spec_nodes().len() implies (self.spec_up()[i] < 0
                    <==> roots.contains(i)) by {
                    if i < before.len() {
                        assert(self.spec_up()[i] == before_up[i]);
                        assert(before_up[i] < 0 <==> old_roots.contains(i));
                        if old_roots.contains(i) {
                            let j = choose|j: int| 0 <= j < old_roots.len() && old_roots[j] == i;
                            assert(roots[j] == i);
                        }
                        if roots.contains(i) {
                            let j = choose|j: int| 0 <= j < roots.len() && roots[j] == i;
                            if j < old_roots.len() {
                                assert(old_roots[j] == i);
                            }
                        }
                    } else if i < index {
                        assert(self.spec_up()[i] >= 0);
                        if roots.contains(i) {
                            let j = choose|j: int| 0 <= j < roots.len() && roots[j] == i;
                            if j < old_roots.len() {
                                assert(old_roots[j] < before.len());
                            }
                        }
                    } else {
                        assert(i == index as int);
                        assert(roots[roots.len() - 1] == i);
                        assert(self.spec_up()[i] == -1);
                    }
                }
            }
        }
        proof {
            assert(cs.take(cs.len() as int) =~= cs);
            lemma_children_lengths(cs, nb, tb);
        }
        let node = Node { kind, layout: Layout::empty(), child: first, sibling: None };
        let index = self.storage.node_count();
        let ghost pre_nodes = self.spec_nodes();
        let ghost pre_lo = self.spec_lo();
        let ghost pre_up = self.spec_up();
        if !self.storage.push_node(node) {
            return Err(BuildError::NodeCapacity);
        }
        self.lo = Ghost(pre_lo.push(nb as int));
        self.up = Ghost(
            Seq::new((pre_up.len() + 1) as nat, |i: int| if i == pre_up.len() {
                -1
            } else if roots.contains(i) {
                index as int
            } else {
                pre_up[i]
            }),
        );
        proof {
            let nodes = self.spec_nodes();
            let text = self.spec_text();
            let lo = self.spec_lo();
            let up = self.spec_up();
            let p = index as int;
            assert forall|i: int| roots.contains(i) implies nb <= i < p && pre_up[i] == -1 by {
                let j = choose|j: int| 0 <= j < roots.len() && roots[j] == i;
                assert(nb <= roots[j] < p);
                assert(pre_up[roots[j]] == -1);
            }
            assert forall|i: int| nb <= i < p && pre_up[i] < 0 implies roots.contains(i) by {
            }
            assert forall|pp: int, q: int|
                0 <= pp < nodes.len() && #[trigger] below(lo, pp, q) implies q < up[q] <= pp by {
                if pp < p {
                    assert(node_wf(pre_nodes, text, pre_lo, pre_up, pp));
                    assert(below(pre_lo, pp, q));
                    assert(q < pre_up[q] <= pp);
                    if roots.contains(q) {
                        assert(pre_up[q] == -1);
                    }
                } else {
                    assert(node_wf(pre_nodes, text, pre_lo, pre_up, q));
                    if !roots.contains(q) {
                        assert(pre_up[q] >= 0);
                    }
                }
            }
            assert forall|q: int| 0 <= q < p implies #[trigger] node_wf(nodes, text, lo, up, q) by {
                assert(node_wf(pre_nodes, text, pre_lo, pre_up, q));
                assert(nodes[q] == pre_nodes[q]);
                assert(lo[q] == pre_lo[q]);
                if let Some(c) = nodes[q].child {
                    assert(pre_up[c as int] == q);
                    assert(!roots.contains(c as int));
                    assert(up[c as int] == q);
                }
                if let Some(s) = nodes[q].sibling {
                    if roots.contains(q) {
                        assert(pre_up[s as int] == -1);
                        assert(roots.contains(s as int));
                        assert(up[s as int] == p);
                    } else if q >= nb {
                        assert(pre_up[q] >= 0);
                        assert(!roots.contains(s as int));
                    } else {
                        assert(s < nb);
                        assert(!roots.contains(s as int));
                    }
                }
            }
            if roots.len() > 0 {
                lemma_take_last(cs, 0);
                assert(cs.take(0) =~= Seq::<Element<'t>>::empty());
                assert(roots.contains(roots[0]));
                assert(lo[roots[0]] == nb);
            }
            assert(node_wf(nodes, text, lo, up, p));
            assert forall|q: int| 0 <= q < nodes.len() implies #[trigger] node_wf(nodes, text, lo, up, q) by {
                if q < p {
                } else {
                    assert(q == p);
                }
            }
            assert(nodes =~= old_nodes + Element::Container(cc).nodes(nb, tb));
            assert forall|j: int| nb <= j < p implies up[j] >= 0 by {
                if !roots.contains(j) {
                    assert(!(pre_up[j] < 0));
                }
            }
            assert forall|i: int| 0 <= i < nb implies lo[i] == old_lo[i] && up[i] == old_up[i] by {
                assert(!roots.contains(i));
            }
        }
        Ok(index)
    }
}

/// The prefix of length `k + 1` is the prefix of length `k` followed by element `k`.
proof fn lemma_take_last<'t>(cs: Seq<Element<'t>>, k: int)
    requires
        0 <= k < cs.len(),
    ensures
        cs.take(k + 1).drop_last() == cs.take(k),
        cs.take(k + 1).last() == cs[k],
        cs.take(k + 1).len() == k + 1,
{
    assert(cs.take(k + 1).drop_last() =~= cs.take(k));
}

/// Once building a prefix of the children fails, building all of them fails the same way.
proof fn lemma_outcome_prefix<'t>(cs: Seq<Element<'t>>, k: int, nl: nat, tl: nat, ncap: nat, tcap: nat)
    requires
        0 <= k <= cs.len(),
        children_outcome(cs.take(k), nl, tl, ncap, tcap) is Some,
    ensures
        children_outcome(cs, nl, tl, ncap, tcap) == children_outcome(cs.take(k), nl, tl, ncap, tcap),
    decreases cs.len() - k,
{
    if k == cs.len() {
        assert(cs.take(k) =~= cs);
    } else {
        lemma_take_last(cs, k);
        lemma_outcome_prefix(cs, k + 1, nl, tl, ncap, tcap);
    }
}

/// Once building a prefix of the children fails, what stays appended is what that prefix left.
proof fn lemma_failed_prefix<'t>(cs: Seq<Element<'t>>, k: int, nl: nat, tl: nat, ncap: nat, tcap: nat)
    requires
        0 <= k <= cs.len(),
        children_outcome(cs.take(k), nl, tl, ncap, tcap) is Some,
    ensures
        children_failed_nodes(cs, nl, tl, ncap, tcap) == children_failed_nodes(
            cs.take(k),
            nl,
            tl,
            ncap,
            tcap,
        ),
        children_failed_text(cs, nl, tl, ncap, tcap) == children_failed_text(
            cs.take(k),
            nl,
            tl,
            ncap,
            tcap,
        ),
    decreases cs.len() - k,
{
    if k == cs.len() {
        assert(cs.take(k) =~= cs);
    } else {
        lemma_take_last(cs, k);
        lemma_outcome_prefix(cs.take(k + 1), k, nl, tl, ncap, tcap);
        assert(cs.take(k + 1).take(k) =~= cs.take(k));
        lemma_failed_prefix(cs, k + 1, nl, tl, ncap, tcap);
    }
}

/// The nodes a declaration appends are as many as it counts.
pub(crate) proof fn lemma_node_lengths<'t>(e: Element<'t>, nb: nat, tb: nat)
    ensures
        e.nodes(nb, tb).len() == e.node_count(),
    decreases e, 1nat,
{
    match e {
        Element::Text(_) => {},
        Element::Container(c) => {
            assert(decreases_to!(e => e->Container_0));
            assert(decreases_to!(c => c.children));
            assert(decreases_to!(c.children => c.children@));
            lemma_children_lengths(c.children@, nb, tb);
        },
    }
}

/// The nodes a list of declarations appends are as many as they count.
proof fn lemma_children_lengths<'t>(cs: Seq<Element<'t>>, nb: nat, tb: nat)
    ensures
        children_nodes(cs, nb, tb).len() == children_node_count(cs),
    decreases cs, 0nat,
{
    if cs.len() > 0 {
        lemma_children_lengths(cs.drop_last(), nb, tb);
        lemma_node_lengths(
            cs.last(),
            nb + children_node_count(cs.drop_last()),
            tb + children_text_bytes(cs.drop_last()).len(),
        );
    }
}

} // verus!
