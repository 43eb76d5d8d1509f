//! Element builders: declarations of rows, columns, divs and text that build frame nodes.
//!
//! A builder is a plain declaration of a subtree. [`ElementBuilder::try_build`] stores the
//! subtree in the fixed-capacity arenas of a [`Context`]: children before their parent, in the
//! order they were declared, each child linked to the next as its sibling.
pub mod column;
pub mod div;
pub mod row;
pub mod text;

use vstd::prelude::*;
use vstd::string::StringSliceAdditionalSpecFns;

pub use column::{Column, ColumnStyle};
pub use div::{DivBuilder, DivStyle, Gap, StyledFlexContainer};
pub use row::{RowBuilder, RowStyle};
pub use text::{Font, FontMetrics, TextBuilder, TextStyle, TextStyledElement, default_metrics};

use crate::context::Context;
use crate::layout::Layout;
use crate::style::Style;
use crate::tree::{Node, NodeIndex, NodeKind, TextNode, TextRange};
use text::{measurable, mono_text_size};

verus! {

/// An error encountered while building a frame in fixed-capacity storage.
#[derive(Clone, Copy, Debug, PartialEq, Eq, Structural)]
pub enum BuildError {
    /// The frame's node arena has no remaining capacity.
    NodeCapacity,
    /// The frame's text arena has no remaining capacity.
    TextCapacity,
}

impl BuildError {
    /// The error's message.
    pub fn message(&self) -> (r: &'static str)
        ensures
            r@ == (match self {
                BuildError::NodeCapacity => "node capacity exceeded"@,
                BuildError::TextCapacity => "text capacity exceeded"@,
            }),
    {
        match self {
            BuildError::NodeCapacity => "node capacity exceeded",
            BuildError::TextCapacity => "text capacity exceeded",
        }
    }
}

/// An error encountered while building or drawing a frame.
#[derive(Clone, Copy, Debug, PartialEq, Eq)]
pub enum RenderError<E> {
    /// Building the frame exceeded one of its fixed-capacity arenas.
    Build(BuildError),
    /// The display returned an error while clearing or drawing the frame.
    Draw(E),
}

impl<E> From<BuildError> for RenderError<E> {
    fn from(e: BuildError) -> (r: RenderError<E>) {
        RenderError::Build(e)
    }
}

impl<E> vstd::std_specs::convert::FromSpecImpl<BuildError> for RenderError<E> {
    open spec fn obeys_from_spec() -> bool {
        true
    }

    open spec fn from_spec(e: BuildError) -> RenderError<E> {
        RenderError::Build(e)
    }
}

/// What kind of container a declaration builds, with its style.
#[derive(Clone, Copy)]
pub enum ContainerKind {
    Row(Style<RowStyle>),
    Column(Style<ColumnStyle>),
    Div(Style<DivStyle>),
}

impl ContainerKind {
    pub open spec fn spec_node_kind(self) -> NodeKind {
        match self {
            ContainerKind::Row(s) => NodeKind::Row(s),
            ContainerKind::Column(s) => NodeKind::Column(s),
            ContainerKind::Div(s) => NodeKind::Div(s),
        }
    }

    /// The node kind this container builds.
    pub fn node_kind(self) -> (r: NodeKind)
        ensures
            r == self.spec_node_kind(),
    {
        match self {
            ContainerKind::Row(s) => NodeKind::Row(s),
            ContainerKind::Column(s) => NodeKind::Column(s),
            ContainerKind::Div(s) => NodeKind::Div(s),
        }
    }
}

/// A container declaration: its kind and its children, in order.
pub struct Container<'t> {
    pub kind: ContainerKind,
    pub children: Vec<Element<'t>>,
}

/// A declared element: a subtree to be built into a frame.
pub enum Element<'t> {
    /// A row, column or div with its children.
    Container(Container<'t>),
    /// A text leaf.
    Text(TextBuilder<'t>),
}

/// The bytes that storing `content` appends to the text arena: its UTF-8 encoding.
pub open spec fn content_bytes(content: &str) -> Seq<u8> {
    content.spec_bytes()
}

impl<'t> Element<'t> {
    /// The number of nodes building this element appends.
    pub open spec fn node_count(self) -> nat
        decreases self,
    {
        match self {
            Element::Text(_) => 1,
            Element::Container(c) => children_node_count(c.children@) + 1,
        }
    }

    /// The bytes building this element appends to the text arena.
    pub open spec fn text_bytes(self) -> Seq<u8>
        decreases self,
    {
        match self {
            Element::Text(t) => content_bytes(t.content),
            Element::Container(c) => children_text_bytes(c.children@),
        }
    }

    /// Whether every text in this element can be measured.
    pub open spec fn measurable(self) -> bool
        decreases self,
    {
        match self {
            Element::Text(t) => measurable(t.content@, t.style.specific.font.spec_metrics()),
            Element::Container(c) => children_measurable(c.children@),
        }
    }

    /// Whether every text of this declaration can be measured without overflow (see
    /// [`measurable`](text::measurable)).
    pub fn is_measurable(&self) -> (r: bool)
        ensures
            r == self.measurable(),
        decreases self,
    {
        match self {
            Element::Text(t) => text::is_measurable(t.content, &t.style.specific.font),
            Element::Container(c) => {
                let ghost whole = *self;
                let ghost cs = c.children@;
                let mut i: usize = 0;
                while i < c.children.len()
                    invariant
                        whole == *self,
                        whole == Element::Container(*c),
                        cs == c.children@,
                        i <= cs.len(),
                        children_measurable(cs.take(i as int)),
                    decreases cs.len() - i,
                {
                    proof {
                        assert(decreases_to!(whole => whole->Container_0));
                        assert(decreases_to!(whole->Container_0 => c.children));
                        assert(decreases_to!(c.children => c.children@));
                        assert(decreases_to!(c.children@ => c.children@[i as int]));
                    }
                    if !c.children[i].is_measurable() {
                        proof {
                            if children_measurable(cs) {
                                lemma_children_measurable(cs);
                            }
                        }
                        return false;
                    }
                    proof {
                        assert(cs.take(i + 1).drop_last() =~= cs.take(i as int));
                        assert(cs.take(i + 1).last() == cs[i as int]);
                    }
                    i = i + 1;
                }
                proof {
                    assert(cs.take(i as int) =~= cs);
                }
                true
            },
        }
    }

    /// What building this element reports, given the arena lengths `nl`, `tl` and capacities
    /// `ncap`, `tcap` it starts from: `None` on success, else the capacity that ran out first.
    /// Texts are stored before their node; children are built before their parent.
    pub open spec fn outcome(self, nl: nat, tl: nat, ncap: nat, tcap: nat) -> Option<BuildError>
        decreases self,
    {
        match self {
            Element::Text(t) => if tl + content_bytes(t.content).len() > tcap {
                Some(BuildError::TextCapacity)
            } else if nl >= ncap {
                Some(BuildError::NodeCapacity)
            } else {
                None
            },
            Element::Container(c) => match children_outcome(c.children@, nl, tl, ncap, tcap) {
                Some(err) => Some(err),
                None => if nl + children_node_count(c.children@) >= ncap {
                    Some(BuildError::NodeCapacity)
                } else {
                    None
                },
            },
        }
    }

    /// The nodes building this element appends, when the first of them lands at index `nb` and
    /// its texts start at byte `tb` of the text arena. The element's own node comes last.
    pub open spec fn nodes(self, nb: nat, tb: nat) -> Seq<Node>
        decreases self,
    {
        match self {
            Element::Text(t) => seq![text_node(t, tb)],
            Element::Container(c) => children_nodes(c.children@, nb, tb) + seq![
                Node {
                    kind: c.kind.spec_node_kind(),
                    layout: Layout::spec_empty(),
                    child: if c.children@.len() > 0 {
                        Some((nb + c.children@[0].node_count() - 1) as usize)
                    } else {
                        None
                    },
                    sibling: None,
                },
            ],
        }
    }
}

impl<'t> Element<'t> {
    /// The nodes that stay appended when building this element fails, given the arena lengths
    /// `nb`, `tb` and capacities `ncap`, `tcap` it starts from: the children built before the one
    /// that failed (linked as siblings), then what that child left. A text leaf leaves no node.
    pub open spec fn failed_nodes(self, nb: nat, tb: nat, ncap: nat, tcap: nat) -> Seq<Node>
        decreases self,
    {
        match self {
            Element::Text(_) => seq![],
            Element::Container(c) => if children_outcome(c.children@, nb, tb, ncap, tcap) is Some {
                children_failed_nodes(c.children@, nb, tb, ncap, tcap)
            } else {
                children_nodes(c.children@, nb, tb)
            },
        }
    }

    /// The text bytes that stay appended when building this element fails: those of the
    /// children built before the one that failed, then what that child left. A text leaf keeps
    /// its bytes when only its node found no room.
    pub open spec fn failed_text(self, nb: nat, tb: nat, ncap: nat, tcap: nat) -> Seq<u8>
        decreases self,
    {
        match self {
            Element::Text(t) => if tb + content_bytes(t.content).len() > tcap {
                seq![]
            } else {
                content_bytes(t.content)
            },
            Element::Container(c) => if children_outcome(c.children@, nb, tb, ncap, tcap) is Some {
                children_failed_text(c.children@, nb, tb, ncap, tcap)
            } else {
                children_text_bytes(c.children@)
            },
        }
    }
}

/// The nodes that stay appended when building the children `cs` fails.
pub open spec fn children_failed_nodes<'t>(
    cs: Seq<Element<'t>>,
    nb: nat,
    tb: nat,
    ncap: nat,
    tcap: nat,
) -> Seq<Node>
    decreases cs,
{
    if cs.len() == 0 {
        seq![]
    } else if children_outcome(cs.drop_last(), nb, tb, ncap, tcap) is Some {
        children_failed_nodes(cs.drop_last(), nb, tb, ncap, tcap)
    } else {
        children_nodes(cs.drop_last(), nb, tb) + cs.last().failed_nodes(
            nb + children_node_count(cs.drop_last()),
            tb + children_text_bytes(cs.drop_last()).len(),
            ncap,
            tcap,
        )
    }
}

/// The text bytes that stay appended when building the children `cs` fails.
pub open spec fn children_failed_text<'t>(
    cs: Seq<Element<'t>>,
    nb: nat,
    tb: nat,
    ncap: nat,
    tcap: nat,
) -> Seq<u8>
    decreases cs,
{
    if cs.len() == 0 {
        seq![]
    } else if children_outcome(cs.drop_last(), nb, tb, ncap, tcap) is Some {
        children_failed_text(cs.drop_last(), nb, tb, ncap, tcap)
    } else {
        children_text_bytes(cs.drop_last()) + cs.last().failed_text(
            nb + children_node_count(cs.drop_last()),
            tb + children_text_bytes(cs.drop_last()).len(),
            ncap,
            tcap,
        )
    }
}

/// The node a text declaration builds when its bytes start at `tb`.
pub open spec fn text_node<'t>(t: TextBuilder<'t>, tb: nat) -> Node {
    Node {
        kind: NodeKind::Text(
            TextNode {
                range: TextRange {
                    offset: tb as usize,
                    len: content_bytes(t.content).len() as usize,
                },
                size: mono_text_size(t.content@, t.style.specific.font.spec_metrics()),
                style: t.style,
            },
        ),
        layout: Layout::spec_empty(),
        child: None,
        sibling: None,
    }
}

pub open spec fn children_node_count<'t>(cs: Seq<Element<'t>>) -> nat
    decreases cs,
{
    if cs.len() == 0 {
        0
    } else {
        children_node_count(cs.drop_last()) + cs.last().node_count()
    }
}

pub open spec fn children_text_bytes<'t>(cs: Seq<Element<'t>>) -> Seq<u8>
    decreases cs,
{
    if cs.len() == 0 {
        seq![]
    } else {
        children_text_bytes(cs.drop_last()) + cs.last().text_bytes()
    }
}

pub open spec fn children_measurable<'t>(cs: Seq<Element<'t>>) -> bool
    decreases cs,
{
    if cs.len() == 0 {
        true
    } else {
        children_measurable(cs.drop_last()) && cs.last().measurable()
    }
}

/// The children of a measurable declaration are measurable, one by one.
pub proof fn lemma_children_measurable<'t>(cs: Seq<Element<'t>>)
    requires
        children_measurable(cs),
    ensures
        forall|k: int| 0 <= k < cs.len() ==> #[trigger] cs[k].measurable(),
    decreases cs.len(),
{
    if cs.len() > 0 {
        lemma_children_measurable(cs.drop_last());
        assert forall|k: int| 0 <= k < cs.len() implies #[trigger] cs[k].measurable() by {
            if k < cs.len() - 1 {
                assert(cs.drop_last()[k] == cs[k]);
            }
        }
    }
}

pub open spec fn children_outcome<'t>(
    cs: Seq<Element<'t>>,
    nl: nat,
    tl: nat,
    ncap: nat,
    tcap: nat,
) -> Option<BuildError>
    decreases cs,
{
    if cs.len() == 0 {
        None
    } else {
        match children_outcome(cs.drop_last(), nl, tl, ncap, tcap) {
            Some(err) => Some(err),
            None => cs.last().outcome(
                nl + children_node_count(cs.drop_last()),
                tl + children_text_bytes(cs.drop_last()).len(),
                ncap,
                tcap,
            ),
        }
    }
}

/// The nodes building the children `cs` appends, starting at index `nb` and text byte `tb`:
/// each child's subtree in order, the root of each child linked to the root of the next.
pub open spec fn children_nodes<'t>(cs: Seq<Element<'t>>, nb: nat, tb: nat) -> Seq<Node>
    decreases cs,
{
    if cs.len() == 0 {
        seq![]
    } else {
        let pre = children_nodes(cs.drop_last(), nb, tb);
        let n0 = nb + children_node_count(cs.drop_last());
        let t0 = tb + children_text_bytes(cs.drop_last()).len();
        let linked = if cs.len() > 1 {
            pre.update(
                pre.len() - 1,
                Node { sibling: Some((n0 + cs.last().node_count() - 1) as usize), ..pre[pre.len() - 1] },
            )
        } else {
            pre
        };
        linked + cs.last().nodes(n0, t0)
    }
}

/// A builder that declares an element.
pub trait ElementBuilder<'t>: Sized {
    /// The declaration this builder holds.
    spec fn spec_element(&self) -> Element<'t>;

    /// Turns this builder into its declaration.
    fn into_element(self) -> (r: Element<'t>)
        ensures
            r == self.spec_element(),
    ;

    /// Builds the declared subtree into `cx`, returning the index of its root node.
    ///
    /// Succeeds exactly when the arenas have room for every node and text of the subtree; then
    /// the subtree's nodes are appended in post-order (children before parents, in declared
    /// order) and its texts' UTF-8 bytes are appended to the text arena.
    fn try_build(self, cx: &mut Context) -> (r: Result<NodeIndex, BuildError>)
        requires
            old(cx).wf(),
            self.spec_element().measurable(),
        ensures
            final(cx).wf(),
            final(cx).same_capacity(*old(cx)),
            r == build_result(*old(cx), self.spec_element()),
            r is Err ==> final(cx).spec_nodes() == old(cx).spec_nodes() + self.spec_element().failed_nodes(
                old(cx).spec_nodes().len(),
                old(cx).spec_text().len(),
                old(cx).spec_node_capacity(),
                old(cx).spec_text_capacity(),
            ),
            r is Err ==> final(cx).spec_text() == old(cx).spec_text() + self.spec_element().failed_text(
                old(cx).spec_nodes().len(),
                old(cx).spec_text().len(),
                old(cx).spec_node_capacity(),
                old(cx).spec_text_capacity(),
            ),
            r is Ok ==> final(cx).spec_nodes() == old(cx).spec_nodes() + self.spec_element().nodes(
                old(cx).spec_nodes().len(),
                old(cx).spec_text().len(),
            ),
            r is Ok ==> final(cx).spec_text() == old(cx).spec_text() + self.spec_element().text_bytes(),
    {
        cx.build(self.into_element())
    }
}

/// What building `e` into `cx` returns: the index of its root, or the capacity that ran out.
pub open spec fn build_result<'t>(cx: Context, e: Element<'t>) -> Result<NodeIndex, BuildError> {
    match e.outcome(
        cx.spec_nodes().len(),
        cx.spec_text().len(),
        cx.spec_node_capacity(),
        cx.spec_text_capacity(),
    ) {
        Some(err) => Err(err),
        None => Ok((cx.spec_nodes().len() + e.node_count() - 1) as usize),
    }
}

impl<'t> ElementBuilder<'t> for Element<'t> {
    open spec fn spec_element(&self) -> Element<'t> {
        *self
    }

    fn into_element(self) -> (r: Element<'t>) {
        self
    }
}

/// An element that holds a list of child declarations.
pub trait ParentElement<'t>: Sized {
    /// The children declared so far, in order.
    spec fn spec_children(&self) -> Seq<Element<'t>>;

    /// Whether `self` and `other` agree on everything but their children.
    spec fn spec_same_but_children(&self, other: &Self) -> bool;

    /// Extend this element's children with the given child elements.
    fn extend<E: ElementBuilder<'t>>(&mut self, elements: Vec<E>)
        ensures
            final(self).spec_children() == old(self).spec_children() + elements@.map_values(
                |e: E| e.spec_element(),
            ),
            final(self).spec_same_but_children(&*old(self)),
    ;

    /// Add a single child element to this element.
    fn child<E: ElementBuilder<'t>>(self, child: E) -> (r: Self)
        ensures
            r.spec_children() == self.spec_children().push(child.spec_element()),
            r.spec_same_but_children(&self),
    {
        let mut this = self;
        let mut one: Vec<E> = Vec::new();
        one.push(child);
        proof {
            assert(one@.map_values(|e: E| e.spec_element()) =~= seq![child.spec_element()]);
        }
        this.extend(one);
        this
    }

    /// Add multiple child elements to this element.
    fn children<E: ElementBuilder<'t>>(self, children: Vec<E>) -> (r: Self)
        ensures
            r.spec_children() == self.spec_children() + children@.map_values(
                |e: E| e.spec_element(),
            ),
            r.spec_same_but_children(&self),
    {
        let mut this = self;
        this.extend(children);
        this
    }
}

/// Appends the declarations of `elements` to `children`.
pub(crate) fn push_elements<'t, E: ElementBuilder<'t>>(children: &mut Vec<Element<'t>>, elements: Vec<E>)
    ensures
        final(children)@ == old(children)@ + elements@.map_values(|e: E| e.spec_element()),
{
    let ghost start = children@;
    let ghost es = elements@;
    for e in it: elements.into_iter()
        invariant
            it.seq() == es,
            children@ == start + es.take(it.index() as int).map_values(|e: E| e.spec_element()),
    {
        let ghost i = it.index() as int;
        let el = e.into_element();
        children.push(el);
        proof {
            assert(es.take(i + 1).map_values(|e: E| e.spec_element())
                =~= es.take(i).map_values(|e: E| e.spec_element()).push(es[i].spec_element()));
        }
    }
    proof {
        assert(es.take(es.len() as int) =~= es);
    }
}

/// A helper trait for building complex objects with imperative conditionals in a fluent style.
pub trait FluentBuilder: Sized {
    /// Imperatively modify self with the given closure.
    fn map<U, F: FnOnce(Self) -> U>(self, f: F) -> (r: U)
        requires
            f.requires((self,)),
        ensures
            f.ensures((self,), r),
    {
        f(self)
    }

    /// Conditionally modify self with the given closure.
    fn when<F: FnOnce(Self) -> Self>(self, condition: bool, then: F) -> (r: Self)
        requires
            condition ==> then.requires((self,)),
        ensures
            condition ==> then.ensures((self,), r),
            !condition ==> r == self,
    {
        if condition {
            then(self)
        } else {
            self
        }
    }

    /// Conditionally modify self with one closure or the other.
    fn when_else<F: FnOnce(Self) -> Self, G: FnOnce(Self) -> Self>(
        self,
        condition: bool,
        then: F,
        else_fn: G,
    ) -> (r: Self)
        requires
            condition ==> then.requires((self,)),
            !condition ==> else_fn.requires((self,)),
        ensures
            condition ==> then.ensures((self,), r),
            !condition ==> else_fn.ensures((self,), r),
    {
        if condition {
            then(self)
        } else {
            else_fn(self)
        }
    }

    /// Conditionally unwrap and modify self with the given closure, if the given option is Some.
    fn when_some<T, F: FnOnce(Self, T) -> Self>(self, option: Option<T>, then: F) -> (r: Self)
        requires
            option matches Some(v) ==> then.requires((self, v)),
        ensures
            option matches Some(v) ==> then.ensures((self, v), r),
            option is None ==> r == self,
    {
        match option {
            Some(value) => then(self, value),
            None => self,
        }
    }

    /// Conditionally modify self with the given closure, if the given option is None.
    fn when_none<T, F: FnOnce(Self) -> Self>(self, option: &Option<T>, then: F) -> (r: Self)
        requires
            option is None ==> then.requires((self,)),
        ensures
            option is None ==> then.ensures((self,), r),
            option is Some ==> r == self,
    {
        if option.is_some() {
            self
        } else {
            then(self)
        }
    }
}

} // verus!
