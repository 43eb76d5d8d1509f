use guillotine::{
    Constraints, Context, DivStyle, ElementBuilder, FlexDirection, FluentBuilder, FrameStorage,
    FrameTree, Insets, NodeIndex, NodeKind, ParentElement, Point, RowBuilder, Size,
    StyledElement, StyledFlexContainer,
};
use guillotine::{Font, TextBuilder, TextStyledElement};
use embedded_graphics::mono_font::{MonoFont, ascii::FONT_6X10};

fn dashboard<'t>(cx: &Context, text: &'t str) -> RowBuilder<'t> {
    cx.row()
        .child(cx.text(text))
        .child(cx.row().child(cx.text("Nested")))
        .when(true, |row| row.child(cx.text("Conditional")))
        .children(vec![cx.text("Copyright"), cx.text("ACME Corp")])
}

fn child_count(tree: &FrameTree<'_>, parent: NodeIndex) -> usize {
    let mut count = 0;
    let mut child = tree.node(parent).child;

    while let Some(index) = child {
        count += 1;
        child = tree.node(index).sibling;
    }

    count
}

fn nth_child(tree: &FrameTree<'_>, parent: NodeIndex, position: usize) -> Option<NodeIndex> {
    let mut child = tree.node(parent).child;

    for _ in 0..position {
        child = child.and_then(|index| tree.node(index).sibling);
    }

    child
}

fn text_content<'a>(tree: &'a FrameTree<'_>, index: NodeIndex) -> &'a str {
    match &tree.node(index).kind {
        NodeKind::Text(text) => text.content(tree.text()),
        _ => panic!("expected a text node"),
    }
}

#[test]
fn row_composes_heterogeneous_and_conditional_children() {
    let mut storage = FrameStorage::<10, 64>::default();
    let mut cx = Context::new(storage.view());

    let root = dashboard(&cx, "Hello, World!").try_build(&mut cx).unwrap();
    let tree = FrameTree::new(cx);

    assert!(matches!(tree.node(root).kind, NodeKind::Row(_)));
    assert_eq!(child_count(&tree, root), 5);

    let nested = nth_child(&tree, root, 1).unwrap();
    assert!(matches!(tree.node(nested).kind, NodeKind::Row(_)));

    let conditional = nth_child(&tree, root, 2).unwrap();
    assert_eq!(text_content(&tree, conditional), "Conditional");
}

#[test]
fn column_composes_heterogeneous_and_conditional_children() {
    let mut storage = FrameStorage::<10, 64>::default();
    let mut cx = Context::new(storage.view());

    let root = cx
        .column()
        .child(cx.text("First"))
        .child(cx.row().child(cx.text("Nested")))
        .when(true, |column| column.child(cx.text("Conditional")))
        .children(vec![cx.text("Fourth"), cx.text("Fifth")])
        .try_build(&mut cx)
        .unwrap();
    let tree = FrameTree::new(cx);

    assert!(matches!(tree.node(root).kind, NodeKind::Column(_)));
    assert_eq!(child_count(&tree, root), 5);

    let nested = nth_child(&tree, root, 1).unwrap();
    assert!(matches!(tree.node(nested).kind, NodeKind::Row(_)));

    let conditional = nth_child(&tree, root, 2).unwrap();
    assert_eq!(text_content(&tree, conditional), "Conditional");
}

#[test]
fn column_stacks_children_vertically_and_uses_the_widest_child() {
    let mut storage = FrameStorage::<8, 8>::default();
    let mut cx = Context::new(storage.view());

    let root = cx
        .column()
        .child(
            cx.row()
                .child(cx.text("a").size(Size::new(10, 5)))
                .child(cx.text("b").size(Size::new(20, 7))),
        )
        .child(cx.text("c").size(Size::new(15, 9)))
        .try_build(&mut cx)
        .unwrap();

    let mut tree = FrameTree::new(cx);
    tree.resolve(root, Constraints::exact(Size::new(100, 100)).loosen());

    assert_eq!(tree.node(root).layout.outer_size, Size::new(30, 16));

    let row = tree.node(root).child.expect("column should have a row child");
    let last_text = tree.node(row).sibling.expect("column should have a text child");
    assert_eq!(tree.node(row).layout.offset, Point::zero());
    assert_eq!(tree.node(last_text).layout.offset, Point::new(0, 7));

    let first_text = tree.node(row).child.expect("row should have a text child");
    let second_text = tree.node(first_text).sibling.expect("row should have two children");
    assert_eq!(tree.node(first_text).layout.offset, Point::zero());
    assert_eq!(tree.node(second_text).layout.offset, Point::new(10, 0));
}

#[test]
fn asymmetric_insets_drive_size_and_offsets() {
    let mut storage = FrameStorage::<1, 1>::default();
    let mut cx = Context::new(storage.view());

    let root = cx
        .text("")
        .margin(Insets::new(1, 2, 3, 4))
        .border(Insets::new(1, 2, 3, 4))
        .padding(Insets::new(5, 6, 7, 8))
        .size(Size::new(30, 25))
        .try_build(&mut cx)
        .unwrap();

    let mut tree = FrameTree::new(cx);
    tree.resolve(root, Constraints::exact(Size::new(100, 100)).loosen());
    let layout = &tree.node(root).layout;

    assert_eq!(layout.border_size, Size::new(30, 25));
    assert_eq!(layout.outer_size, Size::new(36, 29));
    assert_eq!(layout.content_size, Size::new(10, 9));
    assert_eq!(layout.border_offset, Point::new(4, 1));
    assert_eq!(layout.content_offset, Point::new(16, 7));
}

#[test]
fn adjacent_margins_add_in_rows() {
    let mut storage = FrameStorage::<3, 1>::default();
    let mut cx = Context::new(storage.view());

    let root = cx
        .row()
        .child(cx.text("").margin(Insets::new(0, 2, 0, 0)).size(Size::new(10, 10)))
        .child(cx.text("").margin(Insets::new(0, 0, 0, 3)).size(Size::new(10, 10)))
        .try_build(&mut cx)
        .unwrap();

    let mut tree = FrameTree::new(cx);
    tree.resolve(root, Constraints::exact(Size::new(100, 100)).loosen());

    let first = tree.node(root).child.expect("row should have children");
    let second = tree.node(first).sibling.expect("row should have two children");

    assert_eq!(tree.node(first).layout.outer_size, Size::new(12, 10));
    assert_eq!(tree.node(second).layout.offset, Point::new(12, 0));

    let first_box = tree.node(first).layout.resolve(Point::zero()).border;
    let second_box = tree.node(second).layout.resolve(Point::zero()).border;
    assert_eq!(first_box.top_left.x + 10, 10);
    assert_eq!(second_box.top_left.x, 15);
}

#[test]
fn explicit_size_grows_for_insets_but_hard_constraints_win() {
    let mut loose_storage = FrameStorage::<1, 1>::default();
    let mut loose_cx = Context::new(loose_storage.view());
    let loose = loose_cx
        .text("")
        .padding(4)
        .border(2)
        .size(Size::new(5, 5))
        .try_build(&mut loose_cx)
        .unwrap();
    let mut loose_tree = FrameTree::new(loose_cx);
    loose_tree.resolve(loose, Constraints::exact(Size::new(100, 100)).loosen());

    assert_eq!(loose_tree.node(loose).layout.border_size, Size::new(12, 12));
    assert_eq!(loose_tree.node(loose).layout.content_size, Size::zero());

    let mut constrained_storage = FrameStorage::<1, 1>::default();
    let mut constrained_cx = Context::new(constrained_storage.view());
    let constrained = constrained_cx
        .text("")
        .padding(4)
        .border(2)
        .size(Size::new(5, 5))
        .try_build(&mut constrained_cx)
        .unwrap();
    let mut constrained_tree = FrameTree::new(constrained_cx);
    constrained_tree.resolve(constrained, Constraints::exact(Size::new(8, 8)));

    assert_eq!(constrained_tree.node(constrained).layout.border_size, Size::new(8, 8));
    assert_eq!(constrained_tree.node(constrained).layout.content_size, Size::zero());
}

#[test]
fn div_places_children_with_its_gap() {
    let mut storage = FrameStorage::<4, 4>::default();
    let mut cx = Context::new(storage.view());

    let root = cx
        .div()
        .flex_direction(FlexDirection::Column)
        .gap(4)
        .child(cx.text("").size(Size::new(10, 5)))
        .child(cx.text("").size(Size::new(6, 3)))
        .child(cx.text("").size(Size::new(8, 2)))
        .try_build(&mut cx)
        .unwrap();

    let mut tree = FrameTree::new(cx);
    tree.resolve(root, Constraints::max(Size::new(100, 100)));

    let first = tree.node(root).child.unwrap();
    let second = tree.node(first).sibling.unwrap();
    let third = tree.node(second).sibling.unwrap();
    assert_eq!(tree.node(first).layout.offset, Point::new(0, 0));
    assert_eq!(tree.node(second).layout.offset, Point::new(0, 9));
    assert_eq!(tree.node(third).layout.offset, Point::new(0, 16));
    // Gaps go between children only: 5 + 4 + 3 + 4 + 2.
    assert_eq!(tree.node(root).layout.outer_size, Size::new(10, 18));
    assert_eq!(DivStyle::default().direction(), FlexDirection::Row);
}

#[test]
fn an_empty_container_is_as_small_as_its_constraints_allow() {
    let mut storage = FrameStorage::<1, 1>::default();
    let mut cx = Context::new(storage.view());
    let root = cx.row().padding(3).try_build(&mut cx).unwrap();
    let mut tree = FrameTree::new(cx);
    tree.resolve(root, Constraints::max(Size::new(50, 50)));
    assert_eq!(tree.node(root).layout.border_size, Size::new(6, 6));
    assert_eq!(tree.node(root).layout.content_size, Size::zero());
    assert_eq!(tree.node(root).layout.content_offset, Point::new(3, 3));
}

#[test]
fn margins_outside_the_constraints_leave_no_room_for_the_border_box() {
    let mut storage = FrameStorage::<1, 1>::default();
    let mut cx = Context::new(storage.view());
    let root = cx.text("").margin(30).size(Size::new(10, 10)).try_build(&mut cx).unwrap();
    let mut tree = FrameTree::new(cx);
    tree.resolve(root, Constraints::max(Size::new(40, 40)));
    assert_eq!(tree.node(root).layout.border_size, Size::zero());
    assert_eq!(tree.node(root).layout.outer_size, Size::new(60, 60));
}

#[test]
fn constraints_clamp_each_dimension() {
    let c = Constraints::exact(Size::new(10, 20));
    assert_eq!(c.constrain(Size::new(5, 50)), Size::new(10, 20));
    let loose = c.loosen();
    assert_eq!(loose.constrain(Size::new(5, 50)), Size::new(5, 20));
    assert_eq!(loose.min_size(), Size::zero());
    let shrunk = Constraints::exact(Size::new(10, 20)).deflate(Size::new(4, 30));
    assert_eq!(shrunk.min_size(), Size::new(6, 0));
    assert_eq!(shrunk.max_size(), Size::new(6, 0));
    let exact = Constraints::max(Size::new(30, 30)).with_exact_dimensions(Some(50), None);
    assert_eq!(exact.min_size(), Size::new(30, 0));
    assert_eq!(exact.max_size(), Size::new(30, 30));
}

#[test]
fn capacity_errors_are_reported() {
    let mut storage = FrameStorage::<1, 4>::default();
    let mut cx = Context::new(storage.view());
    let err = cx
        .row()
        .child(cx.text("a"))
        .try_build(&mut cx)
        .unwrap_err();
    assert_eq!(err, guillotine::BuildError::NodeCapacity);

    let mut storage = FrameStorage::<4, 4>::default();
    let mut cx = Context::new(storage.view());
    let err = cx.text("too long").try_build(&mut cx).unwrap_err();
    assert_eq!(err, guillotine::BuildError::TextCapacity);
    assert_eq!(err.message(), "text capacity exceeded");
    assert_eq!(guillotine::BuildError::NodeCapacity.message(), "node capacity exceeded");
}

#[test]
fn stored_text_reads_back() {
    let mut storage = FrameStorage::<4, 32>::default();
    let mut cx = Context::new(storage.view());
    let root = cx
        .column()
        .child(cx.text("héllo"))
        .child(cx.text("wörld"))
        .try_build(&mut cx)
        .unwrap();
    let tree = FrameTree::new(cx);
    let first = tree.node(root).child.unwrap();
    let second = tree.node(first).sibling.unwrap();
    assert_eq!(text_content(&tree, first), "héllo");
    assert_eq!(text_content(&tree, second), "wörld");
    assert_eq!(tree.text().len(), "héllowörld".len());
}

#[test]
fn free_column_constructor_and_with_style() {
    let column = guillotine::element::column::column();
    assert!(column.children.is_empty());
    let styled = column.with_style(guillotine::Style {
        padding: Insets::uniform(2),
        ..guillotine::Style::default()
    });
    assert_eq!(styled.style.padding, Insets::uniform(2));
    assert_eq!(guillotine::Column::new().style.padding, Insets::zero());
}

#[test]
fn texts_are_measurable_unless_absurdly_long() {
    let mut storage = FrameStorage::<2, 8>::default();
    let cx = Context::new(storage.view());
    let element = cx.row().child(cx.text("abc")).into_element();
    assert!(element.is_measurable());
}

#[test]
fn positions_beyond_i32_are_not_drawable() {
    let mut storage = FrameStorage::<2, 8>::default();
    let mut cx = Context::new(storage.view());
    let root = cx
        .column()
        .margin(Insets::new(0, 0, 0, u32::MAX))
        .child(cx.text("").margin(Insets::new(0, 0, 0, 1)))
        .try_build(&mut cx)
        .unwrap();
    let mut tree = FrameTree::new(cx);
    tree.resolve(root, Constraints::max(Size::new(10, 10)));
    assert!(!tree.drawable_at(Size::new(10, 10)));
}

#[test]
fn a_small_frame_is_drawable_but_not_on_an_oversized_display() {
    let mut storage = FrameStorage::<2, 8>::default();
    let mut cx = Context::new(storage.view());
    let root = cx.row().size(Size::new(4, 4)).try_build(&mut cx).unwrap();
    let mut tree = FrameTree::new(cx);
    tree.resolve(root, Constraints::max(Size::new(10, 10)));
    assert!(tree.drawable_at(Size::new(10, 10)));
    assert!(!tree.drawable_at(Size::new(u32::MAX, 10)));
    assert_eq!(tree.root(), Some(root));
    assert_eq!(tree.len(), 1);
}

#[test]
fn a_failed_build_keeps_what_was_stored_before_the_failure() {
    // The text fits but its node does not: the bytes stay, no node is added.
    let mut storage = FrameStorage::<1, 8>::default();
    let mut cx = Context::new(storage.view());
    let first = cx.text("abc").try_build(&mut cx).unwrap();
    assert_eq!(cx.text("de").try_build(&mut cx), Err(guillotine::BuildError::NodeCapacity));
    // The text does not fit: nothing changes.
    assert_eq!(cx.text("fghijk").try_build(&mut cx), Err(guillotine::BuildError::TextCapacity));
    let tree = FrameTree::new(cx);
    assert_eq!(tree.len(), 1);
    assert_eq!(tree.text(), b"abcde");
    assert_eq!(text_content(&tree, first), "abc");
}

#[test]
fn text_measures_its_widest_line_and_its_lines_in_between() {
    assert_eq!(TextBuilder::new("ab\ncde\r\n").measure(), Size::new(30, 40));
    assert_eq!(TextBuilder::new("\n\nab").measure(), Size::new(20, 20));
    assert_eq!(TextBuilder::new("a\n\nb").measure(), Size::new(10, 60));
}

#[test]
fn text_without_characters_measures_zero() {
    assert_eq!(TextBuilder::new("").measure(), Size::new(0, 0));
    assert_eq!(TextBuilder::new("\n\r\n").measure(), Size::new(0, 0));
}

#[test]
fn character_spacing_falls_between_characters_only() {
    let spaced: &'static MonoFont<'static> =
        Box::leak(Box::new(MonoFont { character_spacing: 2, ..FONT_6X10 }));
    let text = TextBuilder::new("abc").font(Font::mono(spaced));
    assert_eq!(text.measure(), Size::new(22, 10));
    let lines = TextBuilder::new("a\n\nbb").font(Font::mono(spaced));
    assert_eq!(lines.measure(), Size::new(14, 30));
}
