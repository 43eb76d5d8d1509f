use core::convert::Infallible;

use embedded_graphics::{
    Drawable as _,
    draw_target::DrawTarget as _,
    geometry::{Point as EgPoint, Size as EgSize},
    mock_display::MockDisplay,
    mono_font::MonoTextStyle,
    pixelcolor::{BinaryColor, Rgb565, RgbColor as _, raw::RawU16, raw::RawU1, IntoStorage as _},
    primitives::Rectangle as EgRectangle,
    text::{Baseline, Text},
};
use guillotine::{
    BoxLayout, Color, ColumnStyle, Command, Constraints, Context, DisplayTarget, ElementBuilder,
    Font, FrameStorage, FrameTree, Insets, Logged, NodeKind, ParentElement, Point, Rectangle, Size,
    Style, StyledElement, TextStyledElement, Theme, box_commands, render_frame,
};
use guillotine::element::{BuildError, Element, RenderError};

fn rgb(color: Rgb565) -> Color {
    Color::from_raw(color.into_storage() as u32)
}

fn from_rgb(color: Color) -> Rgb565 {
    Rgb565::from(RawU16::new(color.raw as u16))
}

fn binary(color: BinaryColor) -> Color {
    Color::from_raw(color.into_storage() as u32)
}

fn from_binary(color: Color) -> BinaryColor {
    BinaryColor::from(RawU1::new(color.raw as u8))
}

fn eg(rect: Rectangle) -> EgRectangle {
    EgRectangle::new(
        EgPoint::new(rect.top_left.x, rect.top_left.y),
        EgSize::new(rect.size.width, rect.size.height),
    )
}

/// Paints onto a mock display, never buffering.
struct MockRgb {
    display: MockDisplay<Rgb565>,
}

impl MockRgb {
    fn new() -> Self {
        let mut display = MockDisplay::new();
        display.set_allow_overdraw(true);
        MockRgb { display }
    }
}

impl DisplayTarget for MockRgb {
    type Error = Infallible;

    fn size(&self) -> Size {
        Size::new(64, 64)
    }

    fn try_begin(&mut self, _bounds: Rectangle, _background: Color) -> bool {
        false
    }

    fn flush(&mut self) -> Result<(), Infallible> {
        Ok(())
    }

    fn clear(&mut self, color: Color) -> Result<(), Infallible> {
        self.display.clear(from_rgb(color))
    }

    fn fill_solid(&mut self, area: Rectangle, color: Color) -> Result<(), Infallible> {
        self.display.fill_solid(&eg(area), from_rgb(color))
    }

    fn draw_text(&mut self, content: &str, origin: Point, font: Font, color: Color) -> Result<(), Infallible> {
        let style = MonoTextStyle::new(font.mono_font(), from_rgb(color));
        Text::with_baseline(content, EgPoint::new(origin.x, origin.y), style, Baseline::Top)
            .draw(&mut self.display)
            .map(|_| ())
    }
}

/// Paints onto a binary mock display, never buffering.
struct MockBinary {
    display: MockDisplay<BinaryColor>,
}

impl DisplayTarget for MockBinary {
    type Error = Infallible;

    fn size(&self) -> Size {
        Size::new(64, 64)
    }

    fn try_begin(&mut self, _bounds: Rectangle, _background: Color) -> bool {
        false
    }

    fn flush(&mut self) -> Result<(), Infallible> {
        Ok(())
    }

    fn clear(&mut self, color: Color) -> Result<(), Infallible> {
        self.display.clear(from_binary(color))
    }

    fn fill_solid(&mut self, area: Rectangle, color: Color) -> Result<(), Infallible> {
        self.display.fill_solid(&eg(area), from_binary(color))
    }

    fn draw_text(&mut self, _content: &str, _origin: Point, _font: Font, _color: Color) -> Result<(), Infallible> {
        Ok(())
    }
}

/// Records what is painted, accepting to buffer regions of at most `buffer` pixels, and
/// failing the operation numbered `fail_at`.
struct Recorder {
    ops: Vec<String>,
    buffer: u32,
    fail_at: Option<usize>,
    size: Size,
}

impl Recorder {
    fn new(size: Size, buffer: u32) -> Self {
        Recorder { ops: Vec::new(), buffer, fail_at: None, size }
    }

    fn log(&mut self, op: String) -> Result<(), ()> {
        self.ops.push(op);
        if self.fail_at == Some(self.ops.len() - 1) { Err(()) } else { Ok(()) }
    }
}

fn r(rect: Rectangle) -> String {
    format!("{},{} {}x{}", rect.top_left.x, rect.top_left.y, rect.size.width, rect.size.height)
}

impl DisplayTarget for Recorder {
    type Error = ();

    fn size(&self) -> Size {
        self.size
    }

    fn try_begin(&mut self, bounds: Rectangle, background: Color) -> bool {
        let ok = bounds.size.width * bounds.size.height <= self.buffer;
        self.ops.push(format!("begin {} {} {}", r(bounds), background.raw, ok));
        ok
    }

    fn flush(&mut self) -> Result<(), ()> {
        self.log("flush".to_string())
    }

    fn clear(&mut self, color: Color) -> Result<(), ()> {
        self.log(format!("clear {}", color.raw))
    }

    fn fill_solid(&mut self, area: Rectangle, color: Color) -> Result<(), ()> {
        self.log(format!("fill {} {}", r(area), color.raw))
    }

    fn draw_text(&mut self, content: &str, origin: Point, _font: Font, color: Color) -> Result<(), ()> {
        self.log(format!("text {:?} {},{} {}", content, origin.x, origin.y, color.raw))
    }
}

#[test]
fn column_draws_its_styled_border_box() {
    let column = NodeKind::Column(Style {
        border: Insets::from(1),
        border_color: Some(rgb(Rgb565::BLUE)),
        background: Some(rgb(Rgb565::RED)),
        ..Style::<ColumnStyle>::default()
    });
    let layout = BoxLayout {
        border: Rectangle::new(Point::new(1, 1), Size::new(4, 4)),
        content: Rectangle::new(Point::new(2, 2), Size::new(2, 2)),
    };
    let mut target = Logged::new(MockRgb::new());

    column.draw(&layout, &mut target).unwrap();

    let display = &target.target().display;
    assert_eq!(display.get_pixel(EgPoint::new(1, 1)), Some(Rgb565::BLUE));
    assert_eq!(display.get_pixel(EgPoint::new(2, 2)), Some(Rgb565::RED));
    assert_eq!(display.get_pixel(EgPoint::zero()), None);
}

#[test]
fn asymmetric_borders_are_painted_inside_the_border_box() {
    let column = NodeKind::Column(Style {
        border: Insets::new(1, 2, 3, 4),
        border_color: Some(rgb(Rgb565::BLUE)),
        background: Some(rgb(Rgb565::RED)),
        ..Style::<ColumnStyle>::default()
    });
    let layout = BoxLayout {
        border: Rectangle::new(Point::new(1, 1), Size::new(7, 7)),
        content: Rectangle::new(Point::new(5, 2), Size::new(1, 3)),
    };
    let mut target = Logged::new(MockRgb::new());

    column.draw(&layout, &mut target).unwrap();

    let display = &target.target().display;
    assert_eq!(display.get_pixel(EgPoint::new(5, 1)), Some(Rgb565::BLUE));
    assert_eq!(display.get_pixel(EgPoint::new(6, 3)), Some(Rgb565::BLUE));
    assert_eq!(display.get_pixel(EgPoint::new(5, 5)), Some(Rgb565::BLUE));
    assert_eq!(display.get_pixel(EgPoint::new(4, 3)), Some(Rgb565::BLUE));
    assert_eq!(display.get_pixel(EgPoint::new(5, 3)), Some(Rgb565::RED));
    assert_eq!(display.get_pixel(EgPoint::zero()), None);
    assert_eq!(display.get_pixel(EgPoint::new(8, 3)), None);
}

#[test]
fn box_painting_supports_binary_color() {
    let column = NodeKind::Column(Style {
        border: Insets::from((1, 2, 1, 2)),
        border_color: Some(binary(BinaryColor::On)),
        background: Some(binary(BinaryColor::Off)),
        ..Style::<ColumnStyle>::default()
    });
    let layout = BoxLayout {
        border: Rectangle::new(Point::zero(), Size::new(6, 4)),
        content: Rectangle::new(Point::new(2, 1), Size::new(2, 2)),
    };
    let mut display = MockDisplay::new();
    display.set_allow_overdraw(true);
    let mut target = Logged::new(MockBinary { display });

    column.draw(&layout, &mut target).unwrap();

    let display = &target.target().display;
    assert_eq!(display.get_pixel(EgPoint::zero()), Some(BinaryColor::On));
    assert_eq!(display.get_pixel(EgPoint::new(3, 2)), Some(BinaryColor::Off));
}

#[test]
fn box_commands_are_background_then_bands_top_right_bottom_left() {
    let style = Style {
        border: Insets::new(1, 2, 3, 4),
        border_color: Some(Color::from_raw(7)),
        background: Some(Color::from_raw(9)),
        ..Style::<ColumnStyle>::default()
    };
    let cmds = box_commands(&style, Rectangle::new(Point::new(1, 1), Size::new(7, 7)));
    let fills: Vec<(Rectangle, u32)> = cmds
        .iter()
        .map(|c| match c {
            Command::Fill { area, color } => (*area, color.raw),
            Command::Text { .. } => panic!("a box has no text"),
        })
        .collect();
    assert_eq!(
        fills,
        vec![
            (Rectangle::new(Point::new(1, 1), Size::new(7, 7)), 9),
            (Rectangle::new(Point::new(1, 1), Size::new(7, 1)), 7),
            (Rectangle::new(Point::new(6, 1), Size::new(2, 7)), 7),
            (Rectangle::new(Point::new(1, 5), Size::new(7, 3)), 7),
            (Rectangle::new(Point::new(1, 1), Size::new(4, 7)), 7),
        ]
    );
}

#[test]
fn border_bands_are_cut_to_a_small_box_and_empty_bands_are_skipped() {
    let style = Style {
        border: Insets::new(0, 9, 0, 9),
        border_color: Some(Color::from_raw(1)),
        ..Style::<ColumnStyle>::default()
    };
    let cmds = box_commands(&style, Rectangle::new(Point::new(0, 0), Size::new(3, 2)));
    assert_eq!(cmds.len(), 2);
    match cmds[0] {
        Command::Fill { area, .. } => assert_eq!(area, Rectangle::new(Point::new(0, 0), Size::new(3, 2))),
        _ => panic!("expected a fill"),
    }
    let unstyled = box_commands(&Style::<ColumnStyle>::default(), Rectangle::new(Point::zero(), Size::new(3, 2)));
    assert!(unstyled.is_empty());
}

fn frame<'s>(storage: &'s mut FrameStorage<8, 32>, background: bool) -> FrameTree<'s> {
    let mut cx = Context::new(storage.view());
    let mut column = cx.column().padding(1);
    if background {
        column = column.background(Color::from_raw(5));
    }
    let root = column
        .child(cx.text("hi").size(Size::new(4, 2)).text_color(Color::from_raw(3)))
        .child(cx.row().size(Size::new(2, 2)).background(Color::from_raw(4)))
        .try_build(&mut cx)
        .unwrap();
    let mut tree = FrameTree::new(cx);
    tree.resolve(root, Constraints::max(Size::new(10, 10)));
    tree
}

#[test]
fn an_empty_frame_clears_the_display() {
    let mut storage = FrameStorage::<8, 32>::default();
    let tree = FrameTree::new(Context::new(storage.view()));
    let mut target = Logged::new(Recorder::new(Size::new(10, 10), 0));
    tree.draw(&mut target, &Theme::new(Color::from_raw(1), Color::from_raw(2))).unwrap();
    assert_eq!(target.target().ops, vec!["clear 1"]);
}

#[test]
fn a_partial_root_is_composed_in_the_framebuffer_when_the_viewport_fits() {
    let mut storage = FrameStorage::<8, 32>::default();
    let tree = frame(&mut storage, true);
    assert!(tree.needs_clear(Size::new(10, 10)));
    let mut target = Logged::new(Recorder::new(Size::new(10, 10), 100));
    tree.draw(&mut target, &Theme::new(Color::from_raw(1), Color::from_raw(2))).unwrap();
    assert_eq!(
        target.target().ops,
        vec![
            "begin 0,0 10x10 1 true",
            "fill 0,0 6x6 5",
            "text \"hi\" 1,1 3",
            "fill 1,3 2x2 4",
            "flush",
        ]
    );
}

#[test]
fn without_a_framebuffer_the_display_is_cleared_and_painted_directly() {
    let mut storage = FrameStorage::<8, 32>::default();
    let tree = frame(&mut storage, false);
    let mut target = Logged::new(Recorder::new(Size::new(10, 10), 0));
    tree.draw(&mut target, &Theme::new(Color::from_raw(1), Color::from_raw(2))).unwrap();
    assert_eq!(
        target.target().ops,
        vec![
            "begin 0,0 10x10 1 false",
            "clear 1",
            "begin 0,0 6x6 1 false",
            "begin 1,1 4x2 1 false",
            "text \"hi\" 1,1 3",
            "begin 1,3 2x2 1 false",
            "fill 1,3 2x2 4",
        ]
    );
}

#[test]
fn subtrees_that_fit_are_buffered_over_their_parent_background() {
    let mut storage = FrameStorage::<8, 32>::default();
    let tree = frame(&mut storage, true);
    let mut target = Logged::new(Recorder::new(Size::new(10, 10), 8));
    tree.draw(&mut target, &Theme::new(Color::from_raw(1), Color::from_raw(2))).unwrap();
    assert_eq!(
        target.target().ops,
        vec![
            "begin 0,0 10x10 1 false",
            "clear 1",
            "begin 0,0 6x6 1 false",
            "fill 0,0 6x6 5",
            "begin 1,1 4x2 5 true",
            "text \"hi\" 1,1 3",
            "flush",
            "begin 1,3 2x2 5 true",
            "fill 1,3 2x2 4",
            "flush",
        ]
    );
}

#[test]
fn a_root_covering_the_viewport_skips_the_clear() {
    let mut storage = FrameStorage::<8, 32>::default();
    let tree = frame(&mut storage, true);
    assert!(!tree.needs_clear(Size::new(6, 6)));
    assert!(tree.needs_clear(Size::new(7, 6)));
    let mut target = Logged::new(Recorder::new(Size::new(6, 6), 0));
    tree.draw(&mut target, &Theme::new(Color::from_raw(1), Color::from_raw(2))).unwrap();
    assert_eq!(target.target().ops[0], "begin 0,0 6x6 1 false");
    assert_eq!(target.target().ops[1], "fill 0,0 6x6 5");
}

#[test]
fn drawing_stops_at_the_first_failure() {
    let mut storage = FrameStorage::<8, 32>::default();
    let tree = frame(&mut storage, true);
    let mut recorder = Recorder::new(Size::new(10, 10), 0);
    recorder.fail_at = Some(3);
    let mut target = Logged::new(recorder);
    let result = tree.draw(&mut target, &Theme::new(Color::from_raw(1), Color::from_raw(2)));
    assert_eq!(result, Err(()));
    assert_eq!(target.target().ops.len(), 4);
    assert_eq!(target.target().ops[3], "fill 0,0 6x6 5");
}

#[test]
fn a_frame_paints_onto_a_display() {
    let mut storage = FrameStorage::<8, 32>::default();
    let mut cx = Context::new(storage.view());
    let root = cx
        .column()
        .background(rgb(Rgb565::RED))
        .border(1)
        .border_color(rgb(Rgb565::BLUE))
        .child(cx.row().size(Size::new(3, 3)).background(rgb(Rgb565::GREEN)))
        .try_build(&mut cx)
        .unwrap();
    let mut tree = FrameTree::new(cx);
    let mut target = Logged::new(MockRgb::new());
    tree.resolve(root, Constraints::max(target.size()));
    assert!(tree.drawable_at(target.size()));
    tree.draw(&mut target, &Theme::new(rgb(Rgb565::BLACK), rgb(Rgb565::WHITE))).unwrap();
    let display = &target.target().display;
    assert_eq!(display.get_pixel(EgPoint::new(0, 0)), Some(Rgb565::BLUE));
    assert_eq!(display.get_pixel(EgPoint::new(1, 1)), Some(Rgb565::GREEN));
    assert_eq!(display.get_pixel(EgPoint::new(4, 4)), Some(Rgb565::BLUE));
    assert_eq!(display.get_pixel(EgPoint::new(10, 10)), Some(Rgb565::BLACK));
}

#[test]
fn text_is_drawn_in_the_theme_foreground_by_default() {
    let mut storage = FrameStorage::<8, 32>::default();
    let mut cx = Context::new(storage.view());
    let root = cx.text("A").try_build(&mut cx).unwrap();
    let mut tree = FrameTree::new(cx);
    tree.resolve(root, Constraints::max(Size::new(64, 64)));
    let mut target = Logged::new(Recorder::new(Size::new(64, 64), 0));
    tree.draw(&mut target, &Theme::new(Color::from_raw(1), Color::from_raw(2))).unwrap();
    assert!(target.target().ops.contains(&"text \"A\" 0,0 2".to_string()));
    assert_eq!(tree.node(root).layout.border_size, Size::new(10, 20));
}

#[test]
fn the_default_font_has_ten_by_twenty_cells() {
    let metrics = Font::default_font().metrics();
    assert_eq!(metrics.character_width, 10);
    assert_eq!(metrics.character_height, 20);
    assert_eq!(metrics.character_spacing, 0);
    assert_eq!(Font::default().metrics(), metrics);
    assert_eq!(guillotine::TextStyle::default().font.metrics(), metrics);
    assert_eq!(guillotine::TextBuilder::new("x").style.specific.font.metrics(), metrics);
}

fn declaration(storage: &mut FrameStorage<8, 32>) -> Element<'static> {
    let cx = Context::new(storage.view());
    cx.column()
        .padding(1)
        .background(Color::from_raw(5))
        .child(cx.text("hi").size(Size::new(4, 2)).text_color(Color::from_raw(3)))
        .child(cx.row().size(Size::new(2, 2)).background(Color::from_raw(4)))
        .into_element()
}

#[test]
fn rendering_builds_lays_out_and_paints_a_frame() {
    let mut storage = FrameStorage::<8, 32>::default();
    let element = declaration(&mut storage);
    let mut target = Logged::new(Recorder::new(Size::new(10, 10), 8));
    let theme = Theme::new(Color::from_raw(1), Color::from_raw(2));
    assert_eq!(render_frame(&mut storage, element, &mut target, &theme), Some(Ok(())));
    assert_eq!(
        target.target().ops,
        vec![
            "clear 1",
            "begin 0,0 10x10 1 false",
            "clear 1",
            "begin 0,0 6x6 1 false",
            "fill 0,0 6x6 5",
            "begin 1,1 4x2 5 true",
            "text \"hi\" 1,1 3",
            "flush",
            "begin 1,3 2x2 5 true",
            "fill 1,3 2x2 4",
            "flush",
        ]
    );
}

#[test]
fn rendering_reports_a_full_arena_before_drawing() {
    let mut scratch = FrameStorage::<8, 32>::default();
    let element = declaration(&mut scratch);
    let mut storage = FrameStorage::<2, 32>::default();
    let mut target = Logged::new(Recorder::new(Size::new(10, 10), 8));
    let theme = Theme::new(Color::from_raw(1), Color::from_raw(2));
    assert_eq!(
        render_frame(&mut storage, element, &mut target, &theme),
        Some(Err(RenderError::Build(BuildError::NodeCapacity)))
    );
    assert!(target.target().ops.is_empty());
}

#[test]
fn rendering_reports_the_display_error() {
    let mut storage = FrameStorage::<8, 32>::default();
    let element = declaration(&mut storage);
    let mut recorder = Recorder::new(Size::new(10, 10), 0);
    recorder.fail_at = Some(2);
    let mut target = Logged::new(recorder);
    let theme = Theme::new(Color::from_raw(1), Color::from_raw(2));
    assert_eq!(
        render_frame(&mut storage, element, &mut target, &theme),
        Some(Err(RenderError::Draw(())))
    );
    assert_eq!(target.target().ops, vec!["clear 1", "begin 0,0 10x10 1 false", "clear 1"]);
}

#[test]
fn rendering_stops_when_the_first_clear_fails() {
    let mut storage = FrameStorage::<8, 32>::default();
    let element = declaration(&mut storage);
    let mut recorder = Recorder::new(Size::new(10, 10), 8);
    recorder.fail_at = Some(0);
    let mut target = Logged::new(recorder);
    let theme = Theme::new(Color::from_raw(1), Color::from_raw(2));
    assert_eq!(
        render_frame(&mut storage, element, &mut target, &theme),
        Some(Err(RenderError::Draw(())))
    );
    assert_eq!(target.target().ops, vec!["clear 1"]);
}

#[test]
fn rendering_refuses_a_display_whose_corner_does_not_fit() {
    let mut storage = FrameStorage::<8, 32>::default();
    let element = declaration(&mut storage);
    let mut target = Logged::new(Recorder::new(Size::new(u32::MAX, 10), 8));
    let theme = Theme::new(Color::from_raw(1), Color::from_raw(2));
    assert_eq!(render_frame(&mut storage, element, &mut target, &theme), None);
    assert!(target.target().ops.is_empty());
}
