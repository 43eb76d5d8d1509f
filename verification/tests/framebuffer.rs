use embedded_graphics::{
    Pixel,
    draw_target::DrawTarget as _,
    geometry::{Point as EgPoint, Size as EgSize},
    mock_display::MockDisplay,
    pixelcolor::BinaryColor,
    primitives::Rectangle as EgRectangle,
};
use guillotine::{Color, FrameBuffer, Mode, Point, Rectangle, Size};

fn eg(rect: Rectangle) -> EgRectangle {
    EgRectangle::new(
        EgPoint::new(rect.top_left.x, rect.top_left.y),
        EgSize::new(rect.size.width, rect.size.height),
    )
}

/// Writes the region a framebuffer held out to the display.
fn flush(buffer: &mut FrameBuffer<'_, BinaryColor>, display: &mut MockDisplay<BinaryColor>) {
    if let Some((bounds, len)) = buffer.flush() {
        display.fill_contiguous(&eg(bounds), buffer.pixels()[..len].iter().copied()).unwrap();
    }
}

#[test]
fn buffered_mode_composes_and_flushes_a_region() {
    let mut display = MockDisplay::new();
    let mut pixels = [BinaryColor::Off; 4];
    let mut buffer = FrameBuffer::new(&mut pixels);
    let bounds = Rectangle::new(Point::new(2, 3), Size::new(2, 2));

    assert!(buffer.can_buffer(bounds));
    assert!(!buffer.can_buffer(Rectangle::new(Point::zero(), Size::new(3, 2))));

    buffer.try_begin(bounds, BinaryColor::Off);
    buffer.fill_solid(Rectangle::new(Point::new(1, 3), Size::new(2, 1)), BinaryColor::On);
    buffer.fill_contiguous(
        Rectangle::new(Point::new(2, 4), Size::new(2, 1)),
        &[BinaryColor::Off, BinaryColor::On],
    );
    for Pixel(point, color) in [
        Pixel(EgPoint::new(2, 4), BinaryColor::On),
        Pixel(EgPoint::new(1, 3), BinaryColor::On),
    ] {
        buffer.set_pixel(Point::new(point.x, point.y), color);
    }

    flush(&mut buffer, &mut display);
    assert_eq!(buffer.mode(), Mode::Direct);
    display.draw_iter([Pixel(EgPoint::zero(), BinaryColor::On)]).unwrap();

    assert_eq!(display.get_pixel(EgPoint::zero()), Some(BinaryColor::On));
    assert_eq!(display.get_pixel(EgPoint::new(2, 3)), Some(BinaryColor::On));
    assert_eq!(display.get_pixel(EgPoint::new(3, 3)), Some(BinaryColor::Off));
    assert_eq!(display.get_pixel(EgPoint::new(2, 4)), Some(BinaryColor::On));
    assert_eq!(display.get_pixel(EgPoint::new(3, 4)), Some(BinaryColor::On));
}

#[test]
fn a_region_too_large_for_the_buffer_is_refused() {
    let mut pixels = [Color::from_raw(0); 6];
    let mut buffer = FrameBuffer::new(&mut pixels);
    assert!(!buffer.try_begin(Rectangle::new(Point::zero(), Size::new(4, 2)), Color::from_raw(9)));
    assert_eq!(buffer.mode(), Mode::Direct);
    assert_eq!(buffer.pixels(), &[Color::from_raw(0); 6][..]);
    assert!(buffer.try_begin(Rectangle::new(Point::zero(), Size::new(3, 2)), Color::from_raw(9)));
    assert_eq!(buffer.pixels(), &[Color::from_raw(9); 6][..]);
    assert_eq!(
        buffer.flush(),
        Some((Rectangle::new(Point::zero(), Size::new(3, 2)), 6))
    );
    assert_eq!(buffer.flush(), None);
    assert_eq!(pixels, [Color::from_raw(9); 6]);
}

#[test]
fn pixels_are_stored_row_by_row_and_clipped_to_the_region() {
    let mut pixels = [Color::from_raw(0); 8];
    let mut buffer = FrameBuffer::new(&mut pixels);
    assert!(buffer.try_begin(Rectangle::new(Point::new(10, 20), Size::new(3, 2)), Color::from_raw(0)));
    buffer.set_pixel(Point::new(11, 21), Color::from_raw(5));
    buffer.set_pixel(Point::new(9, 20), Color::from_raw(6));
    buffer.set_pixel(Point::new(13, 20), Color::from_raw(6));
    buffer.set_pixel(Point::new(i32::MIN, i32::MIN), Color::from_raw(6));
    let raw: Vec<u32> = buffer.pixels().iter().map(|c| c.raw).collect();
    assert_eq!(raw, vec![0, 0, 0, 0, 5, 0, 0, 0]);
}

#[test]
fn fills_are_clipped_to_the_region() {
    let mut pixels = [Color::from_raw(0); 9];
    let mut buffer = FrameBuffer::new(&mut pixels);
    assert!(buffer.try_begin(Rectangle::new(Point::new(0, 0), Size::new(3, 3)), Color::from_raw(0)));
    buffer.fill_solid(Rectangle::new(Point::new(1, 1), Size::new(5, 5)), Color::from_raw(1));
    buffer.fill_solid(Rectangle::new(Point::new(-4, 0), Size::new(5, 1)), Color::from_raw(2));
    buffer.fill_solid(Rectangle::new(Point::new(7, 7), Size::new(1, 1)), Color::from_raw(3));
    let raw: Vec<u32> = buffer.pixels().iter().map(|c| c.raw).collect();
    assert_eq!(raw, vec![2, 0, 0, 0, 1, 1, 0, 1, 1]);
}

#[test]
fn contiguous_fills_take_colors_row_by_row_until_either_runs_out() {
    let mut pixels = [Color::from_raw(0); 4];
    let mut buffer = FrameBuffer::new(&mut pixels);
    assert!(buffer.try_begin(Rectangle::new(Point::new(0, 0), Size::new(2, 2)), Color::from_raw(0)));
    let colors: Vec<Color> = (1..=3).map(Color::from_raw).collect();
    buffer.fill_contiguous(Rectangle::new(Point::new(1, 0), Size::new(2, 2)), &colors);
    let raw: Vec<u32> = buffer.pixels().iter().map(|c| c.raw).collect();
    // (1,0) <- 1, (2,0) clipped <- 2, (1,1) <- 3.
    assert_eq!(raw, vec![0, 1, 0, 3]);
}
