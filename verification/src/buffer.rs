//! Framebuffer: composes one region of the display in memory before it is written out.
use vstd::prelude::*;

use crate::geometry::{Point, Rectangle, lemma_intersection_contains, lemma_intersection_within};
use vstd::arithmetic::div_mod::lemma_fundamental_div_mod_converse;

verus! {

/// Whether a framebuffer holds a region, and which.
#[derive(Clone, Copy, Debug, PartialEq, Eq, Structural)]
pub enum Mode {
    /// No buffer: drawing goes straight to the display.
    Direct,
    /// Drawing goes into the buffer, which holds the region `bounds`: `len` pixels, row by row.
    Buffered {
        /// The bounds of the buffered region (position and size).
        bounds: Rectangle,
        /// The number of pixels in the region.
        len: usize,
    },
}

/// Index of the pixel in column `col` of row `row` of a region `width` pixels wide.
pub open spec fn cell(width: int, row: int, col: int) -> int {
    row * width + col
}

/// Where `point` lies in the region `bounds`, as (column, row), if it lies in it.
pub open spec fn spec_offset(bounds: Rectangle, point: Point) -> Option<(int, int)> {
    let x = point.x - bounds.top_left.x;
    let y = point.y - bounds.top_left.y;
    if i32::MIN <= x <= i32::MAX && i32::MIN <= y <= i32::MAX && 0 <= x < bounds.size.width && 0
        <= y < bounds.size.height {
        Some((x, y))
    } else {
        None
    }
}

/// `pixels` with the pixel of the region `bounds` at `point` set to `color`, if the point lies
/// in the region.
pub open spec fn with_pixel<P>(pixels: Seq<P>, bounds: Rectangle, point: Point, color: P) -> Seq<P> {
    match spec_offset(bounds, point) {
        Some((col, row)) => pixels.update(cell(bounds.size.width as int, row, col), color),
        None => pixels,
    }
}

/// A pixel set in the region reads back as set, and no other pixel changes; setting a point
/// outside the region changes nothing.
pub proof fn lemma_pixel_reads_back<P>(pixels: Seq<P>, bounds: Rectangle, point: Point, color: P)
    requires
        bounds.size.width * bounds.size.height <= pixels.len(),
    ensures
        with_pixel(pixels, bounds, point, color).len() == pixels.len(),
        match spec_offset(bounds, point) {
            Some((col, row)) => {
                let w = bounds.size.width as int;
                &&& with_pixel(pixels, bounds, point, color)[cell(w, row, col)] == color
                &&& forall|r: int, c: int|
                    0 <= r < bounds.size.height && 0 <= c < w && (r, c) != (row, col) ==> #[trigger] with_pixel(
                        pixels,
                        bounds,
                        point,
                        color,
                    )[cell(w, r, c)] == pixels[cell(w, r, c)]
            },
            None => with_pixel(pixels, bounds, point, color) == pixels,
        },
{
    if let Some((col, row)) = spec_offset(bounds, point) {
        let w = bounds.size.width as int;
        lemma_cell_in_region(w, bounds.size.height as int, row, col);
        assert forall|r: int, c: int|
            0 <= r < bounds.size.height && 0 <= c < w && (r, c) != (row, col) implies #[trigger] with_pixel(
                pixels,
                bounds,
                point,
                color,
            )[cell(w, r, c)] == pixels[cell(w, r, c)] by {
            lemma_cell_in_region(w, bounds.size.height as int, r, c);
            if cell(w, r, c) == cell(w, row, col) {
                lemma_cell_injective(w, r, c, row, col);
            }
        }
    }
}

/// A framebuffer: a fixed number of pixels that can hold one region of the display at a time.
pub struct FrameBuffer<'b, P> {
    pixels: &'b mut [P],
    mode: Mode,
}

impl<'b, P: Copy> FrameBuffer<'b, P> {
    /// The pixels of the buffer.
    pub closed spec fn spec_pixels(self) -> Seq<P> {
        self.pixels@
    }

    /// The mode of the buffer.
    pub closed spec fn spec_mode(self) -> Mode {
        self.mode
    }

    /// Whether the buffered region has as many pixels as it is wide times high, and fits.
    pub open spec fn wf(self) -> bool {
        match self.spec_mode() {
            Mode::Buffered { bounds, len } => {
                &&& len == bounds.size.width * bounds.size.height
                &&& len <= self.spec_pixels().len()
            },
            Mode::Direct => true,
        }
    }

    /// Creates a framebuffer that composes in `pixels`, in direct mode.
    pub fn new(pixels: &'b mut [P]) -> (r: FrameBuffer<'b, P>)
        ensures
            r.wf(),
            r.spec_pixels() == old(pixels)@,
            r.spec_mode() == Mode::Direct,
    {
        FrameBuffer { pixels, mode: Mode::Direct }
    }

    /// The current mode.
    pub fn mode(&self) -> (r: Mode)
        ensures
            r == self.spec_mode(),
    {
        self.mode
    }

    /// The pixels of the buffer; a buffered region occupies the first `len` of them.
    pub fn pixels(&self) -> (r: &[P])
        ensures
            r@ == self.spec_pixels(),
    {
        &*self.pixels
    }

    /// Returns whether the given bounds can be buffered using the current buffer capacity.
    pub fn can_buffer(&self, bounds: Rectangle) -> (r: bool)
        ensures
            r == (bounds.size.width * bounds.size.height <= self.spec_pixels().len()),
    {
        let capacity = self.pixels.len();
        match pixel_count(bounds) {
            Some(len) => len <= capacity,
            None => false,
        }
    }

    /// Begins buffering the region `bounds`, every pixel of it set to `background`. Returns
    /// whether the region fits in the buffer; where it does not, nothing changes.
    pub fn try_begin(&mut self, bounds: Rectangle, background: P) -> (r: bool)
        requires
            old(self).wf(),
            bounds.size.width * bounds.size.height <= usize::MAX ==> old(self).spec_mode()
                is Direct,
        ensures
            final(self).wf(),
            r == (bounds.size.width * bounds.size.height <= old(self).spec_pixels().len()),
            r ==> {
                let len = bounds.size.width * bounds.size.height;
                &&& final(self).spec_mode() == (Mode::Buffered { bounds, len: len as usize })
                &&& final(self).spec_pixels().len() == old(self).spec_pixels().len()
                &&& forall|i: int| 0 <= i < len ==> #[trigger] final(self).spec_pixels()[i]
                    == background
                &&& forall|i: int| len <= i < old(self).spec_pixels().len()
                    ==> #[trigger] final(self).spec_pixels()[i] == old(self).spec_pixels()[i]
            },
            !r ==> *final(self) == *old(self),
    {
        let capacity = self.pixels.len();
        let len = match pixel_count(bounds) {
            Some(len) => len,
            None => return false,
        };
        // Check that the buffer is large enough
        if len > capacity {
            return false;
        }
        let ghost before = self.pixels@;
        let mut i: usize = 0;
        while i < len
            invariant
                len <= self.pixels@.len() == before.len(),
                0 <= i <= len,
                forall|j: int| 0 <= j < i ==> #[trigger] self.pixels@[j] == background,
                forall|j: int| i <= j < before.len() ==> #[trigger] self.pixels@[j] == before[j],
            decreases len - i,
        {
            self.pixels[i] = background;
            i = i + 1;
        }
        self.mode = Mode::Buffered { bounds, len };
        true
    }

    /// Ends buffering: returns the buffered region and its number of pixels, which are the first
    /// ones of [`pixels`](Self::pixels), for the display to be filled with; the mode is direct
    /// again.
    pub fn flush(&mut self) -> (r: Option<(Rectangle, usize)>)
        requires
            old(self).wf(),
        ensures
            final(self).wf(),
            final(self).spec_mode() == Mode::Direct,
            final(self).spec_pixels() == old(self).spec_pixels(),
            r == (match old(self).spec_mode() {
                Mode::Direct => None,
                Mode::Buffered { bounds, len } => Some((bounds, len)),
            }),
    {
        let r = match self.mode {
            Mode::Direct => None,
            Mode::Buffered { bounds, len } => Some((bounds, len)),
        };
        self.mode = Mode::Direct;
        r
    }

    /// Sets the pixel at `point` of the buffered region to `color`; a point outside the region
    /// is clipped.
    pub fn set_pixel(&mut self, point: Point, color: P)
        requires
            old(self).wf(),
            old(self).spec_mode() is Buffered,
        ensures
            final(self).wf(),
            final(self).spec_mode() == old(self).spec_mode(),
            final(self).spec_pixels() == with_pixel(
                old(self).spec_pixels(),
                old(self).spec_mode()->bounds,
                point,
                color,
            ),
    {
        let bounds = match self.mode {
            Mode::Buffered { bounds, len: _ } => bounds,
            Mode::Direct => return ,
        };
        // Translate to local coordinates
        let x = match point.x.checked_sub(bounds.top_left.x) {
            Some(x) => x,
            None => return ,
        };
        let y = match point.y.checked_sub(bounds.top_left.y) {
            Some(y) => y,
            None => return ,
        };
        // Clip negative coordinates (these are outside the bounds)
        if x < 0 || y < 0 {
            return ;
        }
        let x = x as u32;
        let y = y as u32;
        if x >= bounds.size.width || y >= bounds.size.height {
            return ;
        }
        let width = bounds.size.width as usize;
        proof {
            lemma_cell_in_region(bounds.size.width as int, bounds.size.height as int, y as int, x as int);
        }
        let index = (y as usize) * width + (x as usize);
        self.pixels[index] = color;
    }

    /// Fills the part of `area` that lies in the buffered region with `color`.
    pub fn fill_solid(&mut self, area: Rectangle, color: P)
        requires
            old(self).wf(),
            old(self).spec_mode() is Buffered,
            old(self).spec_mode()->bounds.corners_fit(),
            area.corners_fit(),
        ensures
            final(self).wf(),
            final(self).spec_mode() == old(self).spec_mode(),
            final(self).spec_pixels().len() == old(self).spec_pixels().len(),
            ({
                let bounds = old(self).spec_mode()->bounds;
                let w = bounds.size.width as int;
                forall|row: int, col: int|
                    0 <= row < bounds.size.height && 0 <= col < w ==> #[trigger] final(self).spec_pixels()[cell(w, row, col)] == if area.spec_contains(
                        region_point(bounds, row, col),
                    ) {
                        color
                    } else {
                        old(self).spec_pixels()[cell(w, row, col)]
                    }
            }),
            forall|i: int|
                old(self).spec_mode()->len <= i < old(self).spec_pixels().len() ==> #[trigger] final(self).spec_pixels()[i] == old(self).spec_pixels()[i],
    {
        let ghost before = self.pixels@;
        let (bounds, len) = match self.mode {
            Mode::Buffered { bounds, len } => (bounds, len),
            Mode::Direct => return ,
        };
        let ghost w = bounds.size.width as int;
        let inside = area.intersection(&bounds);
        proof {
            assert forall|row: int, col: int|
                0 <= row < bounds.size.height && 0 <= col < w implies #[trigger] area.spec_contains(
                    region_point(bounds, row, col),
                ) == inside.spec_contains(region_point(bounds, row, col)) by {
                lemma_intersection_contains(area, bounds, region_point(bounds, row, col));
            }
        }
        if inside.size.width == 0 || inside.size.height == 0 {
            return ;
        }
        proof {
            lemma_intersection_within(area, bounds);
        }
        let buffer_width = bounds.size.width as usize;
        let area_width = inside.size.width as usize;
        let area_height = inside.size.height as usize;
        let x = (inside.top_left.x - bounds.top_left.x) as usize;
        let y = (inside.top_left.y - bounds.top_left.y) as usize;

        let mut row: usize = 0;
        while row < area_height
            invariant
                self.wf(),
                self.mode == (Mode::Buffered { bounds, len }),
                self.pixels@.len() == before.len(),
                len == w * bounds.size.height,
                buffer_width == w,
                x + area_width <= w,
                y + area_height <= bounds.size.height,
                0 <= row <= area_height,
                forall|r: int, c: int|
                    0 <= r < bounds.size.height && 0 <= c < w ==> #[trigger] self.pixels@[cell(
                        w,
                        r,
                        c,
                    )] == if y <= r < y + row && x <= c < x + area_width {
                        color
                    } else {
                        before[cell(w, r, c)]
                    },
                forall|i: int| len <= i < before.len() ==> #[trigger] self.pixels@[i] == before[i],
            decreases area_height - row,
        {
            let mut col: usize = 0;
            while col < area_width
                invariant
                    self.wf(),
                    self.mode == (Mode::Buffered { bounds, len }),
                    self.pixels@.len() == before.len(),
                    len == w * bounds.size.height,
                    buffer_width == w,
                    x + area_width <= w,
                    y + area_height <= bounds.size.height,
                    0 <= row < area_height,
                    0 <= col <= area_width,
                    forall|r: int, c: int|
                        0 <= r < bounds.size.height && 0 <= c < w ==> #[trigger] self.pixels@[cell(
                            w,
                            r,
                            c,
                        )] == if (y <= r < y + row || (r == y + row && x <= c < x + col)) && x <= c
                            < x + area_width {
                            color
                        } else {
                            before[cell(w, r, c)]
                        },
                    forall|i: int| len <= i < before.len() ==> #[trigger] self.pixels@[i] == before[i],
                decreases area_width - col,
            {
                proof {
                    lemma_cell_in_region(w, bounds.size.height as int, (y + row) as int, (x + col) as int);
                }
                let index = (y + row) * buffer_width + x + col;
                self.pixels[index] = color;
                proof {
                    assert forall|r: int, c: int|
                        0 <= r < bounds.size.height && 0 <= c < w implies #[trigger] self.pixels@[cell(
                            w,
                            r,
                            c,
                        )] == if (y <= r < y + row || (r == y + row && x <= c < x + col + 1)) && x
                            <= c < x + area_width {
                            color
                        } else {
                            before[cell(w, r, c)]
                        } by {
                        lemma_cell_in_region(w, bounds.size.height as int, r, c);
                        if cell(w, r, c) == index {
                            lemma_cell_injective(w, r, c, (y + row) as int, (x + col) as int);
                        }
                    }
                }
                col = col + 1;
            }
            row = row + 1;
        }
    }
}

/// The pixel of the region `bounds` in column `col` of row `row`.
pub open spec fn region_point(bounds: Rectangle, row: int, col: int) -> Point {
    Point { x: (bounds.top_left.x + col) as i32, y: (bounds.top_left.y + row) as i32 }
}

/// The pixel of `area` at position `k` when its pixels are taken row by row, each row left to
/// right.
pub open spec fn area_point(area: Rectangle, k: int) -> Point {
    Point {
        x: (area.top_left.x + k % (area.size.width as int)) as i32,
        y: (area.top_left.y + k / (area.size.width as int)) as i32,
    }
}

/// The number of pixels of `area`.
pub open spec fn area_len(area: Rectangle) -> int {
    if area.is_empty() {
        0
    } else {
        area.size.width * area.size.height
    }
}

/// `pixels` after the first `n` pixels of `area`, taken row by row, are set in turn to the
/// first `n` colors, in the region `bounds`.
pub open spec fn with_pixels<P>(
    pixels: Seq<P>,
    bounds: Rectangle,
    area: Rectangle,
    colors: Seq<P>,
    n: int,
) -> Seq<P>
    decreases n,
{
    if n <= 0 {
        pixels
    } else {
        with_pixel(
            with_pixels(pixels, bounds, area, colors, n - 1),
            bounds,
            area_point(area, n - 1),
            colors[n - 1],
        )
    }
}

/// Two pixels of a region share an index only if they are the same pixel.
pub proof fn lemma_cell_injective(width: int, r1: int, c1: int, r2: int, c2: int)
    requires
        0 <= c1 < width,
        0 <= c2 < width,
        cell(width, r1, c1) == cell(width, r2, c2),
    ensures
        r1 == r2,
        c1 == c2,
{
    assert(r1 == r2) by (nonlinear_arith)
        requires
            0 <= c1 < width,
            0 <= c2 < width,
            r1 * width + c1 == r2 * width + c2,
    ;
}

impl<'b, P: Copy> FrameBuffer<'b, P> {
    /// Sets the pixels of `area`, taken row by row, each row left to right, to `colors` in turn,
    /// as far as both last; the points outside the buffered region are clipped.
    pub fn fill_contiguous(&mut self, area: Rectangle, colors: &[P])
        requires
            old(self).wf(),
            old(self).spec_mode() is Buffered,
            area.corners_fit(),
        ensures
            final(self).wf(),
            final(self).spec_mode() == old(self).spec_mode(),
            final(self).spec_pixels() == with_pixels(
                old(self).spec_pixels(),
                old(self).spec_mode()->bounds,
                area,
                colors@,
                if colors@.len() <= area_len(area) {
                    colors@.len() as int
                } else {
                    area_len(area)
                },
            ),
    {
        let ghost before = self.pixels@;
        let ghost bounds = self.mode->bounds;
        if area.size.width == 0 || area.size.height == 0 {
            return ;
        }
        let mut k: usize = 0;
        let mut row: u32 = 0;
        while row < area.size.height
            invariant
                self.wf(),
                self.mode == old(self).mode,
                self.mode is Buffered,
                bounds == self.mode->bounds,
                area.corners_fit(),
                !area.is_empty(),
                0 <= row <= area.size.height,
                k == row * area.size.width,
                k <= colors@.len(),
                before == old(self).pixels@,
                self.pixels@ == with_pixels(before, bounds, area, colors@, k as int),
            decreases area.size.height - row,
        {
            let mut col: u32 = 0;
            while col < area.size.width
                invariant
                    self.wf(),
                    self.mode == old(self).mode,
                    self.mode is Buffered,
                    bounds == self.mode->bounds,
                    area.corners_fit(),
                    !area.is_empty(),
                    0 <= row < area.size.height,
                    0 <= col <= area.size.width,
                    k == row * area.size.width + col,
                    k <= colors@.len(),
                    before == old(self).pixels@,
                    self.pixels@ == with_pixels(before, bounds, area, colors@, k as int),
                decreases area.size.width - col,
            {
                if k >= colors.len() {
                    proof {
                        assert(k <= area_len(area)) by (nonlinear_arith)
                            requires
                                k == row * area.size.width + col,
                                row < area.size.height,
                                col <= area.size.width,
                                area_len(area) == area.size.width * area.size.height,
                        ;
                        assert(k == colors@.len());
                    }
                    return ;
                }
                proof {
                    lemma_fundamental_div_mod_converse(
                        k as int,
                        area.size.width as int,
                        row as int,
                        col as int,
                    );
                }
                let point = Point::new(area.top_left.x + col as i32, area.top_left.y + row as i32);
                self.set_pixel(point, colors[k]);
                k = k + 1;
                col = col + 1;
            }
            assert(k == (row + 1) * area.size.width) by (nonlinear_arith)
                requires
                    k == row * area.size.width + area.size.width,
            ;
            row = row + 1;
        }
        proof {
            assert(k == area_len(area)) by (nonlinear_arith)
                requires
                    k == area.size.height * area.size.width,
                    area_len(area) == area.size.width * area.size.height,
            ;
        }
    }
}

/// The number of pixels of `bounds`, if it is representable.
fn pixel_count(bounds: Rectangle) -> (r: Option<usize>)
    ensures
        r == (if bounds.size.width * bounds.size.height <= usize::MAX {
            Some((bounds.size.width * bounds.size.height) as usize)
        } else {
            None
        }),
{
    (bounds.size.width as usize).checked_mul(bounds.size.height as usize)
}

/// A pixel of a region lies among the region's pixels.
pub proof fn lemma_cell_in_region(width: int, height: int, row: int, col: int)
    requires
        0 <= row < height,
        0 <= col < width,
    ensures
        0 <= cell(width, row, col) < width * height,
{
    assert(0 <= row * width) by (nonlinear_arith)
        requires
            0 <= row,
            0 <= width,
    ;
    assert(row * width + width <= height * width) by (nonlinear_arith)
        requires
            row + 1 <= height,
            0 <= width,
    ;
    assert(width * height == height * width) by (nonlinear_arith);
}

} // verus!
