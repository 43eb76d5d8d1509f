//! Text elements: fonts, text styles and the text builder.
use vstd::prelude::*;
use vstd::string::StrSliceExecFns;

use embedded_graphics::geometry::Dimensions;
use embedded_graphics::mono_font::MonoFont;

use crate::element::{Element, ElementBuilder, FluentBuilder};
use crate::geometry::Size;
use crate::style::{Color, Style, StyledElement};

verus! {

#[verifier::external_type_specification]
#[verifier::external_body]
pub struct ExMonoFont<'a>(MonoFont<'a>);

/// embedded-graphics' `mono_font::ascii::FONT_10X20` (a constant), with its character size and
/// spacing read from its fields `character_size` and `character_spacing`. The contract claims
/// what the source of embedded-graphics 0.8 (`mono_font/generated/ascii.rs`) shows: characters
/// of 10 by 20 pixels, no spacing. Nothing is stated of the font itself, which is opaque to
/// verification.
#[verifier::external_body]
fn font_10x20() -> (r: (&'static MonoFont<'static>, FontMetrics))
    ensures
        r.1 == (FontMetrics { character_width: 10, character_height: 20, character_spacing: 0 }),
{
    let font = &embedded_graphics::mono_font::ascii::FONT_10X20;
    let metrics = FontMetrics {
        character_width: font.character_size.width,
        character_height: font.character_size.height,
        character_spacing: font.character_spacing,
    };
    (font, metrics)
}

/// The character size and spacing of a monospaced font (its fields `character_size` and
/// `character_spacing`). The font is opaque to verification, so nothing is stated of them.
#[verifier::external_body]
fn mono_metrics(font: &MonoFont) -> FontMetrics {
    FontMetrics {
        character_width: font.character_size.width,
        character_height: font.character_size.height,
        character_spacing: font.character_spacing,
    }
}

/// The metrics of the default font: characters of 10 by 20 pixels, without spacing.
pub open spec fn default_metrics() -> FontMetrics {
    FontMetrics { character_width: 10, character_height: 20, character_spacing: 0 }
}

impl Default for Font {
    fn default() -> (r: Font)
        ensures
            r.spec_metrics() == default_metrics(),
    {
        Font::default_font()
    }
}

/// The geometry of a monospaced font, as plain values.
#[derive(Clone, Copy, Debug, PartialEq, Eq, Structural)]
pub struct FontMetrics {
    /// Width of one character cell.
    pub character_width: u32,
    /// Height of one character cell (and of one line).
    pub character_height: u32,
    /// Empty pixels between adjacent characters on a line.
    pub character_spacing: u32,
}

/// Font for text rendering: an embedded-graphics monospaced font together with its metrics.
#[derive(Clone, Copy)]
pub struct Font {
    mono: &'static MonoFont<'static>,
    metrics: FontMetrics,
}

impl Font {
    /// The metrics this font measures text with.
    pub closed spec fn spec_metrics(self) -> FontMetrics {
        self.metrics
    }

    /// The embedded-graphics font.
    pub closed spec fn spec_mono(self) -> &'static MonoFont<'static> {
        self.mono
    }

    /// Creates a monospaced font from the given [`MonoFont`], keeping its metrics beside it.
    pub fn mono(font: &'static MonoFont<'static>) -> (r: Font)
        ensures
            r.spec_mono() == font,
    {
        Font { mono: font, metrics: mono_metrics(font) }
    }

    /// The font used when a text element doesn't choose one: embedded-graphics'
    /// `mono_font::ascii::FONT_10X20`, whose characters are 10 by 20 pixels, without spacing.
    pub fn default_font() -> (r: Font)
        ensures
            r.spec_metrics() == default_metrics(),
    {
        let (mono, metrics) = font_10x20();
        Font { mono, metrics }
    }

    /// The embedded-graphics font to draw with.
    pub fn mono_font(&self) -> (r: &'static MonoFont<'static>)
        ensures
            r == self.spec_mono(),
    {
        self.mono
    }

    /// The metrics this font measures text with.
    pub fn metrics(&self) -> (r: FontMetrics)
        ensures
            r == self.spec_metrics(),
    {
        self.metrics
    }
}

/// Whether embedded-graphics can measure `content` in a font with metrics `m` without any of its
/// integer arithmetic overflowing.
pub open spec fn measurable(content: Seq<char>, m: FontMetrics) -> bool {
    &&& m.character_height * 100 <= u32::MAX
    &&& (content.len() + 1) * (m.character_width + m.character_spacing + m.character_height)
        <= i32::MAX
}

/// Whether `content` can be measured in `font` without overflow.
pub fn is_measurable(content: &str, font: &Font) -> (r: bool)
    ensures
        r == measurable(content@, font.spec_metrics()),
{
    let m = font.metrics();
    let chars = content.unicode_len() as u128;
    let per_char = m.character_width as u128 + m.character_spacing as u128 + m.character_height as u128;
    assert((chars + 1) * per_char <= 0x1_0000_0000_0000_0000 * 0x3_0000_0000) by (nonlinear_arith)
        requires
            chars + 1 <= 0x1_0000_0000_0000_0000,
            per_char <= 0x3_0000_0000,
    ;
    (m.character_height as u64) * 100 <= 0xffff_ffffu64 && (chars + 1) * per_char <= 0x7fff_ffffu128
}

/// The lines of `content`: the pieces between its line feeds, in order (one more than the
/// line feeds it holds).
pub open spec fn split_lines(content: Seq<char>) -> Seq<Seq<char>>
    decreases content.len(),
{
    if content.len() == 0 {
        seq![Seq::empty()]
    } else {
        let rest = split_lines(content.drop_last());
        let c = content.last();
        if c == '\n' {
            rest.push(Seq::empty())
        } else {
            rest.update(rest.len() - 1, rest.last().push(c))
        }
    }
}

/// The number of characters drawn of a line: all of them but one trailing carriage return.
pub open spec fn drawn_chars(line: Seq<char>) -> nat {
    if line.len() > 0 && line.last() == '\r' {
        (line.len() - 1) as nat
    } else {
        line.len()
    }
}

/// The width of a line of `n` characters: their cells with the spacing between them.
pub open spec fn line_width(n: nat, m: FontMetrics) -> nat {
    let cells = n * (m.character_width + m.character_spacing);
    if cells > m.character_spacing {
        (cells - m.character_spacing) as nat
    } else {
        0
    }
}

/// Over the lines that cover pixels (a positive width and height): the widest width, and the
/// indices of the first and of the last of them; `None` where no line covers any pixel.
pub open spec fn inked_extent(lines: Seq<Seq<char>>, m: FontMetrics) -> Option<(nat, nat, nat)>
    decreases lines.len(),
{
    if lines.len() == 0 {
        None
    } else {
        let before = inked_extent(lines.drop_last(), m);
        let last = (lines.len() - 1) as nat;
        let w = line_width(drawn_chars(lines.last()), m);
        if w > 0 && m.character_height > 0 {
            match before {
                None => Some((w, last, last)),
                Some((widest, first, _)) => Some((if w > widest { w } else { widest }, first, last)),
            }
        } else {
            before
        }
    }
}

/// The size of the bounding box of `content` laid out from the top-left corner in a monospaced
/// font with metrics `m` (what `Text::bounding_box` of embedded-graphics gives): line `i` has
/// its top at `i` times the character height; the box spans the widest line, from the first
/// to the last line that covers any pixel, and is empty where none does.
pub open spec fn mono_text_size(content: Seq<char>, m: FontMetrics) -> Size {
    match inked_extent(split_lines(content), m) {
        None => Size { width: 0, height: 0 },
        Some((widest, first, last)) => Size {
            width: widest as u32,
            height: ((last - first + 1) * m.character_height) as u32,
        },
    }
}

/// Measures `content` in `font` with embedded-graphics: the size of
/// `Text::with_baseline(content, (0, 0), MonoTextStyle::new(font, _), Baseline::Top).bounding_box()`.
///
/// The contract claims what embedded-graphics 0.8 shows (`Text::bounding_box`, `Text::lines`,
/// `MonoTextStyle::measure_string`): the text is split at line feeds, a trailing carriage return
/// is dropped from each line, a line of `n` characters is `n` times the character width plus
/// spacing, less one spacing, wide and one character high, lines are one character height apart
/// (line height 100 percent), and the box joins the lines that cover pixels. The text color plays
/// no part in it.
#[verifier::external_body]
fn measure_mono(content: &str, font: &Font) -> (r: Size)
    requires
        measurable(content@, font.spec_metrics()),
    ensures
        r == mono_text_size(content@, font.spec_metrics()),
{
    let style = embedded_graphics::mono_font::MonoTextStyle::new(
        font.mono,
        embedded_graphics::pixelcolor::BinaryColor::On,
    );
    let origin = embedded_graphics::geometry::Point::new(0, 0);
    let bounds = embedded_graphics::text::Text::with_baseline(
        content,
        origin,
        style,
        embedded_graphics::text::Baseline::Top,
    ).bounding_box();
    Size::new(bounds.size.width, bounds.size.height)
}

/// Text style.
#[derive(Clone, Copy)]
pub struct TextStyle {
    pub font: Font,
    pub color: Option<Color>,
}

impl TextStyle {
    /// The font of this style.
    pub fn font(&self) -> (r: Font)
        ensures
            r == self.font,
    {
        self.font
    }

    /// The text color of this style, if set.
    pub fn color(&self) -> (r: Option<Color>)
        ensures
            r == self.color,
    {
        self.color
    }
}

impl Default for TextStyle {
    fn default() -> (r: TextStyle)
        ensures
            r.font.spec_metrics() == default_metrics(),
            r.color.is_none(),
    {
        TextStyle { font: Font::default_font(), color: None }
    }
}

/// Measures the size of `content` set in the font of `style`.
pub fn measure(content: &str, style: &Style<TextStyle>) -> (r: Size)
    requires
        measurable(content@, style.specific.font.spec_metrics()),
    ensures
        r == mono_text_size(content@, style.specific.font.spec_metrics()),
{
    measure_mono(content, &style.specific.font)
}

/// Declaration of a text leaf.
pub struct TextBuilder<'t> {
    pub content: &'t str,
    pub style: Style<TextStyle>,
}

impl<'t> TextBuilder<'t> {
    /// Creates a text element with the given content and the default style.
    pub fn new(content: &'t str) -> (r: TextBuilder<'t>)
        ensures
            r.content == content,
            r.style.has_default_box(),
            r.style.specific.font.spec_metrics() == default_metrics(),
            r.style.specific.color.is_none(),
    {
        TextBuilder { content, style: Style::with_specific(TextStyle::default()) }
    }

    /// The text content.
    pub fn content(&self) -> (r: &'t str)
        ensures
            r == self.content,
    {
        self.content
    }

    /// Measures the size of this text in its font.
    pub fn measure(&self) -> (r: Size)
        requires
            measurable(self.content@, self.style.specific.font.spec_metrics()),
        ensures
            r == mono_text_size(self.content@, self.style.specific.font.spec_metrics()),
    {
        measure(self.content, &self.style)
    }
}

impl<'t> StyledElement for TextBuilder<'t> {
    type Specific = TextStyle;

    open spec fn spec_style(&self) -> Style<TextStyle> {
        self.style
    }

    open spec fn spec_with_style(&self, style: Style<TextStyle>) -> Self {
        TextBuilder { content: self.content, style }
    }

    fn style(&self) -> (r: &Style<TextStyle>) {
        &self.style
    }

    fn set_style(&mut self, style: Style<TextStyle>) {
        self.style = style;
    }
}

impl<'t> ElementBuilder<'t> for TextBuilder<'t> {
    open spec fn spec_element(&self) -> Element<'t> {
        Element::Text(*self)
    }

    fn into_element(self) -> (r: Element<'t>) {
        Element::Text(self)
    }
}

impl<'t> FluentBuilder for TextBuilder<'t> {}

/// Elements that can be styled with text properties.
pub trait TextStyledElement: StyledElement<Specific = TextStyle> {
    /// Sets the font.
    fn font(self, font: Font) -> (r: Self)
        ensures
            r == self.spec_with_style(
                (Style { specific: TextStyle { font, ..self.spec_style().specific }, ..self.spec_style() }),
            ),
    {
        let mut this = self;
        let mut s = *this.style();
        s.specific.font = font;
        this.set_style(s);
        this
    }

    /// Sets the text color.
    fn text_color(self, color: Color) -> (r: Self)
        ensures
            r == self.spec_with_style(
                (Style {
                    specific: TextStyle { color: Some(color), ..self.spec_style().specific },
                    ..self.spec_style()
                }),
            ),
    {
        let mut this = self;
        let mut s = *this.style();
        s.specific.color = Some(color);
        this.set_style(s);
        this
    }
}

impl<'t> TextStyledElement for TextBuilder<'t> {}

} // verus!
