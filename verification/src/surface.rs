//! The paint surface: an accumulator that widgets submit draw primitives
//! into during a draw pass. The queue is drained once per frame and handed
//! to the render backend. The surface also measures text, delegating glyph
//! shaping to the font backend.

use vstd::prelude::*;

use crate::color::Color;
use crate::geometry::Vector2;

verus! {

/// A filled, optionally rounded and bordered rectangle. Corners are in
/// whole pixels; `border_radius` and `border_width` are in thousandths of
/// a pixel.
#[derive(Debug, Clone, Copy, PartialEq)]
pub struct Quad {
    pub top_left: Vector2,
    pub bottom_right: Vector2,
    pub color: Color,
    pub border_radius: i64,
    pub border_color: Color,
    pub border_width: i64,
}

/// A run of text: a screen position, a wrapping bound beyond which the
/// backend clips or wraps, the string, a color and a font scale in whole
/// pixels.
#[derive(Debug, Clone, PartialEq)]
pub struct TextRun {
    pub position: Vector2,
    pub bounds: Vector2,
    pub text: String,
    pub color: Color,
    pub scale_px: i64,
}

/// One queued draw primitive. Submission order is paint order: later
/// primitives draw on top.
#[derive(Debug, Clone, PartialEq)]
pub enum Primitive {
    Quad(Quad),
    Text(TextRun),
}

/// The size the font backend reports for a text run: font bytes, text,
/// font scale in whole pixels, and the wrapping bounds determine it.
pub uninterp spec fn text_dims(font: Seq<u8>, text: Seq<char>, px: int, bw: int, bh: int) -> (
    int,
    int,
);

/// The measured size of a text run, clipped to its wrapping bounds.
pub open spec fn text_size_spec(font: Seq<u8>, text: Seq<char>, px: int, bw: int, bh: int) -> (
    int,
    int,
) {
    let d = text_dims(font, text, px, bw, bh);
    (clamp_len(d.0, bw), clamp_len(d.1, bh))
}

/// A reported length clipped to `0 ..= hi`.
pub open spec fn clamp_len(v: int, hi: int) -> int {
    if v < 0 {
        0
    } else if v > hi {
        hi
    } else {
        v
    }
}

/// Relies on `glyph_brush`: `GlyphCruncher::glyph_bounds` over a fresh
/// brush built from the given font bytes (`ab_glyph::FontArc::try_from_vec`),
/// measuring a single-text section with the default wrapping layout. The
/// result is a function of the font bytes, text, scale and bounds alone;
/// an empty section yields no glyphs, reported here as zero size, and so
/// do unparseable font bytes.
#[verifier::external_body]
fn glyph_bounds_raw(font_data: &Vec<u8>, text: &str, scale_px: i64, bw: i64, bh: i64) -> (r: (
    i64,
    i64,
))
    ensures
        ({
            let d = text_dims(font_data@, text@, scale_px as int, bw as int, bh as int);
            r.0 == d.0 && r.1 == d.1
        }),
        text@.len() == 0 ==> r.0 == 0 && r.1 == 0,
{
    let font = match glyph_brush::ab_glyph::FontArc::try_from_vec(font_data.clone()) {
        Ok(f) => f,
        Err(_) => return (0, 0),
    };
    let mut brush: glyph_brush::GlyphBrush<()> =
        glyph_brush::GlyphBrushBuilder::using_font(font).build();
    let mut run = glyph_brush::Text::new(text);
    run.scale = glyph_brush::ab_glyph::PxScale { x: scale_px as _, y: scale_px as _ };
    let mut section = glyph_brush::Section::default();
    section.bounds = (bw as _, bh as _);
    section.text.push(run);
    match glyph_brush::GlyphCruncher::glyph_bounds(&mut brush, &section) {
        Some(r) => (r.width() as i64, r.height() as i64),
        None => (0, 0),
    }
}

/// The paint surface: the queue of this frame's draw primitives, and the
/// font the backend shapes text with.
pub struct UniversalBrush {
    /// Queued primitives in submission order.
    pub queue: Vec<Primitive>,
    /// The bytes of the font given to the render backend.
    pub font_data: Vec<u8>,
}

impl UniversalBrush {
    /// A surface with an empty queue over the given font.
    pub fn new(font_data: Vec<u8>) -> (s: Self)
        ensures
            s.queue@ == Seq::<Primitive>::empty(),
            s.font_data@ == font_data@,
    {
        Self { queue: Vec::new(), font_data }
    }

    /// Append a quad to the queue. Submission never fails; the `Result`
    /// mirrors the render backend's interface.
    pub fn queue_quad_raw(&mut self, quad: Quad) -> (r: Result<(), &'static str>)
        ensures
            r is Ok,
            final(self).queue@ == old(self).queue@.push(Primitive::Quad(quad)),
            final(self).font_data@ == old(self).font_data@,
    {
        self.queue.push(Primitive::Quad(quad));
        Ok(())
    }

    /// Append a text run to the queue. Submission never fails; the
    /// `Result` mirrors the render backend's interface.
    pub fn queue_text_raw(&mut self, run: TextRun) -> (r: Result<(), &'static str>)
        ensures
            r is Ok,
            final(self).queue@ == old(self).queue@.push(Primitive::Text(run)),
            final(self).font_data@ == old(self).font_data@,
    {
        self.queue.push(Primitive::Text(run));
        Ok(())
    }

    /// The tight size of a text run at the given font scale, clipped to
    /// the wrapping bounds; zero for an empty string. Does not touch the
    /// queue.
    pub fn measure(&self, text: &str, scale_px: i64, bounds: Vector2) -> (r: (i64, i64))
        requires
            0 <= bounds.x,
            0 <= bounds.y,
        ensures
            r.0 == text_size_spec(
                self.font_data@,
                text@,
                scale_px as int,
                bounds.x as int,
                bounds.y as int,
            ).0,
            r.1 == text_size_spec(
                self.font_data@,
                text@,
                scale_px as int,
                bounds.x as int,
                bounds.y as int,
            ).1,
            0 <= r.0 <= bounds.x,
            0 <= r.1 <= bounds.y,
            text@.len() == 0 ==> r.0 == 0 && r.1 == 0,
    {
        let d = glyph_bounds_raw(&self.font_data, text, scale_px, bounds.x, bounds.y);
        let w = if d.0 < 0 {
            0
        } else if d.0 > bounds.x {
            bounds.x
        } else {
            d.0
        };
        let h = if d.1 < 0 {
            0
        } else if d.1 > bounds.y {
            bounds.y
        } else {
            d.1
        };
        (w, h)
    }

    /// Hand the queued primitives over for rendering, in submission
    /// order, leaving the queue empty.
    pub fn drain(&mut self) -> (r: Vec<Primitive>)
        ensures
            r@ == old(self).queue@,
            final(self).queue@ == Seq::<Primitive>::empty(),
            final(self).font_data@ == old(self).font_data@,
    {
        let mut q: Vec<Primitive> = Vec::new();
        core::mem::swap(&mut q, &mut self.queue);
        q
    }
}

impl crate::geometry::BBox {
    /// Queue a thin outline of this box, shifted by `offset`: a quad with
    /// a transparent fill and a border of one and a half pixels in the
    /// given color.
    pub fn draw(&self, offset: Vector2, brush: &mut UniversalBrush, color: Color) -> (r: Result<
        (),
        &'static str,
    >)
        requires
            i64::MIN <= self.min.x + offset.x <= i64::MAX,
            i64::MIN <= self.min.y + offset.y <= i64::MAX,
            i64::MIN <= self.max.x + offset.x <= i64::MAX,
            i64::MIN <= self.max.y + offset.y <= i64::MAX,
        ensures
            r is Ok,
            final(brush).queue@ == old(brush).queue@.push(
                Primitive::Quad(
                    Quad {
                        top_left: Vector2 {
                            x: (self.min.x + offset.x) as i64,
                            y: (self.min.y + offset.y) as i64,
                        },
                        bottom_right: Vector2 {
                            x: (self.max.x + offset.x) as i64,
                            y: (self.max.y + offset.y) as i64,
                        },
                        color: Color { r: 0, g: 0, b: 0, a: 0 },
                        border_radius: 0,
                        border_color: color,
                        border_width: 1500,
                    },
                ),
            ),
            final(brush).font_data@ == old(brush).font_data@,
    {
        brush.queue_quad_raw(
            Quad {
                top_left: self.min.add(offset),
                bottom_right: self.max.add(offset),
                color: Color::transparent(),
                border_radius: 0,
                border_color: color,
                border_width: 1500,
            },
        )
    }
}

} // verus!
