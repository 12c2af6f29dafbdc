//! The text leaf widget: immutable text, color, font and base scale. A
//! label measures by asking the paint surface for the text's tight size
//! and draws by queueing one text run. It ignores input events.

use vstd::prelude::*;

use crate::color::Color;
use crate::geometry::BBox;
use crate::geometry::LEN_LIMIT;
use crate::geometry::Vector2;
use crate::geometry::scale_len;
use crate::geometry::scale_len_spec;
use crate::surface::Primitive;
use crate::surface::TextRun;
use crate::surface::UniversalBrush;
use crate::surface::text_size_spec;
use crate::widget::Font;
use crate::widget::Globals;
use crate::widget::Widget;
use crate::widget::pos_ok;
use crate::widget::scale_ok;

verus! {

/// A run of immutable text with a color, a font and a base font scale in
/// whole pixels.
#[derive(Debug, Clone, PartialEq)]
pub struct Label {
    pub text: String,
    pub color: Color,
    pub font: Font,
    pub scale: i64,
}

/// A label is well formed when its base font scale is a sane length.
pub open spec fn wf_label(l: Label) -> bool {
    0 <= l.scale <= LEN_LIMIT
}

/// The effective font scale of a label in whole pixels: its base scale
/// times the horizontal scale factor. The horizontal factor drives both
/// axes of the glyph scale.
pub open spec fn label_px_spec(l: Label, scale: Vector2) -> int {
    scale_len_spec(l.scale as int, scale.x as int)
}

/// The size a label measures to: its text's tight size at the effective
/// font scale, bounded by the screen size.
pub open spec fn label_size_spec(l: Label, scale: Vector2, font: Seq<u8>, g: Globals) -> (
    int,
    int,
) {
    text_size_spec(
        font,
        l.text@,
        label_px_spec(l, scale),
        g.screen_size.0 as int,
        g.screen_size.1 as int,
    )
}

/// The one primitive a label draws: its text run at the given offset.
pub open spec fn label_prims(l: Label, ox: int, oy: int, scale: Vector2, g: Globals) -> Seq<
    Primitive,
> {
    seq![
        Primitive::Text(
            TextRun {
                position: Vector2 { x: ox as i64, y: oy as i64 },
                bounds: Vector2 {
                    x: g.screen_size.0 as i64,
                    y: g.screen_size.1 as i64,
                },
                text: l.text,
                color: l.color,
                scale_px: label_px_spec(l, scale) as i64,
            },
        ),
    ]
}

impl Label {
    /// A white label in the default font at the given base scale.
    pub fn new(text: &str, size: i64) -> (l: Self)
        ensures
            l.text@ == text@,
            l.color == (Color { r: 255, g: 255, b: 255, a: 255 }),
            l.font == Font::LeagueSpartan,
            l.scale == size,
    {
        Self { text: text.to_owned(), color: Color::white(), font: Font::default(), scale: size }
    }

    /// Wrap the label as a widget tree node.
    pub fn build(self) -> (w: Widget)
        ensures
            w == Widget::Label(self),
    {
        Widget::Label(self)
    }

    pub fn with_color(self, color: Color) -> (l: Self)
        ensures
            l == (Self { color, ..self }),
    {
        Self { color, ..self }
    }

    pub fn with_font(self, font: Font) -> (l: Self)
        ensures
            l == (Self { font, ..self }),
    {
        Self { font, ..self }
    }

    pub fn with_size(self, scale: i64) -> (l: Self)
        ensures
            l == (Self { scale, ..self }),
    {
        Self { scale, ..self }
    }

    pub fn with_text(self, text: &str) -> (l: Self)
        ensures
            l.text@ == text@,
            l.color == self.color && l.font == self.font && l.scale == self.scale,
    {
        Self { text: text.to_owned(), ..self }
    }

    /// The box the label would occupy drawn at `offset` with `scale`:
    /// corner at `offset`, extent the measured text size. No side effects
    /// on the paint queue.
    pub fn measure(&self, offset: Vector2, scale: Vector2, brush: &UniversalBrush, globals: &Globals) -> (b: BBox)
        requires
            wf_label(*self),
            scale_ok(scale),
            pos_ok(offset),
        ensures
            b.min == offset,
            b.max.x == offset.x + label_size_spec(*self, scale, brush.font_data@, *globals).0,
            b.max.y == offset.y + label_size_spec(*self, scale, brush.font_data@, *globals).1,
            self.text@.len() == 0 ==> b.max == offset,
    {
        proof {
            crate::widget::lemma_scale_len_range(self.scale as int, scale.x as int, LEN_LIMIT as int);
        }
        let px = scale_len(self.scale, scale.x);
        let bounds = Vector2::new(globals.screen_size.0 as i64, globals.screen_size.1 as i64);
        let d = brush.measure(self.text.as_str(), px, bounds);
        BBox { min: offset, max: Vector2 { x: offset.x + d.0, y: offset.y + d.1 } }
    }

    /// Queue the label's text run and return the same box `measure`
    /// returns for these arguments.
    pub fn draw(&self, offset: Vector2, scale: Vector2, brush: &mut UniversalBrush, globals: &Globals) -> (b: BBox)
        requires
            wf_label(*self),
            scale_ok(scale),
            pos_ok(offset),
        ensures
            final(brush).queue@ == old(brush).queue@ + label_prims(
                *self,
                offset.x as int,
                offset.y as int,
                scale,
                *globals,
            ),
            final(brush).font_data@ == old(brush).font_data@,
            b.min == offset,
            b.max.x == offset.x + label_size_spec(*self, scale, old(brush).font_data@, *globals).0,
            b.max.y == offset.y + label_size_spec(*self, scale, old(brush).font_data@, *globals).1,
    {
        proof {
            crate::widget::lemma_scale_len_range(self.scale as int, scale.x as int, LEN_LIMIT as int);
        }
        let px = scale_len(self.scale, scale.x);
        let run = TextRun {
            position: offset,
            bounds: Vector2::new(globals.screen_size.0 as i64, globals.screen_size.1 as i64),
            text: self.text.clone(),
            color: self.color,
            scale_px: px,
        };
        let _submitted = brush.queue_text_raw(run);
        proof {
            assert(old(brush).queue@.push(
                label_prims(*self, offset.x as int, offset.y as int, scale, *globals)[0],
            ) =~= old(brush).queue@ + label_prims(
                *self,
                offset.x as int,
                offset.y as int,
                scale,
                *globals,
            ));
        }
        self.measure(offset, scale, brush, globals)
    }

    /// Labels are not interactive: events are ignored.
    pub fn handle_event(
        &mut self,
        host: &mut crate::host::Host,
        brush: &UniversalBrush,
        offset: Vector2,
        scale: Vector2,
        event: &crate::host::GUIEvent,
        globals: &Globals,
    )
        ensures
            *final(self) == *old(self),
            *final(host) == *old(host),
    {
    }
}

/// A label's measured size lies within the screen bounds, so within the
/// `u32` range on both axes.
pub proof fn lemma_label_size_range(l: Label, scale: Vector2, font: Seq<u8>, g: Globals)
    ensures
        0 <= label_size_spec(l, scale, font, g).0 <= 0xffff_ffff,
        0 <= label_size_spec(l, scale, font, g).1 <= 0xffff_ffff,
{
}

} // verus!
