//! The clickable leaf widget: a filled rounded rectangle around a
//! centered label, with hover state and an optional click handler. Its
//! hit box is computed from the same geometry as its painted box.

use vstd::prelude::*;

use crate::color::Color;
use crate::geometry::BBox;
use crate::geometry::LEN_LIMIT;
use crate::geometry::Vector2;
use crate::geometry::scale_len;
use crate::geometry::scale_len_spec;
use crate::geometry::div2_trunc;
use crate::label::Label;
use crate::label::label_prims;
use crate::label::label_size_spec;
use crate::label::wf_label;
use crate::geometry::contains_spec;
use crate::host::ButtonClickEvent;
use crate::host::CursorIcon;
use crate::host::GUIEvent;
use crate::host::Host;
use crate::surface::Primitive;
use crate::surface::Quad;
use crate::surface::UniversalBrush;
use crate::widget::Font;
use crate::widget::Globals;
use crate::widget::OFFSET_LIMIT;
use crate::widget::SIZE_UNIT;
use crate::widget::Widget;
use crate::widget::lemma_scale_len_range;
use crate::widget::ev_ok;
use crate::widget::off_ok;
use crate::widget::scale_ok;

verus! {

/// Options of a button; every one has an explicit default. `padding`,
/// `margin` and fixed `width`/`height` are whole pixels; `scale` is the
/// label's font scale in whole pixels; `radius` is in thousandths of a
/// pixel.
#[derive(Debug, Clone, Copy, PartialEq)]
pub struct ButtonOptions {
    pub color: Color,
    pub hover_color: Color,
    pub text_color: Color,
    pub font: Font,
    pub scale: i64,
    pub padding: Vector2,
    pub margin: Vector2,
    pub radius: i64,
    pub width: Option<i64>,
    pub height: Option<i64>,
}

impl Default for ButtonOptions {
    /// A blue button with a lighter hover shade, white text, and small
    /// padding and margin.
    fn default() -> (o: Self)
        ensures
            o.color == (Color { r: 0x1a, g: 0x6b, b: 0xf5, a: 255 }),
            o.hover_color == (Color { r: 0x1a, g: 0x6b, b: 0xf5, a: 127 }),
            o.text_color == (Color { r: 255, g: 255, b: 255, a: 255 }),
            o.font == Font::LeagueSpartan,
            o.scale == 16,
            o.padding == (Vector2 { x: 8, y: 5 }),
            o.margin == (Vector2 { x: 8, y: 5 }),
            o.radius == 4000,
            o.width is None,
            o.height is None,
    {
        proof {
            assert(((0x1a6bf5u32 >> 16) & 0xff) == 0x1a) by (bit_vector);
            assert(((0x1a6bf5u32 >> 8) & 0xff) == 0x6b) by (bit_vector);
            assert((0x1a6bf5u32 & 0xff) == 0xf5) by (bit_vector);
        }
        Self {
            color: Color::from_hex(0x1a6bf5),
            hover_color: Color::from_hex(0x1a6bf5).with_alpha(127),
            text_color: Color::white(),
            font: Font::default(),
            scale: 16,
            padding: Vector2::new(8, 5),
            margin: Vector2::new(8, 5),
            radius: 4000,
            width: None,
            height: None,
        }
    }
}

/// A button: its text, its options, an optional click-handler tag the
/// shell resolves to a callback, the label it renders its text with, and
/// its private hover flag.
#[derive(Debug, Clone, PartialEq)]
pub struct Button {
    pub text: String,
    pub options: ButtonOptions,
    pub on_click: Option<u64>,
    pub label: Label,
    pub is_hovered: bool,
}

/// A button is well formed when its lengths are sane and its label agrees
/// with its text, font scale and text color.
pub open spec fn wf_button(b: Button) -> bool {
    &&& 0 <= b.options.padding.x <= LEN_LIMIT
    &&& 0 <= b.options.padding.y <= LEN_LIMIT
    &&& 0 <= b.options.margin.x <= LEN_LIMIT
    &&& 0 <= b.options.margin.y <= LEN_LIMIT
    &&& 0 <= b.options.scale <= LEN_LIMIT
    &&& (b.options.width matches Some(v) ==> 0 <= v <= LEN_LIMIT)
    &&& (b.options.height matches Some(v) ==> 0 <= v <= LEN_LIMIT)
    &&& wf_label(b.label)
    &&& b.label.scale == b.options.scale
    &&& b.label.text@ == b.text@
    &&& b.label.color == b.options.text_color
}

/// The size of the button's visible content box: a fixed width or height
/// where one is set, else the label's size plus padding on both sides,
/// scaled.
pub open spec fn button_content_wh(b: Button, scale: Vector2, font: Seq<u8>, g: Globals) -> (
    int,
    int,
) {
    let ls = label_size_spec(b.label, scale, font, g);
    let wc = match b.options.width {
        Some(v) => v as int,
        None => ls.0 + 2 * (b.options.padding.x as int),
    };
    let hc = match b.options.height {
        Some(v) => v as int,
        None => ls.1 + 2 * (b.options.padding.y as int),
    };
    (scale_len_spec(wc, scale.x as int), scale_len_spec(hc, scale.y as int))
}

/// The size a button measures to: its content box plus margin on both
/// sides, scaled.
pub open spec fn button_size_spec(b: Button, scale: Vector2, font: Seq<u8>, g: Globals) -> (
    int,
    int,
) {
    let c = button_content_wh(b, scale, font, g);
    (
        c.0 + scale_len_spec(2 * (b.options.margin.x as int), scale.x as int),
        c.1 + scale_len_spec(2 * (b.options.margin.y as int), scale.y as int),
    )
}

/// The corner of the button's content box: the layout offset pushed in by
/// the scaled margin.
pub open spec fn button_inner_xy(b: Button, ox: int, oy: int, scale: Vector2) -> (int, int) {
    (
        ox + scale_len_spec(b.options.margin.x as int, scale.x as int),
        oy + scale_len_spec(b.options.margin.y as int, scale.y as int),
    )
}

/// The button's hit box: its content box, the same rectangle its
/// background quad is painted over.
pub open spec fn button_hitbox_spec(b: Button, ox: int, oy: int, scale: Vector2, font: Seq<u8>, g: Globals) -> BBox {
    let inner = button_inner_xy(b, ox, oy, scale);
    let c = button_content_wh(b, scale, font, g);
    BBox {
        min: Vector2 { x: inner.0 as i64, y: inner.1 as i64 },
        max: Vector2 { x: (inner.0 + c.0) as i64, y: (inner.1 + c.1) as i64 },
    }
}

/// The primitives a button paints: its background quad over its content
/// box (hover color while hovered), then its label centered within it.
pub open spec fn button_prims(b: Button, ox: int, oy: int, scale: Vector2, font: Seq<u8>, g: Globals) -> Seq<Primitive> {
    let inner = button_inner_xy(b, ox, oy, scale);
    let c = button_content_wh(b, scale, font, g);
    let ls = label_size_spec(b.label, scale, font, g);
    let tx = inner.0 + div2_trunc(c.0 - ls.0);
    let ty = inner.1 + div2_trunc(c.1 - ls.1);
    seq![
        Primitive::Quad(
            Quad {
                top_left: Vector2 { x: inner.0 as i64, y: inner.1 as i64 },
                bottom_right: Vector2 { x: (inner.0 + c.0) as i64, y: (inner.1 + c.1) as i64 },
                color: if b.is_hovered {
                    b.options.hover_color
                } else {
                    b.options.color
                },
                border_radius: b.options.radius,
                border_color: Color { r: 0, g: 0, b: 0, a: 0 },
                border_width: 0,
            },
        ),
    ] + label_prims(b.label, tx, ty, scale, g)
}

/// The button after one event: the hover flag follows the pointer in and
/// out of the hit box on cursor moves; no other event changes it.
pub open spec fn button_after_event(
    b: Button,
    ox: int,
    oy: int,
    scale: Vector2,
    ev: GUIEvent,
    font: Seq<u8>,
    g: Globals,
) -> Button {
    match ev {
        GUIEvent::CursorMoved(mp) => {
            let hit = contains_spec(button_hitbox_spec(b, ox, oy, scale, font, g), mp);
            if hit != b.is_hovered {
                Button { is_hovered: hit, ..b }
            } else {
                b
            }
        },
        _ => b,
    }
}

/// What one event makes a button ask of the host: a cursor shape and a
/// redraw when the hover state flips, and exactly one recorded click when
/// a press lands inside the hit box of a button with a handler.
pub open spec fn button_event_effects(
    b: Button,
    ox: int,
    oy: int,
    scale: Vector2,
    ev: GUIEvent,
    font: Seq<u8>,
    g: Globals,
) -> (Seq<CursorIcon>, bool, Seq<ButtonClickEvent>) {
    match ev {
        GUIEvent::CursorMoved(mp) => {
            let hit = contains_spec(button_hitbox_spec(b, ox, oy, scale, font, g), mp);
            if hit != b.is_hovered {
                (
                    seq![
                        if hit {
                            CursorIcon::Hand
                        } else {
                            CursorIcon::Arrow
                        },
                    ],
                    true,
                    Seq::empty(),
                )
            } else {
                (Seq::empty(), false, Seq::empty())
            }
        },
        GUIEvent::MousePressed(mp) => {
            let hit = contains_spec(button_hitbox_spec(b, ox, oy, scale, font, g), mp);
            match b.on_click {
                Some(t) => if hit {
                    (
                        Seq::empty(),
                        false,
                        seq![
                            ButtonClickEvent {
                                handler: t,
                                mouse_position: mp,
                                mouse_position_relative: Vector2 {
                                    x: (mp.x - ox) as i64,
                                    y: (mp.y - oy) as i64,
                                },
                            },
                        ],
                    )
                } else {
                    (Seq::empty(), false, Seq::empty())
                },
                None => (Seq::empty(), false, Seq::empty()),
            }
        },
        GUIEvent::MouseReleased(_) => (Seq::empty(), false, Seq::empty()),
    }
}

/// A well-formed button's measured size lies within `SIZE_UNIT` on both
/// axes.
pub proof fn lemma_button_size_range(b: Button, scale: Vector2, font: Seq<u8>, g: Globals)
    requires
        wf_button(b),
        scale_ok(scale),
    ensures
        0 <= button_content_wh(b, scale, font, g).0 <= 0x47000000000,
        0 <= button_content_wh(b, scale, font, g).1 <= 0x47000000000,
        0 <= button_size_spec(b, scale, font, g).0 <= SIZE_UNIT,
        0 <= button_size_spec(b, scale, font, g).1 <= SIZE_UNIT,
{
    crate::label::lemma_label_size_range(b.label, scale, font, g);
    let ls = label_size_spec(b.label, scale, font, g);
    let wc = match b.options.width {
        Some(v) => v as int,
        None => ls.0 + 2 * (b.options.padding.x as int),
    };
    let hc = match b.options.height {
        Some(v) => v as int,
        None => ls.1 + 2 * (b.options.padding.y as int),
    };
    lemma_scale_len_range(wc, scale.x as int, 0xffff_ffff + 2 * (LEN_LIMIT as int));
    lemma_scale_len_range(hc, scale.y as int, 0xffff_ffff + 2 * (LEN_LIMIT as int));
    lemma_scale_len_range(2 * (b.options.margin.x as int), scale.x as int, 2 * (LEN_LIMIT as int));
    lemma_scale_len_range(2 * (b.options.margin.y as int), scale.y as int, 2 * (LEN_LIMIT as int));
}

/// A press strictly inside an unmargined button's measured box is
/// recorded exactly once when a click handler is registered; a press
/// strictly outside it is not recorded. (With a margin, the clickable
/// region is the content box, which the margin band of the measured box
/// lies outside of.)
pub proof fn lemma_button_press_once(
    b: Button,
    ox: int,
    oy: int,
    scale: Vector2,
    mp: Vector2,
    font: Seq<u8>,
    g: Globals,
)
    requires
        wf_button(b),
        scale_ok(scale),
        b.on_click is Some,
        b.options.margin.x == 0,
        b.options.margin.y == 0,
        crate::widget::off_ok_axis(ox, 1),
        crate::widget::off_ok_axis(oy, 1),
    ensures
        ({
            let s = button_size_spec(b, scale, font, g);
            let eff = button_event_effects(b, ox, oy, scale, GUIEvent::MousePressed(mp), font, g);
            &&& (ox < mp.x < ox + s.0 && oy < mp.y < oy + s.1) ==> eff.2.len() == 1
            &&& (mp.x < ox || mp.x > ox + s.0 || mp.y < oy || mp.y > oy + s.1) ==> eff.2.len()
                == 0
        }),
{
    lemma_button_size_range(b, scale, font, g);
    assert(scale_len_spec(0, scale.x as int) == 0) by (nonlinear_arith);
    assert(scale_len_spec(0, scale.y as int) == 0) by (nonlinear_arith);
}

impl Button {
    /// A button with the given text and default options, no click
    /// handler, and the hover flag down.
    pub fn new(text: &str) -> (b: Self)
        ensures
            b.text@ == text@,
            b.options == Self::spec_default_options(),
            b.on_click is None,
            b.label.text@ == text@,
            b.label.scale == 16,
            b.label.color == (Color { r: 255, g: 255, b: 255, a: 255 }),
            b.label.font == Font::LeagueSpartan,
            b.is_hovered == false,
            wf_button(b),
    {
        Self {
            text: text.to_owned(),
            options: ButtonOptions::default(),
            on_click: None,
            label: Label::new(text, 16),
            is_hovered: false,
        }
    }

    /// Replace every option at once; the internal label is rebuilt to
    /// match the new text color and font scale.
    pub fn with_options(self, options: ButtonOptions) -> (b: Self)
        ensures
            b.text == self.text,
            b.on_click == self.on_click,
            b.is_hovered == self.is_hovered,
            b.options == options,
            b.label.text@ == self.text@,
            b.label.color == options.text_color,
            b.label.font == options.font,
            b.label.scale == options.scale,
    {
        let label = Label {
            text: self.text.clone(),
            color: options.text_color,
            font: options.font,
            scale: options.scale,
        };
        Self { options, label, ..self }
    }

    pub fn with_color(self, color: Color) -> (b: Self)
        ensures
            b == (Self { options: ButtonOptions { color, ..self.options }, ..self }),
    {
        Self { options: ButtonOptions { color, ..self.options }, ..self }
    }

    pub fn with_hover_color(self, color: Color) -> (b: Self)
        ensures
            b == (Self { options: ButtonOptions { hover_color: color, ..self.options }, ..self }),
    {
        Self { options: ButtonOptions { hover_color: color, ..self.options }, ..self }
    }

    /// Set the text color; the internal label renders with it.
    pub fn with_text_color(self, color: Color) -> (b: Self)
        ensures
            b == (Self {
                options: ButtonOptions { text_color: color, ..self.options },
                label: Label { color, ..self.label },
                ..self
            }),
    {
        Self {
            options: ButtonOptions { text_color: color, ..self.options },
            label: Label { color, ..self.label },
            ..self
        }
    }

    pub fn with_font(self, font: Font) -> (b: Self)
        ensures
            b == (Self { options: ButtonOptions { font, ..self.options }, ..self }),
    {
        Self { options: ButtonOptions { font, ..self.options }, ..self }
    }

    /// Set the label's font scale in whole pixels.
    pub fn with_size(self, scale: i64) -> (b: Self)
        ensures
            b == (Self {
                options: ButtonOptions { scale, ..self.options },
                label: Label { scale, ..self.label },
                ..self
            }),
    {
        Self {
            options: ButtonOptions { scale, ..self.options },
            label: Label { scale, ..self.label },
            ..self
        }
    }

    /// Replace the text; the internal label is rebuilt with it.
    pub fn with_text(self, text: &str) -> (b: Self)
        ensures
            b.text@ == text@,
            b.options == self.options,
            b.on_click == self.on_click,
            b.is_hovered == self.is_hovered,
            b.label.text@ == text@,
            b.label.color == self.label.color,
            b.label.font == self.label.font,
            b.label.scale == self.label.scale,
    {
        let label = Label { text: text.to_owned(), ..self.label };
        Self { text: text.to_owned(), label, ..self }
    }

    pub fn with_padding(self, padding: Vector2) -> (b: Self)
        ensures
            b == (Self { options: ButtonOptions { padding, ..self.options }, ..self }),
    {
        Self { options: ButtonOptions { padding, ..self.options }, ..self }
    }

    pub fn with_margin(self, margin: Vector2) -> (b: Self)
        ensures
            b == (Self { options: ButtonOptions { margin, ..self.options }, ..self }),
    {
        Self { options: ButtonOptions { margin, ..self.options }, ..self }
    }

    /// Set the corner radius in thousandths of a pixel.
    pub fn with_radius(self, radius: i64) -> (b: Self)
        ensures
            b == (Self { options: ButtonOptions { radius, ..self.options }, ..self }),
    {
        Self { options: ButtonOptions { radius, ..self.options }, ..self }
    }

    pub fn with_width(self, width: i64) -> (b: Self)
        ensures
            b == (Self { options: ButtonOptions { width: Some(width), ..self.options }, ..self }),
    {
        Self { options: ButtonOptions { width: Some(width), ..self.options }, ..self }
    }

    pub fn with_height(self, height: i64) -> (b: Self)
        ensures
            b == (Self { options: ButtonOptions { height: Some(height), ..self.options }, ..self }),
    {
        Self { options: ButtonOptions { height: Some(height), ..self.options }, ..self }
    }

    /// Register the click handler the shell should run for this button.
    pub fn on_click(self, handler: u64) -> (b: Self)
        ensures
            b == (Self { on_click: Some(handler), ..self }),
    {
        Self { on_click: Some(handler), ..self }
    }

    /// Wrap the button as a widget tree node.
    pub fn build(self) -> (w: Widget)
        ensures
            w == Widget::Button(self),
    {
        Widget::Button(self)
    }

    /// Replace the text in place; the internal label is rebuilt with it.
    pub fn set_text(&mut self, text: &str)
        ensures
            final(self).text@ == text@,
            final(self).options == old(self).options,
            final(self).on_click == old(self).on_click,
            final(self).is_hovered == old(self).is_hovered,
            final(self).label.text@ == text@,
            final(self).label.color == old(self).label.color,
            final(self).label.font == old(self).label.font,
            final(self).label.scale == old(self).label.scale,
    {
        self.text = text.to_owned();
        let color = self.label.color;
        let font = self.label.font;
        let scale = self.label.scale;
        self.label = Label { text: text.to_owned(), color, font, scale };
    }

    /// Whether the pointer was inside the button's hit box at the last
    /// cursor move delivered to it.
    pub fn is_hovered(&self) -> (h: bool)
        ensures
            h == self.is_hovered,
    {
        self.is_hovered
    }

    /// The options `ButtonOptions::default` promises.
    pub open spec fn spec_default_options() -> ButtonOptions {
        ButtonOptions {
            color: Color { r: 0x1a, g: 0x6b, b: 0xf5, a: 255 },
            hover_color: Color { r: 0x1a, g: 0x6b, b: 0xf5, a: 127 },
            text_color: Color { r: 255, g: 255, b: 255, a: 255 },
            font: Font::LeagueSpartan,
            scale: 16,
            padding: Vector2 { x: 8, y: 5 },
            margin: Vector2 { x: 8, y: 5 },
            radius: 4000,
            width: None,
            height: None,
        }
    }

    /// The box the button would occupy drawn at `offset` with `scale`:
    /// corner at `offset`, extent content plus margins. No side effects
    /// on the paint queue.
    pub fn measure(&self, offset: Vector2, scale: Vector2, brush: &UniversalBrush, globals: &Globals) -> (bx: BBox)
        requires
            wf_button(*self),
            scale_ok(scale),
            off_ok(offset, 1),
        ensures
            bx.min == offset,
            bx.max.x == offset.x + button_size_spec(*self, scale, brush.font_data@, *globals).0,
            bx.max.y == offset.y + button_size_spec(*self, scale, brush.font_data@, *globals).1,
    {
        proof {
            lemma_button_size_range(*self, scale, brush.font_data@, *globals);
            crate::label::lemma_label_size_range(self.label, scale, brush.font_data@, *globals);
        }
        let lb = self.label.measure(offset, scale, brush, globals);
        let lw = lb.max.x - lb.min.x;
        let lh = lb.max.y - lb.min.y;
        let wc = match self.options.width {
            Some(v) => v,
            None => lw + 2 * self.options.padding.x,
        };
        let hc = match self.options.height {
            Some(v) => v,
            None => lh + 2 * self.options.padding.y,
        };
        let bw = scale_len(wc, scale.x) + scale_len(2 * self.options.margin.x, scale.x);
        let bh = scale_len(hc, scale.y) + scale_len(2 * self.options.margin.y, scale.y);
        BBox { min: offset, max: Vector2 { x: offset.x + bw, y: offset.y + bh } }
    }

    /// The button's hit box at `offset`: the content rectangle its
    /// background is painted over, pushed in by the scaled margin and
    /// without the margin in its extent.
    pub fn measure_hitbox(&self, offset: Vector2, scale: Vector2, brush: &UniversalBrush, globals: &Globals) -> (bx: BBox)
        requires
            wf_button(*self),
            scale_ok(scale),
            off_ok(offset, 1),
        ensures
            bx == button_hitbox_spec(
                *self,
                offset.x as int,
                offset.y as int,
                scale,
                brush.font_data@,
                *globals,
            ),
    {
        proof {
            lemma_button_size_range(*self, scale, brush.font_data@, *globals);
            crate::label::lemma_label_size_range(self.label, scale, brush.font_data@, *globals);
            lemma_scale_len_range(self.options.margin.x as int, scale.x as int, LEN_LIMIT as int);
            lemma_scale_len_range(self.options.margin.y as int, scale.y as int, LEN_LIMIT as int);
        }
        let ox = offset.x + scale_len(self.options.margin.x, scale.x);
        let oy = offset.y + scale_len(self.options.margin.y, scale.y);
        let inner = Vector2 { x: ox, y: oy };
        let lb = self.label.measure(inner, scale, brush, globals);
        let lw = lb.max.x - lb.min.x;
        let lh = lb.max.y - lb.min.y;
        let wc = match self.options.width {
            Some(v) => v,
            None => lw + 2 * self.options.padding.x,
        };
        let hc = match self.options.height {
            Some(v) => v,
            None => lh + 2 * self.options.padding.y,
        };
        let cw = scale_len(wc, scale.x);
        let ch = scale_len(hc, scale.y);
        BBox { min: inner, max: Vector2 { x: ox + cw, y: oy + ch } }
    }

    /// Queue the button's background quad and centered label, and return
    /// the same box `measure` returns for these arguments.
    pub fn draw(&self, offset: Vector2, scale: Vector2, brush: &mut UniversalBrush, globals: &Globals) -> (bx: BBox)
        requires
            wf_button(*self),
            scale_ok(scale),
            off_ok(offset, 1),
        ensures
            final(brush).queue@ == old(brush).queue@ + button_prims(
                *self,
                offset.x as int,
                offset.y as int,
                scale,
                old(brush).font_data@,
                *globals,
            ),
            final(brush).font_data@ == old(brush).font_data@,
            bx.min == offset,
            bx.max.x == offset.x + button_size_spec(*self, scale, old(brush).font_data@, *globals).0,
            bx.max.y == offset.y + button_size_spec(*self, scale, old(brush).font_data@, *globals).1,
    {
        proof {
            lemma_button_size_range(*self, scale, brush.font_data@, *globals);
            crate::label::lemma_label_size_range(self.label, scale, brush.font_data@, *globals);
            lemma_scale_len_range(self.options.margin.x as int, scale.x as int, LEN_LIMIT as int);
            lemma_scale_len_range(self.options.margin.y as int, scale.y as int, LEN_LIMIT as int);
        }
        let hit = self.measure_hitbox(offset, scale, brush, globals);
        let inner = hit.min;
        let lb = self.label.measure(inner, scale, brush, globals);
        let lw = lb.max.x - lb.min.x;
        let lh = lb.max.y - lb.min.y;
        let cw = hit.max.x - hit.min.x;
        let ch = hit.max.y - hit.min.y;
        let quad = Quad {
            top_left: hit.min,
            bottom_right: hit.max,
            color: if self.is_hovered {
                self.options.hover_color
            } else {
                self.options.color
            },
            border_radius: self.options.radius,
            border_color: Color::transparent(),
            border_width: 0,
        };
        let _submitted = brush.queue_quad_raw(quad);
        let dx = if cw >= lw {
            (cw - lw) / 2
        } else {
            -((lw - cw) / 2)
        };
        let dy = if ch >= lh {
            (ch - lh) / 2
        } else {
            -((lh - ch) / 2)
        };
        let lpos = Vector2 { x: inner.x + dx, y: inner.y + dy };
        let _label_box = self.label.draw(lpos, scale, brush, globals);
        proof {
            let ghost font = old(brush).font_data@;
            let ghost prims = button_prims(
                *self,
                offset.x as int,
                offset.y as int,
                scale,
                font,
                *globals,
            );
            assert(old(brush).queue@.push(prims[0]) + prims.drop_first() =~= old(brush).queue@
                + prims);
            assert(brush.queue@ =~= old(brush).queue@ + prims);
        }
        self.measure(offset, scale, brush, globals)
    }

    /// React to a pointer move: recompute the hit box, and where the
    /// hover state flips, flip the flag, ask for the matching cursor
    /// shape and request a redraw.
    fn handle_mouse_move(
        &mut self,
        host: &mut Host,
        brush: &UniversalBrush,
        offset: Vector2,
        scale: Vector2,
        mouse_position: Vector2,
        globals: &Globals,
    )
        requires
            wf_button(*old(self)),
            scale_ok(scale),
            off_ok(offset, 1),
        ensures
            *final(self) == button_after_event(
                *old(self),
                offset.x as int,
                offset.y as int,
                scale,
                GUIEvent::CursorMoved(mouse_position),
                brush.font_data@,
                *globals,
            ),
            ({
                let eff = button_event_effects(
                    *old(self),
                    offset.x as int,
                    offset.y as int,
                    scale,
                    GUIEvent::CursorMoved(mouse_position),
                    brush.font_data@,
                    *globals,
                );
                final(host).cursor_calls@ == old(host).cursor_calls@ + eff.0 && final(host).redraw_requested == (old(host).redraw_requested || eff.1) && final(host).clicks@
                    == old(host).clicks@ + eff.2
            }),
    {
        let ns = self.measure_hitbox(offset, scale, brush, globals).contains(mouse_position);
        if self.is_hovered != ns {
            self.is_hovered = ns;
            host.set_cursor_icon(
                if ns {
                    CursorIcon::Hand
                } else {
                    CursorIcon::Arrow
                },
            );
            host.request_redraw();
            proof {
                let ghost eff = button_event_effects(
                    *old(self),
                    offset.x as int,
                    offset.y as int,
                    scale,
                    GUIEvent::CursorMoved(mouse_position),
                    brush.font_data@,
                    *globals,
                );
                assert(old(host).cursor_calls@.push(eff.0[0]) =~= old(host).cursor_calls@ + eff.0);
                assert(old(host).clicks@ + eff.2 =~= old(host).clicks@);
            }
        } else {
            proof {
                assert(old(host).cursor_calls@ + Seq::<CursorIcon>::empty() =~= old(host).cursor_calls@);
                assert(old(host).clicks@ + Seq::<ButtonClickEvent>::empty() =~= old(host).clicks@);
            }
        }
    }

    /// React to a press: where a click handler is registered and the
    /// press lands inside the hit box, record exactly one click with the
    /// press position and its position relative to the layout offset.
    fn handle_mouse_click(
        &mut self,
        host: &mut Host,
        brush: &UniversalBrush,
        offset: Vector2,
        scale: Vector2,
        mouse_position: Vector2,
        globals: &Globals,
    )
        requires
            wf_button(*old(self)),
            scale_ok(scale),
            off_ok(offset, 1),
            -OFFSET_LIMIT <= mouse_position.x <= OFFSET_LIMIT,
            -OFFSET_LIMIT <= mouse_position.y <= OFFSET_LIMIT,
        ensures
            *final(self) == *old(self),
            ({
                let eff = button_event_effects(
                    *old(self),
                    offset.x as int,
                    offset.y as int,
                    scale,
                    GUIEvent::MousePressed(mouse_position),
                    brush.font_data@,
                    *globals,
                );
                final(host).cursor_calls@ == old(host).cursor_calls@ + eff.0 && final(host).redraw_requested == (old(host).redraw_requested || eff.1) && final(host).clicks@
                    == old(host).clicks@ + eff.2
            }),
    {
        proof {
            assert(old(host).cursor_calls@ + Seq::<CursorIcon>::empty() =~= old(host).cursor_calls@);
        }
        let tag = match self.on_click {
            Some(t) => t,
            None => {
                proof {
                    assert(old(host).clicks@ + Seq::<ButtonClickEvent>::empty() =~= old(host).clicks@);
                }
                return ;
            },
        };
        if self.measure_hitbox(offset, scale, brush, globals).contains(mouse_position) {
            let click = ButtonClickEvent {
                handler: tag,
                mouse_position,
                mouse_position_relative: Vector2 {
                    x: mouse_position.x - offset.x,
                    y: mouse_position.y - offset.y,
                },
            };
            host.record_click(click);
            proof {
                let ghost eff = button_event_effects(
                    *old(self),
                    offset.x as int,
                    offset.y as int,
                    scale,
                    GUIEvent::MousePressed(mouse_position),
                    brush.font_data@,
                    *globals,
                );
                assert(old(host).clicks@.push(eff.2[0]) =~= old(host).clicks@ + eff.2);
            }
        } else {
            proof {
                assert(old(host).clicks@ + Seq::<ButtonClickEvent>::empty() =~= old(host).clicks@);
            }
        }
    }

    /// Deliver one input event to the button: pointer moves drive the
    /// hover state, presses may record a click, releases are ignored.
    pub fn handle_event(
        &mut self,
        host: &mut Host,
        brush: &UniversalBrush,
        offset: Vector2,
        scale: Vector2,
        event: &GUIEvent,
        globals: &Globals,
    )
        requires
            wf_button(*old(self)),
            scale_ok(scale),
            off_ok(offset, 1),
            ev_ok(*event),
        ensures
            *final(self) == button_after_event(
                *old(self),
                offset.x as int,
                offset.y as int,
                scale,
                *event,
                brush.font_data@,
                *globals,
            ),
            ({
                let eff = button_event_effects(
                    *old(self),
                    offset.x as int,
                    offset.y as int,
                    scale,
                    *event,
                    brush.font_data@,
                    *globals,
                );
                final(host).cursor_calls@ == old(host).cursor_calls@ + eff.0 && final(host).redraw_requested == (old(host).redraw_requested || eff.1) && final(host).clicks@
                    == old(host).clicks@ + eff.2
            }),
    {
        match event {
            GUIEvent::CursorMoved(mp) => {
                self.handle_mouse_move(host, brush, offset, scale, *mp, globals);
            },
            GUIEvent::MousePressed(mp) => {
                self.handle_mouse_click(host, brush, offset, scale, *mp, globals);
            },
            GUIEvent::MouseReleased(_) => {
                proof {
                    assert(old(host).cursor_calls@ + Seq::<CursorIcon>::empty() =~= old(host).cursor_calls@);
                    assert(old(host).clicks@ + Seq::<ButtonClickEvent>::empty() =~= old(host).clicks@);
                }
            },
        }
    }
}

} // verus!
