use bobsics_gui::BBox;
use bobsics_gui::ButtonClickEvent;
use bobsics_gui::Color;
use bobsics_gui::CursorIcon;
use bobsics_gui::Host;
use bobsics_gui::Primitive;
use bobsics_gui::Quad;
use bobsics_gui::TextRun;
use bobsics_gui::UniversalBrush;
use bobsics_gui::Vector2;

fn sample_quad() -> Quad {
    Quad {
        top_left: Vector2::new(1, 2),
        bottom_right: Vector2::new(30, 40),
        color: Color::from_hex(0x112233),
        border_radius: 4000,
        border_color: Color::transparent(),
        border_width: 0,
    }
}

fn sample_text() -> TextRun {
    TextRun {
        position: Vector2::new(5, 6),
        bounds: Vector2::new(800, 600),
        text: String::from("hello"),
        color: Color::white(),
        scale_px: 16,
    }
}

#[test]
fn new_surface_is_empty() {
    let mut s = UniversalBrush::new(Vec::new());
    assert_eq!(s.drain().len(), 0);
}

#[test]
fn submission_order_is_paint_order() {
    let mut s = UniversalBrush::new(Vec::new());
    s.queue_quad_raw(sample_quad()).unwrap();
    s.queue_text_raw(sample_text()).unwrap();
    let prims = s.drain();
    assert_eq!(prims.len(), 2);
    assert_eq!(prims[0], Primitive::Quad(sample_quad()));
    assert_eq!(prims[1], Primitive::Text(sample_text()));
    assert_eq!(s.drain().len(), 0);
}

#[test]
fn measure_empty_text_is_zero() {
    let s = UniversalBrush::new(Vec::new());
    assert_eq!(s.measure("", 16, Vector2::new(800, 600)), (0, 0));
}

#[test]
fn measure_with_unparseable_font_is_zero() {
    let s = UniversalBrush::new(vec![1, 2, 3]);
    assert_eq!(s.measure("hello", 16, Vector2::new(800, 600)), (0, 0));
}

#[test]
fn bbox_draw_queues_outline() {
    let mut s = UniversalBrush::new(Vec::new());
    let b = BBox::new(Vector2::new(10, 10), Vector2::new(20, 30));
    b.draw(Vector2::new(1, 2), &mut s, Color::white()).unwrap();
    let prims = s.drain();
    assert_eq!(prims.len(), 1);
    assert_eq!(
        prims[0],
        Primitive::Quad(Quad {
            top_left: Vector2::new(11, 12),
            bottom_right: Vector2::new(21, 32),
            color: Color::transparent(),
            border_radius: 0,
            border_color: Color::white(),
            border_width: 1500,
        })
    );
}

#[test]
fn host_records_requests_in_order() {
    let mut h = Host::new();
    assert!(!h.redraw_requested);
    assert_eq!(h.cursor_calls.len(), 0);
    assert_eq!(h.clicks.len(), 0);
    h.set_cursor_icon(CursorIcon::Hand);
    h.set_cursor_icon(CursorIcon::Arrow);
    h.request_redraw();
    h.record_click(ButtonClickEvent {
        handler: 9,
        mouse_position: Vector2::new(3, 4),
        mouse_position_relative: Vector2::new(1, 1),
    });
    assert_eq!(h.cursor_calls, vec![CursorIcon::Hand, CursorIcon::Arrow]);
    assert!(h.redraw_requested);
    assert_eq!(h.clicks.len(), 1);
    assert_eq!(h.clicks[0].handler, 9);
}
