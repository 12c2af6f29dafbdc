use bobsics_gui::Button;
use bobsics_gui::GUIEvent;
use bobsics_gui::Globals;
use bobsics_gui::Host;
use bobsics_gui::Label;
use bobsics_gui::Primitive;
use bobsics_gui::UniversalBrush;
use bobsics_gui::Vector2;
use bobsics_gui::VerticalStack;
use bobsics_gui::HorizontalStack;
use bobsics_gui::Widget;

fn surface() -> UniversalBrush {
    UniversalBrush::new(Vec::new())
}

fn globals() -> Globals {
    Globals { screen_size: (800, 600) }
}

fn unit() -> Vector2 {
    Vector2::unit_scale()
}

fn zero() -> Vector2 {
    Vector2::zero()
}

fn fixed_button(w: i64, h: i64) -> Button {
    Button::new("btn").with_width(w).with_height(h).with_margin(Vector2::zero())
}

#[test]
fn label_empty_text_measures_zero() {
    let brush = surface();
    let l = Label::new("", 15);
    let b = l.measure(Vector2::new(10, 20), unit(), &brush, &globals());
    assert_eq!(b.min, Vector2::new(10, 20));
    assert_eq!(b.max, Vector2::new(10, 20));
}

#[test]
fn label_draw_queues_one_text_run() {
    let mut brush = surface();
    let l = Label::new("hi", 15);
    let b = l.draw(Vector2::new(5, 6), unit(), &mut brush, &globals());
    let m = l.measure(Vector2::new(5, 6), unit(), &brush, &globals());
    assert_eq!(b, m);
    let prims = brush.drain();
    assert_eq!(prims.len(), 1);
    match &prims[0] {
        Primitive::Text(run) => {
            assert_eq!(run.position, Vector2::new(5, 6));
            assert_eq!(run.bounds, Vector2::new(800, 600));
            assert_eq!(run.text, "hi");
            assert_eq!(run.scale_px, 15);
        }
        other => panic!("expected a text run, got {other:?}"),
    }
}

#[test]
fn measure_is_idempotent() {
    let brush = surface();
    let b = fixed_button(120, 40);
    let m1 = b.measure(Vector2::new(7, 9), unit(), &brush, &globals());
    let m2 = b.measure(Vector2::new(7, 9), unit(), &brush, &globals());
    assert_eq!(m1, m2);
    let l = Label::new("text", 16);
    let lm1 = l.measure(zero(), unit(), &brush, &globals());
    let lm2 = l.measure(zero(), unit(), &brush, &globals());
    assert_eq!(lm1, lm2);
}

#[test]
fn button_measure_fixed_size() {
    let brush = surface();
    let b = fixed_button(200, 50);
    let m = b.measure(zero(), unit(), &brush, &globals());
    assert_eq!(m.min, Vector2::new(0, 0));
    assert_eq!(m.max, Vector2::new(200, 50));
}

#[test]
fn button_measure_includes_margin() {
    let brush = surface();
    let b = Button::new("btn").with_width(200).with_height(50);
    let m = b.measure(zero(), unit(), &brush, &globals());
    assert_eq!(m.max, Vector2::new(216, 60));
}

#[test]
fn button_measure_padding_around_text() {
    let brush = surface();
    let b = Button::new("hi")
        .with_padding(Vector2::new(8, 5))
        .with_margin(Vector2::new(8, 5));
    let m = b.measure(zero(), unit(), &brush, &globals());
    assert_eq!(m.max, Vector2::new(32, 20));
}

#[test]
fn button_draw_box_equals_measure_box() {
    let mut brush = surface();
    let b = Button::new("go").with_width(100).with_height(40);
    let drawn = b.draw(Vector2::new(3, 4), unit(), &mut brush, &globals());
    let measured = b.measure(Vector2::new(3, 4), unit(), &brush, &globals());
    assert_eq!(drawn, measured);
}

#[test]
fn button_scales_with_factor() {
    let brush = surface();
    let b = fixed_button(100, 40);
    let m = b.measure(zero(), Vector2::new(1500, 500), &brush, &globals());
    assert_eq!(m.max, Vector2::new(150, 20));
}

#[test]
fn button_press_inside_records_one_click() {
    let brush = surface();
    let mut b = fixed_button(100, 40).on_click(7);
    let mut host = Host::new();
    let ev = GUIEvent::MousePressed(Vector2::new(50, 20));
    b.handle_event(&mut host, &brush, zero(), unit(), &ev, &globals());
    assert_eq!(host.clicks.len(), 1);
    assert_eq!(host.clicks[0].handler, 7);
    assert_eq!(host.clicks[0].mouse_position, Vector2::new(50, 20));
    assert_eq!(host.clicks[0].mouse_position_relative, Vector2::new(50, 20));
}

#[test]
fn button_press_outside_records_nothing() {
    let brush = surface();
    let mut b = fixed_button(100, 40).on_click(7);
    let mut host = Host::new();
    let ev = GUIEvent::MousePressed(Vector2::new(200, 200));
    b.handle_event(&mut host, &brush, zero(), unit(), &ev, &globals());
    assert_eq!(host.clicks.len(), 0);
}

#[test]
fn button_press_without_handler_records_nothing() {
    let brush = surface();
    let mut b = fixed_button(100, 40);
    let mut host = Host::new();
    let ev = GUIEvent::MousePressed(Vector2::new(50, 20));
    b.handle_event(&mut host, &brush, zero(), unit(), &ev, &globals());
    assert_eq!(host.clicks.len(), 0);
}

#[test]
fn button_hover_flips_with_cursor() {
    let brush = surface();
    let mut b = fixed_button(100, 40);
    let mut host = Host::new();
    assert!(!b.is_hovered());
    let inside = GUIEvent::CursorMoved(Vector2::new(10, 10));
    b.handle_event(&mut host, &brush, zero(), unit(), &inside, &globals());
    assert!(b.is_hovered());
    assert!(host.redraw_requested);
    assert_eq!(host.cursor_calls, vec![bobsics_gui::CursorIcon::Hand]);
    let outside = GUIEvent::CursorMoved(Vector2::new(300, 300));
    b.handle_event(&mut host, &brush, zero(), unit(), &outside, &globals());
    assert!(!b.is_hovered());
    assert_eq!(
        host.cursor_calls,
        vec![bobsics_gui::CursorIcon::Hand, bobsics_gui::CursorIcon::Arrow]
    );
}

#[test]
fn hstack_measures_children_with_spacing() {
    let brush = surface();
    let stack = HorizontalStack::new()
        .with_spacing(Vector2::new(5, 5))
        .add_child(fixed_button(10, 40).build())
        .add_child(fixed_button(20, 60).build())
        .add_child(fixed_button(30, 50).build());
    let m = stack.measure(zero(), unit(), &brush, &globals());
    assert_eq!(m.min, Vector2::new(0, 0));
    assert_eq!(m.max, Vector2::new(70, 60));
}

#[test]
fn empty_stacks_measure_their_own_frame() {
    let brush = surface();
    let h = HorizontalStack::new().with_padding(Vector2::new(3, 4));
    let m = h.measure(zero(), unit(), &brush, &globals());
    assert_eq!(m.max, Vector2::new(6, 8));
    let v = VerticalStack::new();
    let mv = v.measure(zero(), unit(), &brush, &globals());
    assert_eq!(mv.max, Vector2::new(0, 0));
}

#[test]
fn empty_stack_spacing_leaves_no_debt() {
    let brush = surface();
    let h = HorizontalStack::new().with_spacing(Vector2::new(5, 5));
    let m = h.measure(zero(), unit(), &brush, &globals());
    assert_eq!(m.min, Vector2::new(0, 0));
    assert_eq!(m.max, Vector2::new(0, 0));
    let v = VerticalStack::new()
        .with_spacing(Vector2::new(0, 7))
        .with_margin(Vector2::new(2, 3));
    let mv = v.measure(zero(), unit(), &brush, &globals());
    assert_eq!(mv.max, Vector2::new(2, 3));
}

#[test]
fn single_child_stack_has_no_trailing_spacing() {
    let brush = surface();
    let h = HorizontalStack::new()
        .with_spacing(Vector2::new(5, 5))
        .add_child(fixed_button(10, 20).build());
    let m = h.measure(zero(), unit(), &brush, &globals());
    assert_eq!(m.max, Vector2::new(10, 20));
}

#[test]
fn vstack_measures_children_down() {
    let brush = surface();
    let stack = VerticalStack::new()
        .with_spacing(Vector2::new(0, 10))
        .add_child(fixed_button(100, 50).build())
        .add_child(fixed_button(60, 30).build());
    let m = stack.measure(zero(), unit(), &brush, &globals());
    assert_eq!(m.max, Vector2::new(100, 90));
}

#[test]
fn vstack_dispatch_hits_only_second_button() {
    let brush = surface();
    let mut widget = VerticalStack::new()
        .add_child(fixed_button(100, 50).build())
        .add_child(fixed_button(100, 50).build())
        .build();
    let mut host = Host::new();
    let ev = GUIEvent::CursorMoved(Vector2::new(50, 75));
    widget.handle_event(&mut host, &brush, zero(), unit(), &ev, &globals());
    match &widget {
        Widget::VerticalStack(st) => {
            match (&st.children[0], &st.children[1]) {
                (Widget::Button(first), Widget::Button(second)) => {
                    assert!(!first.is_hovered());
                    assert!(second.is_hovered());
                }
                _ => panic!("expected two buttons"),
            }
        }
        _ => panic!("expected a vertical stack"),
    }
}

#[test]
fn stack_draw_box_equals_measure_box() {
    let mut brush = surface();
    let stack = HorizontalStack::new()
        .with_spacing(Vector2::new(5, 5))
        .add_child(fixed_button(10, 40).build())
        .add_child(fixed_button(20, 60).build());
    let drawn = stack.draw(Vector2::new(2, 3), unit(), &mut brush, &globals());
    let measured = stack.measure(Vector2::new(2, 3), unit(), &brush, &globals());
    assert_eq!(drawn, measured);
}

#[test]
fn stack_draw_queues_children_in_order() {
    let mut brush = surface();
    let stack = VerticalStack::new()
        .add_child(fixed_button(100, 50).build())
        .add_child(fixed_button(100, 50).build())
        .build();
    stack.draw(zero(), unit(), &mut brush, &globals());
    let prims = brush.drain();
    assert_eq!(prims.len(), 4);
    match (&prims[0], &prims[1], &prims[2], &prims[3]) {
        (Primitive::Quad(q1), Primitive::Text(_), Primitive::Quad(q2), Primitive::Text(_)) => {
            assert_eq!(q1.top_left, Vector2::new(0, 0));
            assert_eq!(q2.top_left, Vector2::new(0, 50));
        }
        _ => panic!("expected quad/text/quad/text"),
    }
}

#[test]
fn widget_check_accepts_sane_trees() {
    let tree = VerticalStack::new()
        .add_child(Label::new("a", 15).build())
        .add_child(fixed_button(10, 10).build())
        .build();
    assert!(tree.check());
    assert_eq!(tree.count_nodes(), Some(3));
}

#[test]
fn widget_check_rejects_bad_lengths() {
    let bad = VerticalStack::new().with_padding(Vector2::new(-1, 0)).build();
    assert!(!bad.check());
    let huge = Label::new("a", 2_000_000).build();
    assert!(!huge.check());
}

#[test]
fn hover_flip_does_not_change_layout() {
    let brush = surface();
    let mut widget = VerticalStack::new()
        .add_child(fixed_button(100, 50).build())
        .add_child(fixed_button(100, 50).build())
        .build();
    let before = widget.measure(zero(), unit(), &brush, &globals());
    let mut host = Host::new();
    let ev = GUIEvent::CursorMoved(Vector2::new(50, 25));
    widget.handle_event(&mut host, &brush, zero(), unit(), &ev, &globals());
    let after = widget.measure(zero(), unit(), &brush, &globals());
    assert_eq!(before, after);
}

#[test]
fn set_text_rebuilds_label() {
    let mut b = Button::new("old");
    b.set_text("new");
    assert_eq!(b.text, "new");
    assert_eq!(b.label.text, "new");
}
