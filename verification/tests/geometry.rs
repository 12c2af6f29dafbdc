use bobsics_gui::BBox;
use bobsics_gui::Color;
use bobsics_gui::Vector2;
use bobsics_gui::compute_scale_factor;
use bobsics_gui::scale_len;

#[test]
fn vector2_constructors() {
    let v = Vector2::new(3, 4);
    assert_eq!(v.x, 3);
    assert_eq!(v.y, 4);
    let s = Vector2::from_scalar(7);
    assert_eq!(s, Vector2::new(7, 7));
    assert_eq!(Vector2::zero(), Vector2::new(0, 0));
    assert_eq!(Vector2::unit(), Vector2::new(1, 1));
    assert_eq!(Vector2::unit_scale(), Vector2::new(1000, 1000));
}

#[test]
fn vector2_from_conversions() {
    assert_eq!(Vector2::from((3, 4)), Vector2::new(3, 4));
    assert_eq!(Vector2::from([5, 6]), Vector2::new(5, 6));
    assert_eq!(Vector2::from(9), Vector2::new(9, 9));
    let v: Vector2 = (1, 2).into();
    assert_eq!(v, Vector2::new(1, 2));
}

#[test]
fn vector2_add_sub_cancels() {
    let a = Vector2::new(12, -7);
    let b = Vector2::new(45, 100);
    assert_eq!(a.add(b).sub(b), a);
    let c = Vector2::new(-3, 0);
    assert_eq!(c.add(a).sub(a), c);
}

#[test]
fn vector2_mul_div() {
    assert_eq!(Vector2::new(3, 4).mul(Vector2::new(5, 6)), Vector2::new(15, 24));
    assert_eq!(Vector2::new(3, -4).mul_scalar(10), Vector2::new(30, -40));
    assert_eq!(Vector2::new(7, -7).div(Vector2::new(2, 2)), Vector2::new(3, -3));
    assert_eq!(Vector2::new(9, -10).div_scalar(3), Vector2::new(3, -3));
}

#[test]
fn vector2_len_floor() {
    assert_eq!(Vector2::new(3, 4).len(), 5);
    assert_eq!(Vector2::new(0, 0).len(), 0);
    assert_eq!(Vector2::new(1, 1).len(), 1);
    assert_eq!(Vector2::new(2, 3).len(), 3);
    assert_eq!(Vector2::new(-3, -4).len(), 5);
}

#[test]
fn floor_sqrt_values() {
    assert_eq!(bobsics_gui::floor_sqrt(0), 0);
    assert_eq!(bobsics_gui::floor_sqrt(1), 1);
    assert_eq!(bobsics_gui::floor_sqrt(15), 3);
    assert_eq!(bobsics_gui::floor_sqrt(16), 4);
    assert_eq!(bobsics_gui::floor_sqrt(i64::MAX), 3037000499);
}

#[test]
fn scale_len_thousandths() {
    assert_eq!(scale_len(10, 1500), 15);
    assert_eq!(scale_len(7, 500), 3);
    assert_eq!(scale_len(10, 1000), 10);
    assert_eq!(scale_len(0, 999999), 0);
}

#[test]
fn vector2_scale_by() {
    let v = Vector2::new(10, 20);
    assert_eq!(v.scale_by(Vector2::new(1500, 500)), Vector2::new(15, 10));
    assert_eq!(v.scale_by(Vector2::unit_scale()), v);
}

#[test]
fn bbox_from_wh_roundtrip() {
    let b = BBox::new(Vector2::new(3, 4), Vector2::new(10, 12));
    assert_eq!(b.size(), Vector2::new(7, 8));
    assert_eq!(BBox::from_wh(b.min, b.size()), b);
}

#[test]
fn bbox_contains_corners() {
    let b = BBox::new(Vector2::new(-5, 2), Vector2::new(9, 11));
    assert!(b.contains(b.min));
    assert!(b.contains(b.max));
    assert!(b.contains(Vector2::new(0, 5)));
    assert!(!b.contains(Vector2::new(10, 5)));
    assert!(!b.contains(Vector2::new(0, 1)));
}

#[test]
fn bbox_dimensions() {
    let b = BBox::new(Vector2::new(0, 0), Vector2::new(10, 10));
    assert_eq!(b.width(), 10);
    assert_eq!(b.height(), 10);
    assert_eq!(b.center(), Vector2::new(5, 5));
    let n = BBox::new(Vector2::new(-10, -10), Vector2::new(5, 5));
    assert_eq!(n.center(), Vector2::new(-2, -2));
}

#[test]
fn bbox_tuple_roundtrip() {
    let t = (3, 4, 7, 8);
    let b = BBox::from_tuple(t);
    assert_eq!(b.min, Vector2::new(3, 4));
    assert_eq!(b.max, Vector2::new(10, 12));
    assert_eq!(b.to_tuple(), t);
    let b2 = BBox::new(Vector2::new(-1, -2), Vector2::new(4, 4));
    assert_eq!(BBox::from_tuple(b2.to_tuple()), b2);
}

#[test]
fn scale_factor_from_window() {
    assert_eq!(compute_scale_factor((2400, 1400), (1200, 700)), Vector2::new(2000, 2000));
    assert_eq!(compute_scale_factor((600, 350), (1200, 700)), Vector2::new(500, 500));
    assert_eq!(compute_scale_factor((1200, 700), (1200, 700)), Vector2::new(1000, 1000));
}

#[test]
fn color_from_hex() {
    let c = Color::from_hex(0x1a6bf5);
    assert_eq!(c.r(), 0x1a);
    assert_eq!(c.g(), 0x6b);
    assert_eq!(c.b(), 0xf5);
    assert_eq!(c.a(), 255);
    let d = c.with_alpha(128);
    assert_eq!(d.r(), 0x1a);
    assert_eq!(d.a(), 128);
}

#[test]
fn color_constants() {
    assert_eq!(Color::white(), Color::from_rgba(255, 255, 255, 255));
    assert_eq!(Color::black(), Color::from_rgba(0, 0, 0, 255));
    assert_eq!(Color::transparent(), Color::from_rgba(0, 0, 0, 0));
}
