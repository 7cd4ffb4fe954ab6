//! Tests for shape construction, random bounds, and the color source.

use geometrical_shapes::geometrical_shapes::{
    Circle, Drawable, Line, Point, Rectangle, Triangle,
};

#[test]
fn point_new_stores_coordinates() {
    let p = Point::new(-3, 11);
    assert_eq!(p.x, -3);
    assert_eq!(p.y, 11);
}

#[test]
fn point_random_stays_in_bounds() {
    for _ in 0..200 {
        let p = Point::random(10, 5);
        assert!(0 <= p.x && p.x < 10);
        assert!(0 <= p.y && p.y < 5);
    }
}

#[test]
fn point_random_unit_window_is_origin() {
    for _ in 0..20 {
        let p = Point::random(1, 1);
        assert_eq!((p.x, p.y), (0, 0));
    }
}

#[test]
fn point_random_varies() {
    let first = Point::random(1000, 1000);
    let all_same = (0..100).all(|_| {
        let p = Point::random(1000, 1000);
        (p.x, p.y) == (first.x, first.y)
    });
    assert!(!all_same);
}

#[test]
fn line_new_copies_endpoints() {
    let a = Point::new(1, 2);
    let b = Point::new(3, 4);
    let l = Line::new(&a, &b);
    assert_eq!((l.point_a.x, l.point_a.y), (1, 2));
    assert_eq!((l.point_b.x, l.point_b.y), (3, 4));
}

#[test]
fn line_random_stays_in_bounds() {
    for _ in 0..200 {
        let l = Line::random(8, 12);
        assert!(0 <= l.point_a.x && l.point_a.x < 8);
        assert!(0 <= l.point_a.y && l.point_a.y < 12);
        assert!(0 <= l.point_b.x && l.point_b.x < 8);
        assert!(0 <= l.point_b.y && l.point_b.y < 12);
    }
}

#[test]
fn triangle_new_copies_points() {
    let a = Point::new(0, 0);
    let b = Point::new(10, 0);
    let c = Point::new(0, 10);
    let t = Triangle::new(&a, &b, &c);
    assert_eq!((t.point_a.x, t.point_a.y), (0, 0));
    assert_eq!((t.point_b.x, t.point_b.y), (10, 0));
    assert_eq!((t.point_c.x, t.point_c.y), (0, 10));
}

#[test]
fn rectangle_new_keeps_corner_order() {
    let a = Point::new(9, 1);
    let b = Point::new(2, 6);
    let r = Rectangle::new(&a, &b);
    assert_eq!((r.point_a.x, r.point_a.y), (9, 1));
    assert_eq!((r.point_b.x, r.point_b.y), (2, 6));
}

#[test]
fn circle_new_keeps_radius_as_given() {
    let c = Circle::new(&Point::new(4, 4), -7);
    assert_eq!(c.radius, -7);
    assert_eq!((c.point.x, c.point.y), (4, 4));
}

#[test]
fn circle_random_stays_in_bounds() {
    for _ in 0..200 {
        let c = Circle::random(9, 14);
        assert!(0 <= c.point.x && c.point.x < 9);
        assert!(0 <= c.point.y && c.point.y < 14);
        assert!(0 <= c.radius && c.radius < 14);
    }
}

#[test]
fn colors_are_opaque() {
    for _ in 0..20 {
        assert_eq!(<Point as Drawable>::color().a, 255);
        assert_eq!(<Line as Drawable>::color().a, 255);
        assert_eq!(<Triangle as Drawable>::color().a, 255);
        assert_eq!(<Rectangle as Drawable>::color().a, 255);
        assert_eq!(Circle::color().a, 255);
    }
}

#[test]
fn colors_vary() {
    let first = <Line as Drawable>::color();
    let all_same = (0..64).all(|_| {
        let c = <Line as Drawable>::color();
        (c.r, c.g, c.b) == (first.r, first.g, first.b)
    });
    assert!(!all_same);
}
