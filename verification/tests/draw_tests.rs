//! Tests that draw onto a real `raster::Image` and inspect the bytes.

use geometrical_shapes::bresenham::line_points;
use geometrical_shapes::geometrical_shapes::{
    Circle, Drawable, Line, Point, Rectangle, Triangle,
};
use raster::Image;

fn pixel(img: &Image, x: i32, y: i32) -> (u8, u8, u8, u8) {
    let c = img.get_pixel(x, y).unwrap();
    (c.r, c.g, c.b, c.a)
}

const BLANK: (u8, u8, u8, u8) = (0, 0, 0, 255);

/// All non-background pixels of an image, with their colors.
fn painted(img: &Image) -> Vec<(i32, i32, (u8, u8, u8, u8))> {
    let mut out = Vec::new();
    for y in 0..img.height {
        for x in 0..img.width {
            let c = pixel(img, x, y);
            if c != BLANK {
                out.push((x, y, c));
            }
        }
    }
    out
}

#[test]
fn point_draw_colored_sets_exactly_one_pixel() {
    let mut img = Image::blank(3, 3);
    Point::new(1, 1).draw_colored(&mut img, 9, 8, 7);
    assert_eq!(pixel(&img, 1, 1), (9, 8, 7, 255));
    let hits = painted(&img);
    assert_eq!(hits.len(), 1);
    assert_eq!(hits[0], (1, 1, (9, 8, 7, 255)));
}

#[test]
fn point_draw_random_color_is_opaque() {
    let mut img = Image::blank(3, 3);
    Point::new(2, 0).draw(&mut img);
    let c = pixel(&img, 2, 0);
    assert_eq!(c.3, 255);
}

#[test]
fn out_of_range_write_is_rejected_by_raster() {
    let mut img = Image::blank(3, 3);
    Point::new(5, 1).draw_colored(&mut img, 9, 8, 7);
    assert_eq!(painted(&img).len(), 0);
}

#[test]
fn negative_x_write_lands_in_previous_row() {
    // raster checks only the upper bounds and the sign of the byte
    // index, so x = -1 on row 1 writes the last pixel of row 0
    let mut img = Image::blank(3, 3);
    Point::new(-1, 1).draw_colored(&mut img, 9, 8, 7);
    assert_eq!(pixel(&img, 2, 0), (9, 8, 7, 255));
    assert_eq!(painted(&img).len(), 1);
}

#[test]
fn line_draw_colored_paints_the_path() {
    let mut img = Image::blank(8, 8);
    let l = Line::new(&Point::new(0, 0), &Point::new(5, 0));
    l.draw_colored(&mut img, 10, 20, 30);
    for x in 0..6 {
        assert_eq!(pixel(&img, x, 0), (10, 20, 30, 255));
    }
    assert_eq!(painted(&img).len(), 6);
}

#[test]
fn triangle_draw_uses_one_color_for_all_edges() {
    let mut img = Image::blank(16, 16);
    let t = Triangle::new(&Point::new(0, 0), &Point::new(10, 0), &Point::new(0, 10));
    t.draw(&mut img);
    let hits = painted(&img);
    assert!(!hits.is_empty());
    let first = hits[0].2;
    for &(_, _, c) in hits.iter() {
        assert_eq!(c, first);
    }
    assert_eq!(first.3, 255);
}

#[test]
fn triangle_draw_covers_all_three_edges() {
    let mut img = Image::blank(16, 16);
    let a = Point::new(0, 0);
    let b = Point::new(10, 0);
    let c = Point::new(0, 10);
    let t = Triangle::new(&a, &b, &c);
    t.draw_colored(&mut img, 1, 2, 3);
    let mut expected: Vec<(i32, i32)> = Vec::new();
    for (p, q) in [(a, b), (b, c), (c, a)] {
        for pt in line_points(&p, &q) {
            if !expected.contains(&(pt.x, pt.y)) {
                expected.push((pt.x, pt.y));
            }
        }
    }
    for &(x, y) in expected.iter() {
        assert_eq!(pixel(&img, x, y), (1, 2, 3, 255));
    }
    assert_eq!(painted(&img).len(), expected.len());
}

#[test]
fn rectangle_draw_paints_four_segments() {
    let mut img = Image::blank(8, 8);
    let r = Rectangle::new(&Point::new(0, 0), &Point::new(4, 4));
    r.draw_colored(&mut img, 5, 6, 7);
    // corners (0,0) and (4,4): the outline of the 5x5 box
    for i in 0..5 {
        assert_eq!(pixel(&img, i, 0), (5, 6, 7, 255));
        assert_eq!(pixel(&img, i, 4), (5, 6, 7, 255));
        assert_eq!(pixel(&img, 0, i), (5, 6, 7, 255));
        assert_eq!(pixel(&img, 4, i), (5, 6, 7, 255));
    }
    assert_eq!(painted(&img).len(), 16);
}

#[test]
fn rectangle_derives_first_corner_height_from_width() {
    // the first corner's vertical coordinate comes from point_a.x, so
    // corners (1,3) and (5,6) outline the box x in [1,5], y in [1,6]
    let mut img = Image::blank(10, 10);
    let r = Rectangle::new(&Point::new(1, 3), &Point::new(5, 6));
    r.draw_colored(&mut img, 5, 6, 7);
    let hits = painted(&img);
    for &(x, y, c) in hits.iter() {
        assert_eq!(c, (5, 6, 7, 255));
        assert!(1 <= x && x <= 5 && 1 <= y && y <= 6);
        assert!(x == 1 || x == 5 || y == 1 || y == 6);
    }
    assert_eq!(hits.len(), 2 * 5 + 2 * 6 - 4);
    assert_eq!(pixel(&img, 1, 1), (5, 6, 7, 255));
    assert_eq!(pixel(&img, 1, 3), (5, 6, 7, 255));
}

/// Center-relative boundary samples of a circle: angular steps of 0.1
/// degree from 0 to 360, inclusive of the final overshoot step.
fn circle_offsets(radius: i32) -> Vec<(i32, i32)> {
    let pi = std::f64::consts::PI;
    let mut offsets = Vec::new();
    let mut i: f64 = 0.;
    loop {
        let angle = i;
        let x = (radius as f64 * (angle * pi / 180.).cos()) as i32;
        let y = (radius as f64 * (angle * pi / 180.).sin()) as i32;
        offsets.push((x, y));
        i += 0.1;
        if i > 360. {
            break;
        }
    }
    offsets
}

#[test]
fn circle_radius_zero_paints_the_center() {
    let mut img = Image::blank(9, 9);
    let c = Circle::new(&Point::new(4, 4), 0);
    let offs = circle_offsets(c.radius);
    assert!(offs.iter().all(|&o| o == (0, 0)));
    c.draw_offsets_colored(&mut img, &offs, 1, 2, 3);
    assert_eq!(pixel(&img, 4, 4), (1, 2, 3, 255));
    assert_eq!(painted(&img).len(), 1);
}

#[test]
fn circle_draw_offsets_random_color_is_opaque_and_single() {
    let mut img = Image::blank(32, 32);
    let c = Circle::new(&Point::new(16, 16), 9);
    let offs = circle_offsets(c.radius);
    c.draw_offsets(&mut img, &offs);
    let hits = painted(&img);
    assert!(!hits.is_empty());
    let first = hits[0].2;
    for &(x, y, col) in hits.iter() {
        assert_eq!(col, first);
        // every painted pixel lies near the ring of radius 9
        let dx = x - 16;
        let dy = y - 16;
        let d2 = dx * dx + dy * dy;
        assert!(49 <= d2 && d2 <= 121);
    }
    assert_eq!(first.3, 255);
}
