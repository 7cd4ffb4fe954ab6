//! Tests for the line rasterizer's pixel paths.

use geometrical_shapes::bresenham::line_points;
use geometrical_shapes::geometrical_shapes::Point;

fn path(ax: i32, ay: i32, bx: i32, by: i32) -> Vec<(i32, i32)> {
    let a = Point::new(ax, ay);
    let b = Point::new(bx, by);
    line_points(&a, &b).iter().map(|p| (p.x, p.y)).collect()
}

#[test]
fn horizontal_line_exact_pixels_in_order() {
    assert_eq!(path(0, 0, 5, 0), vec![(0, 0), (1, 0), (2, 0), (3, 0), (4, 0), (5, 0)]);
}

#[test]
fn degenerate_line_writes_one_pixel() {
    assert_eq!(path(3, 7, 3, 7), vec![(3, 7)]);
    assert_eq!(path(0, 0, 0, 0), vec![(0, 0)]);
    assert_eq!(path(-4, 9, -4, 9), vec![(-4, 9)]);
}

#[test]
fn octant_reflection_pixel_counts() {
    // (0,0)->(5,3) and its reflection (0,0)->(3,5): max(dx,dy)+1 pixels each
    assert_eq!(path(0, 0, 5, 3).len(), 6);
    assert_eq!(path(0, 0, 3, 5).len(), 6);
}

#[test]
fn all_octants_count_and_endpoints() {
    let cases = [
        (0, 0, 7, 2),
        (0, 0, -7, 2),
        (0, 0, 7, -2),
        (0, 0, -7, -2),
        (0, 0, 2, 7),
        (0, 0, -2, 7),
        (0, 0, 2, -7),
        (0, 0, -2, -7),
    ];
    for &(ax, ay, bx, by) in cases.iter() {
        let p = path(ax, ay, bx, by);
        let dx = (bx - ax).abs();
        let dy = (by - ay).abs();
        assert_eq!(p.len() as i32, dx.max(dy) + 1);
        assert_eq!(p[0], (ax, ay));
        assert_eq!(*p.last().unwrap(), (bx, by));
    }
}

#[test]
fn paths_are_continuous() {
    let cases = [(0, 0, 5, 3), (0, 0, 3, 5), (2, -1, -9, 4), (1, 1, 1, -8), (-3, -3, 4, 4)];
    for &(ax, ay, bx, by) in cases.iter() {
        let p = path(ax, ay, bx, by);
        for w in p.windows(2) {
            assert!((w[1].0 - w[0].0).abs() <= 1);
            assert!((w[1].1 - w[0].1).abs() <= 1);
        }
    }
}

#[test]
fn even_diagonal_alternates_axes() {
    // a diagonal of even offset steps one axis at a time: 2*d + 1 pixels
    assert_eq!(path(0, 0, 2, 2), vec![(0, 0), (0, 1), (1, 1), (1, 2), (2, 2)]);
    assert_eq!(path(0, 0, 4, 4).len(), 9);
}

#[test]
fn odd_diagonal_moves_both_axes() {
    assert_eq!(path(0, 0, 3, 3), vec![(0, 0), (1, 1), (2, 2), (3, 3)]);
}
