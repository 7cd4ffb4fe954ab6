//! The shape value types and their drawing capability.
//!
//! Every shape is an immutable value built from `Point`s.  Drawing a
//! shape samples one fresh random color for the whole call and writes
//! the shape's pixel path, in order, onto a `raster::Image`; the exact
//! bytes written are pinned by the contracts through the byte model in
//! [`crate::canvas`].

use vstd::prelude::*;

use crate::bresenham::{lemma_line_path_in_box, line_path, line_points};
use crate::canvas::{draw_path, img_ok, lemma_spec_draw_concat, pixel_ok, spec_draw};
use crate::rng::sample_range;

verus! {

/// A 2-D integer coordinate.  Its view is the pair of its coordinates
/// as mathematical integers.
#[derive(Clone, Copy, Debug, PartialEq, Eq, Structural)]
pub struct Point {
    pub x: i32,
    pub y: i32,
}

impl View for Point {
    type V = (int, int);

    open spec fn view(&self) -> (int, int) {
        (self.x as int, self.y as int)
    }
}

/// A segment between two points; the endpoints may coincide, in which
/// case the line covers a single pixel.
pub struct Line {
    pub point_a: Point,
    pub point_b: Point,
}

/// Three corner points; no non-degeneracy is required.
pub struct Triangle {
    pub point_a: Point,
    pub point_b: Point,
    pub point_c: Point,
}

/// Two opposite corners of an axis-aligned rectangle.
pub struct Rectangle {
    pub point_a: Point,
    pub point_b: Point,
}

/// A center point and a radius; the radius is stored as given, even
/// when negative.
pub struct Circle {
    pub point: Point,
    pub radius: i32,
}

/// Three independent uniform channels for a fresh color.
fn random_channels() -> (c: (u8, u8, u8)) {
    let r: i32 = sample_range(0, 256);
    let g: i32 = sample_range(0, 256);
    let b: i32 = sample_range(0, 256);
    (r as u8, g as u8, b as u8)
}

/// A freshly randomized, fully opaque color.
fn random_color() -> (c: raster::Color)
    ensures
        c.a == 255,
{
    let ch = random_channels();
    raster::Color::rgba(ch.0, ch.1, ch.2, 255)
}

/// The drawing capability: a shape knows the pixels it covers and can
/// write them onto an image with a fresh random color.
pub trait Drawable {
    /// The pixels the shape covers, in the order they are written.
    spec fn path(&self) -> Seq<(int, int)>;

    /// The shape's coordinates are small enough for the rasterizer and
    /// for raster's pixel-index arithmetic.
    spec fn fits(&self) -> bool;

    /// Draw the shape: one fresh color for the whole call, fully
    /// opaque, one pixel write per covered point, in path order.
    fn draw(&self, img: &mut raster::Image)
        requires
            img_ok(*old(img)),
            self.fits(),
        ensures
            img_ok(*final(img)),
            final(img).width == old(img).width,
            final(img).height == old(img).height,
            exists|c: (u8, u8, u8)|
                final(img).bytes@ == spec_draw(
                    old(img).bytes@,
                    old(img).width as int,
                    old(img).height as int,
                    self.path(),
                    (c.0, c.1, c.2, 255),
                ),
    ;

    /// A freshly randomized color with full opacity.
    fn color() -> (c: raster::Color)
        ensures
            c.a == 255,
    ;
}

/// The display capability of an image-like surface: write one pixel of
/// the given color at the given spot.
pub trait Displayable {
    fn display(&mut self, x: i32, y: i32, color: raster::Color);
}

/// Draw the discrete line from `a` to `b` onto `image` in the given
/// color: the shared rasterizer entry point used by every composite
/// shape.  It writes exactly `line_path(a@, b@)`, without pre-filtering
/// out-of-range pixels.
pub fn draw_line(image: &mut raster::Image, a: &Point, b: &Point, colour: &raster::Color)
    requires
        img_ok(*old(image)),
        pixel_ok(a@),
        pixel_ok(b@),
    ensures
        img_ok(*final(image)),
        final(image).width == old(image).width,
        final(image).height == old(image).height,
        final(image).bytes@ == spec_draw(
            old(image).bytes@,
            old(image).width as int,
            old(image).height as int,
            line_path(a@, b@),
            (colour.r, colour.g, colour.b, colour.a),
        ),
{
    let pts = line_points(a, b);
    proof {
        assert forall|j: int| 0 <= j < pts@.len() implies pixel_ok(#[trigger] pts@[j]@) by {
            lemma_line_path_in_box(a@, b@, j);
        }
        assert(pts@.map_values(|p: Point| p@) =~= line_path(a@, b@));
    }
    draw_path(image, &pts, colour.r, colour.g, colour.b, colour.a);
}

impl Point {
    pub fn new(x: i32, y: i32) -> (p: Self)
        ensures
            p@ == (x as int, y as int),
    {
        Self { x, y }
    }

    /// Both coordinates drawn independently and uniformly from
    /// `[0, x) x [0, y)`; an empty range would make the sampler panic,
    /// so the bounds must be positive.
    pub fn random(x: i32, y: i32) -> (p: Self)
        requires
            1 <= x,
            1 <= y,
        ensures
            0 <= p.x < x,
            0 <= p.y < y,
    {
        let rng_x = sample_range(0, x);
        let rng_y = sample_range(0, y);
        Self { x: rng_x, y: rng_y }
    }

    /// Write this point's single pixel in the given channels, fully
    /// opaque.
    pub fn draw_colored(&self, img: &mut raster::Image, r: u8, g: u8, b: u8)
        requires
            img_ok(*old(img)),
            pixel_ok(self@),
        ensures
            img_ok(*final(img)),
            final(img).width == old(img).width,
            final(img).height == old(img).height,
            final(img).bytes@ == spec_draw(
                old(img).bytes@,
                old(img).width as int,
                old(img).height as int,
                seq![self@],
                (r, g, b, 255),
            ),
    {
        let pts = vec![*self];
        proof {
            assert(pts@.map_values(|p: Point| p@) =~= seq![self@]);
        }
        draw_path(img, &pts, r, g, b, 255);
    }
}

impl Drawable for Point {
    open spec fn path(&self) -> Seq<(int, int)> {
        seq![self@]
    }

    open spec fn fits(&self) -> bool {
        pixel_ok(self@)
    }

    fn draw(&self, img: &mut raster::Image) {
        let c = random_channels();
        self.draw_colored(img, c.0, c.1, c.2);
        proof {
            assert(img.bytes@ == spec_draw(
                old(img).bytes@,
                old(img).width as int,
                old(img).height as int,
                self.path(),
                (c.0, c.1, c.2, 255),
            ));
        }
    }

    fn color() -> (c: raster::Color) {
        random_color()
    }
}

impl Line {
    pub fn new(point_a: &Point, point_b: &Point) -> (l: Self)
        ensures
            l.point_a == *point_a,
            l.point_b == *point_b,
    {
        Self { point_a: *point_a, point_b: *point_b }
    }

    /// Both endpoints drawn independently within `[0, x) x [0, y)`; the
    /// result may be a degenerate zero-length line.
    pub fn random(x: i32, y: i32) -> (l: Self)
        requires
            1 <= x,
            1 <= y,
        ensures
            0 <= l.point_a.x < x,
            0 <= l.point_a.y < y,
            0 <= l.point_b.x < x,
            0 <= l.point_b.y < y,
    {
        let rng_x = sample_range(0, x);
        let rng_y = sample_range(0, y);
        let rng_x2 = sample_range(0, x);
        let rng_y2 = sample_range(0, y);
        Self {
            point_a: Point { x: rng_x, y: rng_y },
            point_b: Point { x: rng_x2, y: rng_y2 },
        }
    }

    /// Rasterize and write this line's pixels in the given channels,
    /// fully opaque.
    pub fn draw_colored(&self, img: &mut raster::Image, r: u8, g: u8, b: u8)
        requires
            img_ok(*old(img)),
            pixel_ok(self.point_a@),
            pixel_ok(self.point_b@),
        ensures
            img_ok(*final(img)),
            final(img).width == old(img).width,
            final(img).height == old(img).height,
            final(img).bytes@ == spec_draw(
                old(img).bytes@,
                old(img).width as int,
                old(img).height as int,
                line_path(self.point_a@, self.point_b@),
                (r, g, b, 255),
            ),
    {
        let colour = raster::Color::rgba(r, g, b, 255);
        draw_line(img, &self.point_a, &self.point_b, &colour);
    }
}

impl Drawable for Line {
    open spec fn path(&self) -> Seq<(int, int)> {
        line_path(self.point_a@, self.point_b@)
    }

    open spec fn fits(&self) -> bool {
        pixel_ok(self.point_a@) && pixel_ok(self.point_b@)
    }

    fn draw(&self, img: &mut raster::Image) {
        let c = random_channels();
        self.draw_colored(img, c.0, c.1, c.2);
        proof {
            assert(img.bytes@ == spec_draw(
                old(img).bytes@,
                old(img).width as int,
                old(img).height as int,
                self.path(),
                (c.0, c.1, c.2, 255),
            ));
        }
    }

    fn color() -> (c: raster::Color) {
        random_color()
    }
}

impl Triangle {
    pub fn new(point_a: &Point, point_b: &Point, point_c: &Point) -> (t: Self)
        ensures
            t.point_a == *point_a,
            t.point_b == *point_b,
            t.point_c == *point_c,
    {
        Self { point_a: *point_a, point_b: *point_b, point_c: *point_c }
    }

    /// Outline the triangle: the three edges in order, all in the given
    /// channels, fully opaque.
    pub fn draw_colored(&self, img: &mut raster::Image, r: u8, g: u8, b: u8)
        requires
            img_ok(*old(img)),
            pixel_ok(self.point_a@),
            pixel_ok(self.point_b@),
            pixel_ok(self.point_c@),
        ensures
            img_ok(*final(img)),
            final(img).width == old(img).width,
            final(img).height == old(img).height,
            final(img).bytes@ == spec_draw(
                old(img).bytes@,
                old(img).width as int,
                old(img).height as int,
                line_path(self.point_a@, self.point_b@) + line_path(self.point_b@, self.point_c@)
                    + line_path(self.point_c@, self.point_a@),
                (r, g, b, 255),
            ),
    {
        let ghost w = old(img).width as int;
        let ghost h = old(img).height as int;
        let ghost b0 = old(img).bytes@;
        let ghost p1 = line_path(self.point_a@, self.point_b@);
        let ghost p2 = line_path(self.point_b@, self.point_c@);
        let ghost p3 = line_path(self.point_c@, self.point_a@);
        let colour = raster::Color::rgba(r, g, b, 255);
        draw_line(img, &self.point_a, &self.point_b, &colour);
        draw_line(img, &self.point_b, &self.point_c, &colour);
        draw_line(img, &self.point_c, &self.point_a, &colour);
        proof {
            lemma_spec_draw_concat(b0, w, h, p1, p2, (r, g, b, 255));
            lemma_spec_draw_concat(b0, w, h, p1 + p2, p3, (r, g, b, 255));
        }
    }
}

impl Drawable for Triangle {
    open spec fn path(&self) -> Seq<(int, int)> {
        line_path(self.point_a@, self.point_b@) + line_path(self.point_b@, self.point_c@)
            + line_path(self.point_c@, self.point_a@)
    }

    open spec fn fits(&self) -> bool {
        pixel_ok(self.point_a@) && pixel_ok(self.point_b@) && pixel_ok(self.point_c@)
    }

    fn draw(&self, img: &mut raster::Image) {
        let c = random_channels();
        self.draw_colored(img, c.0, c.1, c.2);
        proof {
            assert(img.bytes@ == spec_draw(
                old(img).bytes@,
                old(img).width as int,
                old(img).height as int,
                self.path(),
                (c.0, c.1, c.2, 255),
            ));
        }
    }

    fn color() -> (c: raster::Color) {
        random_color()
    }
}

impl Rectangle {
    pub fn new(point_a: &Point, point_b: &Point) -> (rect: Self)
        ensures
            rect.point_a == *point_a,
            rect.point_b == *point_b,
    {
        Self { point_a: *point_a, point_b: *point_b }
    }

    /// The four derived corners.  The first corner's vertical
    /// coordinate is taken from `point_a.x`, not `point_a.y`: a quirk
    /// of this drawing tool, kept deliberately as documented behavior.
    pub open spec fn corners(&self) -> ((int, int), (int, int), (int, int), (int, int)) {
        let x0 = self.point_a.x as int;
        let x1 = self.point_b.x as int;
        let y0 = self.point_a.x as int;
        let y1 = self.point_b.y as int;
        ((x0, y0), (x1, y1), (x0, y1), (x1, y0))
    }

    /// Outline the quadrilateral through the four derived corners, all
    /// edges in the given channels, fully opaque.
    pub fn draw_colored(&self, img: &mut raster::Image, r: u8, g: u8, b: u8)
        requires
            img_ok(*old(img)),
            pixel_ok(self.corners().0),
            pixel_ok(self.corners().1),
        ensures
            img_ok(*final(img)),
            final(img).width == old(img).width,
            final(img).height == old(img).height,
            final(img).bytes@ == spec_draw(
                old(img).bytes@,
                old(img).width as int,
                old(img).height as int,
                rect_path(*self),
                (r, g, b, 255),
            ),
    {
        let x0: i32 = self.point_a.x;
        let x1: i32 = self.point_b.x;
        // vertical coordinate from `point_a.x`: see `corners`
        let y0: i32 = self.point_a.x;
        let y1: i32 = self.point_b.y;
        let point_a = Point { x: x0, y: y0 };
        let point_b = Point { x: x1, y: y1 };
        let point_ab = Point { x: x0, y: y1 };
        let point_ba = Point { x: x1, y: y0 };
        let ghost w = old(img).width as int;
        let ghost h = old(img).height as int;
        let ghost b0 = old(img).bytes@;
        let ghost p1 = line_path(point_a@, point_ab@);
        let ghost p2 = line_path(point_ab@, point_b@);
        let ghost p3 = line_path(point_b@, point_ba@);
        let ghost p4 = line_path(point_ba@, point_a@);
        let colour = raster::Color::rgba(r, g, b, 255);
        draw_line(img, &point_a, &point_ab, &colour);
        draw_line(img, &point_ab, &point_b, &colour);
        draw_line(img, &point_b, &point_ba, &colour);
        draw_line(img, &point_ba, &point_a, &colour);
        proof {
            lemma_spec_draw_concat(b0, w, h, p1, p2, (r, g, b, 255));
            lemma_spec_draw_concat(b0, w, h, p1 + p2, p3, (r, g, b, 255));
            lemma_spec_draw_concat(b0, w, h, p1 + p2 + p3, p4, (r, g, b, 255));
        }
    }
}

/// The pixel path of a rectangle outline: the four edges between the
/// derived corners, in draw order.
pub open spec fn rect_path(rect: Rectangle) -> Seq<(int, int)> {
    let c = rect.corners();
    line_path(c.0, c.2) + line_path(c.2, c.1) + line_path(c.1, c.3) + line_path(c.3, c.0)
}

impl Drawable for Rectangle {
    open spec fn path(&self) -> Seq<(int, int)> {
        rect_path(*self)
    }

    open spec fn fits(&self) -> bool {
        pixel_ok(self.corners().0) && pixel_ok(self.corners().1)
    }

    fn draw(&self, img: &mut raster::Image) {
        let c = random_channels();
        self.draw_colored(img, c.0, c.1, c.2);
        proof {
            assert(img.bytes@ == spec_draw(
                old(img).bytes@,
                old(img).width as int,
                old(img).height as int,
                self.path(),
                (c.0, c.1, c.2, 255),
            ));
        }
    }

    fn color() -> (c: raster::Color) {
        random_color()
    }
}

impl Circle {
    pub fn new(point: &Point, radius: i32) -> (c: Self)
        ensures
            c.point == *point,
            c.radius == radius,
    {
        Self { point: *point, radius }
    }

    /// Center uniform in `[0, width) x [0, height)` and radius uniform
    /// in `[0, height)` — the radius shares the height bound, so it can
    /// exceed the width; a simplification of this tool, kept as is.
    pub fn random(width: i32, height: i32) -> (c: Self)
        requires
            1 <= width,
            1 <= height,
        ensures
            0 <= c.point.x < width,
            0 <= c.point.y < height,
            0 <= c.radius < height,
    {
        let rng_x = sample_range(0, width);
        let rng_y = sample_range(0, height);
        let rng_radius = sample_range(0, height);
        Self { point: Point { x: rng_x, y: rng_y }, radius: rng_radius }
    }

    /// The boundary pixels for a sequence of center-relative sample
    /// offsets.
    pub open spec fn offsets_path(&self, offs: Seq<(int, int)>) -> Seq<(int, int)> {
        Seq::new(
            offs.len(),
            |k: int| (self.point.x as int + offs[k].0, self.point.y as int + offs[k].1),
        )
    }

    /// Write the circle's boundary samples in the given channels, fully
    /// opaque.  The angular sampling of the boundary needs
    /// floating-point trigonometry, which stays outside the library;
    /// callers hand in the center-relative offsets it produced.
    #[verifier::loop_isolation(false)]
    pub fn draw_offsets_colored(
        &self,
        img: &mut raster::Image,
        offs: &Vec<(i32, i32)>,
        r: u8,
        g: u8,
        b: u8,
    )
        requires
            img_ok(*old(img)),
            forall|k: int|
                #![trigger offs@[k]]
                0 <= k < offs@.len() ==> pixel_ok(
                    (self.point.x as int + offs@[k].0, self.point.y as int + offs@[k].1),
                ),
        ensures
            img_ok(*final(img)),
            final(img).width == old(img).width,
            final(img).height == old(img).height,
            final(img).bytes@ == spec_draw(
                old(img).bytes@,
                old(img).width as int,
                old(img).height as int,
                self.offsets_path(offs@.map_values(|o: (i32, i32)| (o.0 as int, o.1 as int))),
                (r, g, b, 255),
            ),
    {
        let ghost opath = self.offsets_path(
            offs@.map_values(|o: (i32, i32)| (o.0 as int, o.1 as int)),
        );
        let mut pts: Vec<Point> = Vec::new();
        let mut i: usize = 0;
        while i < offs.len()
            invariant
                i <= offs@.len(),
                pts@.len() == i,
                forall|j: int| 0 <= j < i ==> #[trigger] pts@[j]@ == opath[j],
            decreases offs@.len() - i,
        {
            let o = offs[i];
            proof {
                assert(pixel_ok(
                    (self.point.x as int + offs@[i as int].0, self.point.y as int + offs@[i as int].1),
                ));
            }
            let px: i32 = self.point.x + o.0;
            let py: i32 = self.point.y + o.1;
            pts.push(Point { x: px, y: py });
            i = i + 1;
        }
        proof {
            assert(pts@.map_values(|p: Point| p@) =~= opath);
            assert forall|j: int| 0 <= j < pts@.len() implies pixel_ok(#[trigger] pts@[j]@) by {
                assert(pts@[j]@ == opath[j]);
            }
        }
        draw_path(img, &pts, r, g, b, 255);
    }

    /// Write the boundary samples with a fresh random color: one color
    /// for the whole ring.
    pub fn draw_offsets(&self, img: &mut raster::Image, offs: &Vec<(i32, i32)>)
        requires
            img_ok(*old(img)),
            forall|k: int|
                #![trigger offs@[k]]
                0 <= k < offs@.len() ==> pixel_ok(
                    (self.point.x as int + offs@[k].0, self.point.y as int + offs@[k].1),
                ),
        ensures
            img_ok(*final(img)),
            final(img).width == old(img).width,
            final(img).height == old(img).height,
            exists|c: (u8, u8, u8)|
                final(img).bytes@ == spec_draw(
                    old(img).bytes@,
                    old(img).width as int,
                    old(img).height as int,
                    self.offsets_path(offs@.map_values(|o: (i32, i32)| (o.0 as int, o.1 as int))),
                    (c.0, c.1, c.2, 255),
                ),
    {
        let c = random_channels();
        self.draw_offsets_colored(img, offs, c.0, c.1, c.2);
    }

    /// A freshly randomized color with full opacity, matching the other
    /// shapes' color source.
    pub fn color() -> (c: raster::Color)
        ensures
            c.a == 255,
    {
        random_color()
    }
}

} // verus!
