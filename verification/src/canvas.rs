//! The image-buffer collaborator: trusted declarations for the `raster`
//! crate's `Image` and `Color` types, and a byte-level model of what a
//! pixel write does to the buffer.

use vstd::prelude::*;

use crate::geometrical_shapes::Point;

verus! {

/// Image dimensions and write coordinates up to this size keep raster's
/// pixel-index arithmetic, `(y * width + x) * 4`, within `i32`.
pub const DIM_LIMIT: i32 = 0x4000;

/// A well-formed image of drawable size: nonnegative dimensions within
/// `DIM_LIMIT` and a byte buffer of exactly four bytes per pixel.
pub open spec fn img_ok(img: raster::Image) -> bool {
    &&& 0 <= img.width <= DIM_LIMIT
    &&& 0 <= img.height <= DIM_LIMIT
    &&& img.bytes@.len() == 4 * (img.width as int) * (img.height as int)
}

/// A coordinate pair a draw call may hand to `set_pixel` without risking
/// raster's index arithmetic overflowing.
pub open spec fn pixel_ok(p: (int, int)) -> bool {
    &&& -(DIM_LIMIT as int) <= p.0 <= DIM_LIMIT as int
    &&& -(DIM_LIMIT as int) <= p.1 <= DIM_LIMIT as int
}

/// `raster::Image` is a plain struct of public fields (`width`, `height`,
/// `bytes` in RGBA order); declaring it lets contracts speak of those fields.
#[verifier::external_type_specification]
pub struct ExImage(raster::Image);

/// `raster::Color` is four public `u8` channels.
#[verifier::external_type_specification]
pub struct ExColor(raster::Color);

/// `raster`'s error enum carries `std::io` and decoder payloads, so it is
/// declared opaque; the library never reads it.
#[verifier::external_type_specification]
#[verifier::external_body]
pub struct ExRasterError(raster::error::RasterError);

/// Relies on raster's `Color::rgba`, which builds a `Color` from the four
/// channels verbatim.
pub assume_specification<'a>[ raster::Color::rgba ](r: u8, g: u8, b: u8, a: u8) -> (c: raster::Color)
    ensures
        c.r == r,
        c.g == g,
        c.b == b,
        c.a == a,
;

/// What `raster::Image::set_pixel` does to the byte buffer: writing at
/// `(x, y)` updates the four bytes at `4 * (y * w + x)` when the
/// coordinates pass raster's own checks, and leaves the buffer alone
/// otherwise.  raster checks only `x < w`, `y < h` and a nonnegative
/// start index, so a negative `x` that still yields a nonnegative index
/// writes into an earlier row; this model states exactly that.
pub open spec fn spec_set_pixel(
    bytes: Seq<u8>,
    w: int,
    h: int,
    x: int,
    y: int,
    c: (u8, u8, u8, u8),
) -> Seq<u8> {
    if x < w && y < h && 0 <= y * w + x {
        let s = 4 * (y * w + x);
        bytes.update(s, c.0).update(s + 1, c.1).update(s + 2, c.2).update(s + 3, c.3)
    } else {
        bytes
    }
}

/// Relies on raster's `Image::set_pixel` (src/image.rs): it computes
/// `start = (y * width + x) * 4` before any check, returns
/// `Err(PixelOutOfBounds)` when `x >= width || y >= height`,
/// `Err(InvalidStartIndex)` when `start < 0`, and otherwise writes the
/// four channels at `start`.  The `requires` rule out the arithmetic
/// overflow and the out-of-range byte index on which that code panics.
pub assume_specification<'a>[ raster::Image::set_pixel ](
    img: &mut raster::Image,
    x: i32,
    y: i32,
    color: raster::Color,
) -> (res: Result<(), raster::error::RasterError>)
    requires
        i32::MIN <= y * old(img).width <= i32::MAX,
        i32::MIN <= y * old(img).width + x <= i32::MAX,
        i32::MIN <= 4 * (y * old(img).width + x) <= i32::MAX,
        (x < old(img).width && y < old(img).height && 0 <= y * old(img).width + x)
            ==> 4 * (y * old(img).width + x) + 3 < old(img).bytes@.len(),
    ensures
        final(img).width == old(img).width,
        final(img).height == old(img).height,
        final(img).bytes@ == spec_set_pixel(
            old(img).bytes@,
            old(img).width as int,
            old(img).height as int,
            x as int,
            y as int,
            (color.r, color.g, color.b, color.a),
        ),
        res is Ok <==> (x < old(img).width && y < old(img).height && 0 <= y * old(img).width
            + x),
;

/// The byte buffer after writing a whole path of pixels, in order, all
/// with the same color.
pub open spec fn spec_draw(
    bytes: Seq<u8>,
    w: int,
    h: int,
    path: Seq<(int, int)>,
    c: (u8, u8, u8, u8),
) -> Seq<u8>
    decreases path.len(),
{
    if path.len() == 0 {
        bytes
    } else {
        spec_set_pixel(
            spec_draw(bytes, w, h, path.drop_last(), c),
            w,
            h,
            path.last().0,
            path.last().1,
            c,
        )
    }
}

/// Writing a concatenation of two paths is writing one, then the other.
pub proof fn lemma_spec_draw_concat(
    bytes: Seq<u8>,
    w: int,
    h: int,
    s1: Seq<(int, int)>,
    s2: Seq<(int, int)>,
    c: (u8, u8, u8, u8),
)
    ensures
        spec_draw(bytes, w, h, s1 + s2, c) == spec_draw(spec_draw(bytes, w, h, s1, c), w, h, s2, c),
    decreases s2.len(),
{
    if s2.len() == 0 {
        assert(s1 + s2 =~= s1);
    } else {
        lemma_spec_draw_concat(bytes, w, h, s1, s2.drop_last(), c);
        assert((s1 + s2).drop_last() =~= s1 + s2.drop_last());
        assert((s1 + s2).last() == s2.last());
    }
}

proof fn lemma_pixel_products(w: int, x: int, y: int)
    by (nonlinear_arith)
    requires
        0 <= w <= 0x4000,
        -0x4000 <= x <= 0x4000,
        -0x4000 <= y <= 0x4000,
    ensures
        -0x1000_0000 <= y * w <= 0x1000_0000,
{
}

proof fn lemma_pixel_index(w: int, h: int, x: int, y: int)
    by (nonlinear_arith)
    requires
        0 <= w,
        0 <= h,
        x < w,
        y < h,
        0 <= y * w + x,
    ensures
        y * w + x < w * h,
        4 * (y * w + x) + 3 < 4 * w * h,
{
}

/// Write every point of `pts` into `img` with the color `(r, g, b, a)`,
/// in order, through raster's `set_pixel`.  Out-of-range points are not
/// pre-filtered; they fall to raster's own checks, exactly as the byte
/// model states.
#[verifier::loop_isolation(false)]
pub fn draw_path(img: &mut raster::Image, pts: &Vec<Point>, r: u8, g: u8, b: u8, a: u8)
    requires
        img_ok(*old(img)),
        forall|j: int| 0 <= j < pts@.len() ==> pixel_ok(#[trigger] pts@[j]@),
    ensures
        img_ok(*final(img)),
        final(img).width == old(img).width,
        final(img).height == old(img).height,
        final(img).bytes@ == spec_draw(
            old(img).bytes@,
            old(img).width as int,
            old(img).height as int,
            pts@.map_values(|p: Point| p@),
            (r, g, b, a),
        ),
{
    let ghost orig = *img;
    let ghost path = pts@.map_values(|p: Point| p@);
    let mut i: usize = 0;
    while i < pts.len()
        invariant
            i <= pts@.len(),
            img_ok(*img),
            img.width == orig.width,
            img.height == orig.height,
            img.bytes@ == spec_draw(
                orig.bytes@,
                orig.width as int,
                orig.height as int,
                path.take(i as int),
                (r, g, b, a),
            ),
        decreases pts@.len() - i,
    {
        let p = pts[i];
        proof {
            assert(pixel_ok(pts@[i as int]@));
            lemma_pixel_products(img.width as int, p.x as int, p.y as int);
            if p.x < img.width && p.y < img.height && 0 <= p.y as int * img.width as int
                + p.x as int {
                lemma_pixel_index(img.width as int, img.height as int, p.x as int, p.y as int);
            }
            assert(path.take(i + 1).drop_last() =~= path.take(i as int));
            assert(path.take(i + 1).last() == path[i as int]);
        }
        let _ = img.set_pixel(p.x, p.y, raster::Color::rgba(r, g, b, a));
        i = i + 1;
    }
    proof {
        assert(path.take(pts@.len() as int) =~= path);
    }
}

} // verus!
