//! The line rasterizer: a symmetric, integer-only, error-accumulating
//! line algorithm, specified as a small state machine and proved to
//! terminate exactly at the far endpoint.
//!
//! The state after `k` steps is `bres_state`; the pixel path of a line is
//! the first `bres_steps + 1` positions of that state sequence.

use vstd::prelude::*;

use crate::geometrical_shapes::Point;

verus! {

/// Coordinates of this magnitude or smaller keep every intermediate
/// value of the rasterizer within `i32`.
pub const COORD_LIMIT: i32 = 0x2000_0000;

/// A coordinate the rasterizer accepts.
pub open spec fn coord_ok(c: int) -> bool {
    -(COORD_LIMIT as int) < c < COORD_LIMIT as int
}

/// Both coordinates of a position are acceptable.
pub open spec fn point_ok(p: (int, int)) -> bool {
    coord_ok(p.0) && coord_ok(p.1)
}

/// `|a - b|`.
pub open spec fn abs_diff(a: int, b: int) -> int {
    if a > b {
        a - b
    } else {
        b - a
    }
}

/// The unit step used along an axis: `1` when moving up, `-1` otherwise
/// (never `0`, even for equal coordinates).
pub open spec fn step_toward(from: int, to: int) -> int {
    if from < to {
        1
    } else {
        -1
    }
}

/// The initial error term `(dx > dy ? dx : -dy) / 2`, with division
/// truncating toward zero.
pub open spec fn init_err(dx: int, dy: int) -> int {
    if dx > dy {
        dx / 2
    } else {
        -(dy / 2)
    }
}

/// One iteration of the rasterizer: from state `(x, y, err)`, doubling
/// the error decides whether to advance along each axis.
pub open spec fn bres_step(s: (int, int, int), dx: int, dy: int, sx: int, sy: int) -> (
    int,
    int,
    int,
) {
    let e2 = 2 * s.2;
    let xa = if e2 > -dx {
        (s.0 + sx, s.2 - dy)
    } else {
        (s.0, s.2)
    };
    let yb = if e2 < dy {
        (s.1 + sy, xa.1 + dx)
    } else {
        (s.1, xa.1)
    };
    (xa.0, yb.0, yb.1)
}

pub open spec fn line_dx(a: (int, int), b: (int, int)) -> int {
    abs_diff(a.0, b.0)
}

pub open spec fn line_dy(a: (int, int), b: (int, int)) -> int {
    abs_diff(a.1, b.1)
}

/// The rasterizer state `(x, y, err)` after `k` iterations of
/// `bres_step`, starting at `a` and aiming at `b`.
pub open spec fn bres_state(a: (int, int), b: (int, int), k: nat) -> (int, int, int)
    decreases k,
{
    if k == 0 {
        (a.0, a.1, init_err(line_dx(a, b), line_dy(a, b)))
    } else {
        bres_step(
            bres_state(a, b, (k - 1) as nat),
            line_dx(a, b),
            line_dy(a, b),
            step_toward(a.0, b.0),
            step_toward(a.1, b.1),
        )
    }
}

/// How many iterations the rasterizer runs before it reaches `b`:
/// `max(dx, dy)`, except on an even diagonal, where doubling the error
/// makes the two axes alternate instead of moving together.
pub open spec fn bres_steps(a: (int, int), b: (int, int)) -> nat {
    let dx = line_dx(a, b);
    let dy = line_dy(a, b);
    if dx == dy && dx % 2 == 0 {
        (dx + dy) as nat
    } else if dx > dy {
        dx as nat
    } else {
        dy as nat
    }
}

/// The pixels a line from `a` to `b` covers, in the order they are
/// written: the positions of the first `bres_steps + 1` states.
pub open spec fn line_path(a: (int, int), b: (int, int)) -> Seq<(int, int)> {
    Seq::new(
        bres_steps(a, b) + 1,
        |k: int|
            {
                let s = bres_state(a, b, k as nat);
                (s.0, s.1)
            },
    )
}

/// The rasterizer's inductive invariant at iteration `k`: `u` and `v`
/// count the steps taken so far along each axis, the error term has a
/// closed form in them, and each slope class pins how the counters and
/// the error evolve.
pub open spec fn bres_inv(a: (int, int), b: (int, int), k: nat) -> bool {
    let dx = line_dx(a, b);
    let dy = line_dy(a, b);
    let sx = step_toward(a.0, b.0);
    let sy = step_toward(a.1, b.1);
    let e0 = init_err(dx, dy);
    let s = bres_state(a, b, k);
    let u = (s.0 - a.0) * sx;
    let v = (s.1 - a.1) * sy;
    &&& 0 <= u <= dx
    &&& 0 <= v <= dy
    &&& s.2 == e0 - u * dy + v * dx
    &&& if dx > dy {
        u == k && -dx < 2 * s.2 <= 2 * dx - dy - 1
    } else if dx < dy {
        v == k && -(2 * dy - dx - 1) <= 2 * s.2 < dy
    } else if dx % 2 == 1 {
        u == k && v == k && s.2 == e0
    } else if dx == 0 {
        k == 0
    } else {
        ||| (k % 2 == 0 && 2 * u == k && 2 * v == k && 2 * s.2 == -dx)
        ||| (k % 2 == 1 && 2 * u == k - 1 && v == u + 1 && 2 * s.2 == dx)
    }
}

proof fn lemma_step_count(x: int, a0: int, s: int)
    by (nonlinear_arith)
    requires
        s == 1 || s == -1,
    ensures
        (x + s - a0) * s == (x - a0) * s + 1,
{
}

proof fn lemma_mul_add_one(u: int, d: int)
    by (nonlinear_arith)
    ensures
        (u + 1) * d == u * d + d,
{
}

proof fn lemma_mul_le(p: int, q: int, d: int)
    by (nonlinear_arith)
    requires
        p <= q,
        0 <= d,
    ensures
        p * d <= q * d,
{
}

proof fn lemma_mul_comm(p: int, q: int)
    by (nonlinear_arith)
    ensures
        p * q == q * p,
{
}

proof fn lemma_factor_zero(t: int, d: int)
    by (nonlinear_arith)
    requires
        1 <= d,
        -d < t * d < d,
    ensures
        t == 0,
{
}

/// The invariant holds at every iteration up to `bres_steps`.
pub proof fn lemma_bres_inv(a: (int, int), b: (int, int), k: nat)
    requires
        k <= bres_steps(a, b),
    ensures
        bres_inv(a, b, k),
    decreases k,
{
    let dx = line_dx(a, b);
    let dy = line_dy(a, b);
    let sx = step_toward(a.0, b.0);
    let sy = step_toward(a.1, b.1);
    let e0 = init_err(dx, dy);
    if k == 0 {
        assert(bres_state(a, b, 0) == (a.0, a.1, e0));
        assert((a.0 - a.0) * sx == 0);
        assert((a.1 - a.1) * sy == 0);
        assert(0 * dy == 0);
        assert(0 * dx == 0);
    } else {
        lemma_bres_inv(a, b, (k - 1) as nat);
        let s = bres_state(a, b, (k - 1) as nat);
        let t = bres_state(a, b, k);
        assert(t == bres_step(s, dx, dy, sx, sy));
        let u = (s.0 - a.0) * sx;
        let v = (s.1 - a.1) * sy;
        let u2 = (t.0 - a.0) * sx;
        let v2 = (t.1 - a.1) * sy;
        let e2 = 2 * s.2;
        assert(sx == 1 || sx == -1);
        assert(sy == 1 || sy == -1);
        if e2 > -dx {
            assert(t.0 == s.0 + sx);
            lemma_step_count(s.0, a.0, sx);
            assert(u2 == u + 1);
            lemma_mul_add_one(u, dy);
        } else {
            assert(u2 == u);
        }
        if e2 < dy {
            assert(t.1 == s.1 + sy);
            lemma_step_count(s.1, a.1, sy);
            assert(v2 == v + 1);
            lemma_mul_add_one(v, dx);
        } else {
            assert(v2 == v);
        }
        assert(t.2 == e0 - u2 * dy + v2 * dx);
        if dx > dy {
            // the major axis advances every iteration, so `u` tracks `k`
            assert(u == k - 1 && u2 == u + 1);
            assert(u2 <= dx);
            if e2 < dy {
                // a minor-axis step cannot overshoot: at `v == dy` the
                // error is already at least `dy`
                if v == dy {
                    lemma_mul_le(u, dx, dy);
                    lemma_mul_comm(dy, dx);
                    assert(2 * s.2 >= 2 * e0);
                    assert(false);
                }
                assert(v2 <= dy);
            }
            assert(-dx < 2 * t.2 <= 2 * dx - dy - 1);
        } else if dx < dy {
            assert(v == k - 1 && v2 == v + 1);
            assert(v2 <= dy);
            if e2 > -dx {
                if u == dx {
                    lemma_mul_le(v, dy, dx);
                    lemma_mul_comm(dy, dx);
                    assert(2 * s.2 <= 2 * e0);
                    assert(false);
                }
                assert(u2 <= dx);
            }
            assert(-(2 * dy - dx - 1) <= 2 * t.2 < dy);
        } else if dx % 2 == 1 {
            // odd diagonal: both axes advance together, the error is fixed
            assert(u == k - 1 && v == k - 1);
            assert(2 * e0 == -(dx - 1));
            assert(u2 == u + 1 && v2 == v + 1);
            assert(t.2 == e0);
        } else {
            // even diagonal: the axes strictly alternate, `y` first
            assert(dx > 0);
            if (k - 1) % 2 == 0 {
                assert(2 * u == k - 1 && 2 * v == k - 1 && 2 * s.2 == -dx);
                assert(u2 == u && v2 == v + 1);
                assert(2 * t.2 == dx);
            } else {
                assert(2 * u == k - 2 && v == u + 1 && 2 * s.2 == dx);
                assert(u2 == u + 1 && v2 == v);
                assert(2 * t.2 == -dx);
            }
        }
    }
}

proof fn lemma_mul_sub(p: int, q: int, d: int)
    by (nonlinear_arith)
    ensures
        (p - q) * d == p * d - q * d,
{
}

/// `u == dx` forces arrival on the x axis, whatever the direction.
proof fn lemma_axis_arrival(a0: int, b0: int, s0: int)
    requires
        (s0 - a0) * step_toward(a0, b0) == abs_diff(a0, b0),
    ensures
        s0 == b0,
{
    if a0 < b0 {
        assert((s0 - a0) * 1 == s0 - a0);
    } else {
        assert((s0 - a0) * -1 == a0 - s0);
    }
}

/// An axis whose step counter has not yet reached its offset has not
/// arrived.
proof fn lemma_axis_not_there(a0: int, b0: int, s0: int)
    requires
        (s0 - a0) * step_toward(a0, b0) < abs_diff(a0, b0),
    ensures
        s0 != b0,
{
    if a0 < b0 {
        assert((s0 - a0) * 1 == s0 - a0);
    } else {
        assert((s0 - a0) * -1 == a0 - s0);
    }
}

/// After exactly `bres_steps` iterations the rasterizer stands on `b`.
pub proof fn lemma_bres_arrives(a: (int, int), b: (int, int))
    ensures
        bres_state(a, b, bres_steps(a, b)).0 == b.0,
        bres_state(a, b, bres_steps(a, b)).1 == b.1,
{
    let dx = line_dx(a, b);
    let dy = line_dy(a, b);
    let sx = step_toward(a.0, b.0);
    let sy = step_toward(a.1, b.1);
    let e0 = init_err(dx, dy);
    let n = bres_steps(a, b);
    lemma_bres_inv(a, b, n);
    let s = bres_state(a, b, n);
    let u = (s.0 - a.0) * sx;
    let v = (s.1 - a.1) * sy;
    if dx > dy {
        assert(u == dx);
        lemma_axis_arrival(a.0, b.0, s.0);
        // the error bounds leave `v * dx` within `dx` of `dy * dx`
        lemma_mul_comm(dy, dx);
        lemma_mul_sub(v, dy, dx);
        assert(-dx < (v - dy) * dx < dx);
        lemma_factor_zero(v - dy, dx);
        lemma_axis_arrival(a.1, b.1, s.1);
    } else if dx < dy {
        assert(v == dy);
        lemma_axis_arrival(a.1, b.1, s.1);
        lemma_mul_comm(dx, dy);
        lemma_mul_sub(u, dx, dy);
        assert(-dy < (u - dx) * dy < dy);
        lemma_factor_zero(u - dx, dy);
        lemma_axis_arrival(a.0, b.0, s.0);
    } else if dx % 2 == 1 {
        assert(u == dx && v == dy);
        lemma_axis_arrival(a.0, b.0, s.0);
        lemma_axis_arrival(a.1, b.1, s.1);
    } else if dx == 0 {
        assert(u == 0 && v == 0);
        lemma_axis_arrival(a.0, b.0, s.0);
        lemma_axis_arrival(a.1, b.1, s.1);
    } else {
        assert(n % 2 == 0 && 2 * u == n && 2 * v == n);
        lemma_axis_arrival(a.0, b.0, s.0);
        lemma_axis_arrival(a.1, b.1, s.1);
    }
}

/// Before `bres_steps` iterations have run, the rasterizer has not yet
/// reached `b`.
pub proof fn lemma_bres_not_done(a: (int, int), b: (int, int), k: nat)
    requires
        k < bres_steps(a, b),
    ensures
        bres_state(a, b, k).0 != b.0 || bres_state(a, b, k).1 != b.1,
{
    let dx = line_dx(a, b);
    let dy = line_dy(a, b);
    let sx = step_toward(a.0, b.0);
    let sy = step_toward(a.1, b.1);
    lemma_bres_inv(a, b, k);
    let s = bres_state(a, b, k);
    let u = (s.0 - a.0) * sx;
    let v = (s.1 - a.1) * sy;
    if dx > dy {
        assert(u < dx);
        lemma_axis_not_there(a.0, b.0, s.0);
    } else if dx < dy {
        assert(v < dy);
        lemma_axis_not_there(a.1, b.1, s.1);
    } else if dx % 2 == 1 {
        assert(u < dx);
        lemma_axis_not_there(a.0, b.0, s.0);
    } else {
        assert(dx > 0);
        assert(u < dx);
        lemma_axis_not_there(a.0, b.0, s.0);
    }
}

/// Every intermediate position stays inside the bounding box of the two
/// endpoints, and the error term stays within `dx + dy` in magnitude.
pub proof fn lemma_bres_bounds(a: (int, int), b: (int, int), k: nat)
    requires
        k <= bres_steps(a, b),
    ensures
        ({
            let s = bres_state(a, b, k);
            let dx = line_dx(a, b);
            let dy = line_dy(a, b);
            &&& if a.0 <= b.0 {
                a.0 <= s.0 <= b.0
            } else {
                b.0 <= s.0 <= a.0
            }
            &&& if a.1 <= b.1 {
                a.1 <= s.1 <= b.1
            } else {
                b.1 <= s.1 <= a.1
            }
            &&& -2 * (if dx > dy {
                dx
            } else {
                dy
            }) <= 2 * s.2 <= 2 * (if dx > dy {
                dx
            } else {
                dy
            })
        }),
{
    let dx = line_dx(a, b);
    let dy = line_dy(a, b);
    let sx = step_toward(a.0, b.0);
    let sy = step_toward(a.1, b.1);
    lemma_bres_inv(a, b, k);
    let s = bres_state(a, b, k);
    let u = (s.0 - a.0) * sx;
    let v = (s.1 - a.1) * sy;
    if a.0 < b.0 {
        assert((s.0 - a.0) * 1 == s.0 - a.0);
    } else {
        assert((s.0 - a.0) * -1 == a.0 - s.0);
    }
    if a.1 < b.1 {
        assert((s.1 - a.1) * 1 == s.1 - a.1);
    } else {
        assert((s.1 - a.1) * -1 == a.1 - s.1);
    }
}

/// A line whose endpoints coincide covers exactly one pixel, the
/// endpoint itself.
pub proof fn lemma_line_path_single(a: (int, int))
    ensures
        line_path(a, a) =~= seq![(a.0, a.1)],
{
    assert(line_dx(a, a) == 0);
    assert(line_dy(a, a) == 0);
    assert(bres_steps(a, a) == 0);
}

/// The number of pixels a line covers is `max(dx, dy) + 1`, for every
/// pair of endpoints except a nonempty diagonal of even offset, where
/// the two axes alternate and the count is `dx + dy + 1` instead.
pub proof fn lemma_line_path_count(a: (int, int), b: (int, int))
    requires
        !(line_dx(a, b) == line_dy(a, b) && line_dx(a, b) % 2 == 0 && line_dx(a, b) > 0),
    ensures
        line_path(a, b).len() == 1 + if line_dx(a, b) > line_dy(a, b) {
            line_dx(a, b)
        } else {
            line_dy(a, b)
        },
{
}

/// The path is continuous: consecutive pixels differ by at most one
/// along each axis.
pub proof fn lemma_line_path_adjacent(a: (int, int), b: (int, int), k: int)
    requires
        0 <= k < line_path(a, b).len() - 1,
    ensures
        abs_diff(line_path(a, b)[k].0, line_path(a, b)[k + 1].0) <= 1,
        abs_diff(line_path(a, b)[k].1, line_path(a, b)[k + 1].1) <= 1,
{
    let s = bres_state(a, b, k as nat);
    assert(bres_state(a, b, (k + 1) as nat) == bres_step(
        s,
        line_dx(a, b),
        line_dy(a, b),
        step_toward(a.0, b.0),
        step_toward(a.1, b.1),
    ));
}

/// The path starts at `a` and ends at `b`.
pub proof fn lemma_line_path_ends(a: (int, int), b: (int, int))
    ensures
        line_path(a, b).first() == (a.0, a.1),
        line_path(a, b).last() == (b.0, b.1),
{
    lemma_bres_arrives(a, b);
}

/// Every pixel of the path lies in the bounding box of the endpoints.
pub proof fn lemma_line_path_in_box(a: (int, int), b: (int, int), k: int)
    requires
        0 <= k < line_path(a, b).len(),
    ensures
        ({
            let p = line_path(a, b)[k];
            &&& if a.0 <= b.0 {
                a.0 <= p.0 <= b.0
            } else {
                b.0 <= p.0 <= a.0
            }
            &&& if a.1 <= b.1 {
                a.1 <= p.1 <= b.1
            } else {
                b.1 <= p.1 <= a.1
            }
        }),
{
    lemma_bres_bounds(a, b, k as nat);
}

/// The discrete path from `a` to `b`, one `Point` per pixel, in the
/// order the rasterizer visits them: exactly `line_path(a@, b@)`.
#[verifier::loop_isolation(false)]
pub fn line_points(a: &Point, b: &Point) -> (pts: Vec<Point>)
    requires
        point_ok(a@),
        point_ok(b@),
    ensures
        pts@.len() == line_path(a@, b@).len(),
        forall|j: int| 0 <= j < pts@.len() ==> #[trigger] pts@[j]@ == line_path(a@, b@)[j],
{
    let x1: i32 = b.x;
    let y1: i32 = b.y;
    let mut x0: i32 = a.x;
    let mut y0: i32 = a.y;
    let dx: i32 = if x0 > x1 {
        x0 - x1
    } else {
        x1 - x0
    };
    let dy: i32 = if y0 > y1 {
        y0 - y1
    } else {
        y1 - y0
    };
    let sx: i32 = if x0 < x1 {
        1
    } else {
        -1
    };
    let sy: i32 = if y0 < y1 {
        1
    } else {
        -1
    };
    let mut err: i32 = if dx > dy {
        dx / 2
    } else {
        -(dy / 2)
    };
    let mut pts: Vec<Point> = Vec::new();
    let ghost mut k: nat = 0;
    assert((x0 as int, y0 as int, err as int) == bres_state(a@, b@, 0));
    while !(x0 == x1 && y0 == y1)
        invariant
            k <= bres_steps(a@, b@),
            (x0 as int, y0 as int, err as int) == bres_state(a@, b@, k),
            pts@.len() == k,
            forall|j: int| 0 <= j < k ==> #[trigger] pts@[j]@ == line_path(a@, b@)[j],
        decreases bres_steps(a@, b@) - k,
    {
        proof {
            if k == bres_steps(a@, b@) {
                lemma_bres_arrives(a@, b@);
            }
            lemma_bres_inv(a@, b@, k);
            lemma_bres_bounds(a@, b@, k);
            lemma_bres_bounds(a@, b@, (k + 1) as nat);
        }
        pts.push(Point { x: x0, y: y0 });
        let e2: i32 = 2 * err;
        if e2 > -dx {
            err = err - dy;
            x0 = x0 + sx;
        }
        if e2 < dy {
            err = err + dx;
            y0 = y0 + sy;
        }
        proof {
            k = k + 1;
        }
    }
    proof {
        if k < bres_steps(a@, b@) {
            lemma_bres_not_done(a@, b@, k);
        }
        lemma_bres_arrives(a@, b@);
    }
    pts.push(Point { x: x0, y: y0 });
    pts
}

} // verus!
