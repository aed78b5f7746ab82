//! The triangle rasterizer: from three shaded vertices to the finite
//! sequence of covered fragments, in row-major order over the clamped
//! bounding box.
//!
//! Coverage uses the signed-area (edge function) method at pixel centers:
//! a pixel is inside exactly when all three edge values share the
//! triangle's winding sign. No top-left tie-break rule is applied; shared
//! edges between adjacent triangles may double- or under-cover, an
//! accepted approximation resolved by the depth test. Depth and attributes
//! are interpolated linearly in screen space (not perspective-correct), an
//! accepted approximation for untextured shading.

use crate::fragment::Fragment;
use crate::fx::{lemma_prod_bound2, lemma_tdiv_in_range, tdiv, tdiv_i128, COORD_LIMIT, FX_HALF,
    FX_ONE};
use crate::geom::{vec3_bounded, Vec3};
use crate::vertex::ShadedVertex;
use vstd::arithmetic::mul::lemma_mul_inequality;
use vstd::prelude::*;

verus! {

/// The fixed-point coordinate of a pixel's center.
pub open spec fn center(p: int) -> int {
    p * FX_ONE + FX_HALF
}

/// The signed-area edge function: positive when `(px, py)` lies to one
/// side of the directed edge `(ax, ay) -> (bx, by)`, at scale `FX_ONE^2`.
pub open spec fn edge_raw(ax: int, ay: int, bx: int, by: int, px: int, py: int) -> int {
    (bx - ax) * (py - ay) - (by - ay) * (px - ax)
}

/// The three unnormalized barycentric weights of a fixed-point location
/// against a triangle's screen vertices.
pub open spec fn w0_at(a: ShadedVertex, b: ShadedVertex, c: ShadedVertex, cx: int, cy: int) -> int {
    edge_raw(
        b.position.x as int,
        b.position.y as int,
        c.position.x as int,
        c.position.y as int,
        cx,
        cy,
    )
}

pub open spec fn w1_at(a: ShadedVertex, b: ShadedVertex, c: ShadedVertex, cx: int, cy: int) -> int {
    edge_raw(
        c.position.x as int,
        c.position.y as int,
        a.position.x as int,
        a.position.y as int,
        cx,
        cy,
    )
}

pub open spec fn w2_at(a: ShadedVertex, b: ShadedVertex, c: ShadedVertex, cx: int, cy: int) -> int {
    edge_raw(
        a.position.x as int,
        a.position.y as int,
        b.position.x as int,
        b.position.y as int,
        cx,
        cy,
    )
}

/// The weights' sum: twice the triangle's signed area, whose sign gives
/// the winding.
pub open spec fn wsum_at(a: ShadedVertex, b: ShadedVertex, c: ShadedVertex, cx: int, cy: int) -> int {
    w0_at(a, b, c, cx, cy) + w1_at(a, b, c, cx, cy) + w2_at(a, b, c, cx, cy)
}

/// The inclusion test: all three barycentric weights non-negative under
/// the sign convention set by the winding. A degenerate (zero-area)
/// triangle covers nothing.
pub open spec fn inside_at(a: ShadedVertex, b: ShadedVertex, c: ShadedVertex, cx: int, cy: int) -> bool {
    let w0 = w0_at(a, b, c, cx, cy);
    let w1 = w1_at(a, b, c, cx, cy);
    let w2 = w2_at(a, b, c, cx, cy);
    let s = w0 + w1 + w2;
    ||| (s > 0 && w0 >= 0 && w1 >= 0 && w2 >= 0)
    ||| (s < 0 && w0 <= 0 && w1 <= 0 && w2 <= 0)
}

/// Barycentric interpolation: the weighted average of three attribute
/// values, with non-negative weights at scale `FX_ONE^2` summing to `d`.
pub open spec fn interp_spec(u0: int, u1: int, u2: int, d: int, z0: int, z1: int, z2: int) -> int {
    tdiv(u0 * z0 + u1 * z1 + u2 * z2, d)
}

/// The fragment emitted for pixel `(px, py)`, with depth, normal and
/// world position interpolated by the barycentric weights at the pixel
/// center; the base color is the first vertex's (flat base color).
pub open spec fn frag_at(a: ShadedVertex, b: ShadedVertex, c: ShadedVertex, px: int, py: int) -> Fragment {
    let cx = center(px);
    let cy = center(py);
    let w0 = w0_at(a, b, c, cx, cy);
    let w1 = w1_at(a, b, c, cx, cy);
    let w2 = w2_at(a, b, c, cx, cy);
    let s = w0 + w1 + w2;
    let u0 = if s >= 0 { w0 } else { -w0 };
    let u1 = if s >= 0 { w1 } else { -w1 };
    let u2 = if s >= 0 { w2 } else { -w2 };
    let d = if s >= 0 { s } else { -s };
    Fragment {
        x: px as usize,
        y: py as usize,
        depth: interp_spec(
            u0, u1, u2, d,
            a.position.z as int, b.position.z as int, c.position.z as int,
        ) as i64,
        normal: Vec3 {
            x: interp_spec(u0, u1, u2, d, a.normal.x as int, b.normal.x as int, c.normal.x as int) as i64,
            y: interp_spec(u0, u1, u2, d, a.normal.y as int, b.normal.y as int, c.normal.y as int) as i64,
            z: interp_spec(u0, u1, u2, d, a.normal.z as int, b.normal.z as int, c.normal.z as int) as i64,
        },
        world_position: Vec3 {
            x: interp_spec(
                u0, u1, u2, d,
                a.world_position.x as int, b.world_position.x as int, c.world_position.x as int,
            ) as i64,
            y: interp_spec(
                u0, u1, u2, d,
                a.world_position.y as int, b.world_position.y as int, c.world_position.y as int,
            ) as i64,
            z: interp_spec(
                u0, u1, u2, d,
                a.world_position.z as int, b.world_position.z as int, c.world_position.z as int,
            ) as i64,
        },
        color: a.color,
    }
}

pub open spec fn min3(a: int, b: int, c: int) -> int {
    if a <= b && a <= c {
        a
    } else if b <= c {
        b
    } else {
        c
    }
}

pub open spec fn max3(a: int, b: int, c: int) -> int {
    if a >= b && a >= c {
        a
    } else if b >= c {
        b
    } else {
        c
    }
}

pub open spec fn clampi(x: int, lo: int, hi: int) -> int {
    if x < lo {
        lo
    } else if x > hi {
        hi
    } else {
        x
    }
}

/// The bounding box of the triangle's screen footprint, clamped to the
/// screen rectangle; `x_hi`/`y_hi` are exclusive. This clamp is the whole
/// clipping policy: no pixel outside `[0, width) x [0, height)` is ever
/// produced.
pub open spec fn x_lo_spec(a: ShadedVertex, b: ShadedVertex, c: ShadedVertex, width: int) -> int {
    clampi(tdiv(min3(a.position.x as int, b.position.x as int, c.position.x as int), FX_ONE as int), 0, width)
}

pub open spec fn x_hi_spec(a: ShadedVertex, b: ShadedVertex, c: ShadedVertex, width: int) -> int {
    clampi(tdiv(max3(a.position.x as int, b.position.x as int, c.position.x as int), FX_ONE as int) + 1, 0, width)
}

pub open spec fn y_lo_spec(a: ShadedVertex, b: ShadedVertex, c: ShadedVertex, height: int) -> int {
    clampi(tdiv(min3(a.position.y as int, b.position.y as int, c.position.y as int), FX_ONE as int), 0, height)
}

pub open spec fn y_hi_spec(a: ShadedVertex, b: ShadedVertex, c: ShadedVertex, height: int) -> int {
    clampi(tdiv(max3(a.position.y as int, b.position.y as int, c.position.y as int), FX_ONE as int) + 1, 0, height)
}

/// The fragments of one pixel row, columns `x0` (inclusive) to `x1`
/// (exclusive), left to right.
pub open spec fn row_frags(a: ShadedVertex, b: ShadedVertex, c: ShadedVertex, py: int, x0: int, x1: int) -> Seq<Fragment>
    decreases x1 - x0,
{
    if x1 <= x0 {
        Seq::empty()
    } else {
        let rest = row_frags(a, b, c, py, x0 + 1, x1);
        if inside_at(a, b, c, center(x0), center(py)) {
            seq![frag_at(a, b, c, x0, py)] + rest
        } else {
            rest
        }
    }
}

/// The fragments of rows `y0` (inclusive) to `y1` (exclusive), top to
/// bottom, row-major.
pub open spec fn rows_frags(a: ShadedVertex, b: ShadedVertex, c: ShadedVertex, y0: int, y1: int, x0: int, x1: int) -> Seq<Fragment>
    decreases y1 - y0,
{
    if y1 <= y0 {
        Seq::empty()
    } else {
        row_frags(a, b, c, y0, x0, x1) + rows_frags(a, b, c, y0 + 1, y1, x0, x1)
    }
}

/// Every fragment of the triangle on a `width x height` screen: the
/// covered pixels of the clamped bounding box, row-major.
pub open spec fn tri_frags(a: ShadedVertex, b: ShadedVertex, c: ShadedVertex, width: int, height: int) -> Seq<Fragment> {
    rows_frags(
        a, b, c,
        y_lo_spec(a, b, c, height),
        y_hi_spec(a, b, c, height),
        x_lo_spec(a, b, c, width),
        x_hi_spec(a, b, c, width),
    )
}

/// The bounds under which the rasterizer's arithmetic is exact: screen
/// coordinates and attributes within `COORD_LIMIT`, the screen within the
/// dimension cap.
pub open spec fn raster_ok(a: ShadedVertex, b: ShadedVertex, c: ShadedVertex) -> bool {
    &&& vec3_bounded(a.position, COORD_LIMIT as int)
    &&& vec3_bounded(b.position, COORD_LIMIT as int)
    &&& vec3_bounded(c.position, COORD_LIMIT as int)
    &&& vec3_bounded(a.normal, COORD_LIMIT as int)
    &&& vec3_bounded(b.normal, COORD_LIMIT as int)
    &&& vec3_bounded(c.normal, COORD_LIMIT as int)
    &&& vec3_bounded(a.world_position, COORD_LIMIT as int)
    &&& vec3_bounded(b.world_position, COORD_LIMIT as int)
    &&& vec3_bounded(c.world_position, COORD_LIMIT as int)
}

/// Each fragment of a row stands at a column of `[x0, x1)` in that row,
/// at a pixel whose center the triangle covers, and is exactly the
/// interpolated fragment of its pixel.
pub proof fn lemma_row_frags_sound(a: ShadedVertex, b: ShadedVertex, c: ShadedVertex, py: int, x0: int, x1: int)
    requires
        0 <= x0,
        x1 <= 0x8000,
        0 <= py <= 0x8000,
    ensures
        forall|i: int|
            0 <= i < row_frags(a, b, c, py, x0, x1).len() ==> {
                let f = #[trigger] row_frags(a, b, c, py, x0, x1)[i];
                &&& x0 <= f.x as int
                &&& (f.x as int) < x1
                &&& f.y as int == py
                &&& inside_at(a, b, c, center(f.x as int), center(py))
                &&& f == frag_at(a, b, c, f.x as int, py)
            },
    decreases x1 - x0,
{
    if x0 < x1 {
        lemma_row_frags_sound(a, b, c, py, x0 + 1, x1);
        let rest = row_frags(a, b, c, py, x0 + 1, x1);
        let s = row_frags(a, b, c, py, x0, x1);
        if inside_at(a, b, c, center(x0), center(py)) {
            assert(s == seq![frag_at(a, b, c, x0, py)] + rest);
            assert forall|i: int| 0 <= i < s.len() implies {
                let f = #[trigger] s[i];
                &&& x0 <= f.x as int
                &&& (f.x as int) < x1
                &&& f.y as int == py
                &&& inside_at(a, b, c, center(f.x as int), center(py))
                &&& f == frag_at(a, b, c, f.x as int, py)
            } by {
                if i == 0 {
                    assert(s[0] == frag_at(a, b, c, x0, py));
                } else {
                    assert(s[i] == rest[i - 1]);
                }
            }
        }
    }
}

/// Each fragment of a row range stands in a row of `[y0, y1)` and a
/// column of `[x0, x1)`, at a covered pixel center, exactly interpolated.
pub proof fn lemma_rows_frags_sound(a: ShadedVertex, b: ShadedVertex, c: ShadedVertex, y0: int, y1: int, x0: int, x1: int)
    requires
        0 <= x0,
        x1 <= 0x8000,
        0 <= y0,
        y1 <= 0x8000,
    ensures
        forall|i: int|
            0 <= i < rows_frags(a, b, c, y0, y1, x0, x1).len() ==> {
                let f = #[trigger] rows_frags(a, b, c, y0, y1, x0, x1)[i];
                &&& x0 <= f.x as int
                &&& (f.x as int) < x1
                &&& y0 <= f.y as int
                &&& (f.y as int) < y1
                &&& inside_at(a, b, c, center(f.x as int), center(f.y as int))
                &&& f == frag_at(a, b, c, f.x as int, f.y as int)
            },
    decreases y1 - y0,
{
    if y0 < y1 {
        lemma_row_frags_sound(a, b, c, y0, x0, x1);
        lemma_rows_frags_sound(a, b, c, y0 + 1, y1, x0, x1);
        let row = row_frags(a, b, c, y0, x0, x1);
        let rest = rows_frags(a, b, c, y0 + 1, y1, x0, x1);
        let s = rows_frags(a, b, c, y0, y1, x0, x1);
        assert(s == row + rest);
        assert forall|i: int| 0 <= i < s.len() implies {
            let f = #[trigger] s[i];
            &&& x0 <= f.x as int
                &&& (f.x as int) < x1
            &&& y0 <= f.y as int
                &&& (f.y as int) < y1
            &&& inside_at(a, b, c, center(f.x as int), center(f.y as int))
            &&& f == frag_at(a, b, c, f.x as int, f.y as int)
        } by {
            if i < row.len() {
                assert(s[i] == row[i]);
            } else {
                assert(s[i] == rest[i - row.len()]);
            }
        }
    }
}

/// The bounding guarantee: every fragment of a triangle lies strictly
/// within the screen rectangle, at a pixel whose center the triangle
/// covers, with exactly interpolated attributes.
pub proof fn lemma_tri_frags_in_bounds(a: ShadedVertex, b: ShadedVertex, c: ShadedVertex, width: int, height: int)
    requires
        0 <= width <= 0x8000,
        0 <= height <= 0x8000,
    ensures
        forall|i: int|
            0 <= i < tri_frags(a, b, c, width, height).len() ==> {
                let f = #[trigger] tri_frags(a, b, c, width, height)[i];
                &&& (f.x as int) < width
                &&& (f.y as int) < height
                &&& inside_at(a, b, c, center(f.x as int), center(f.y as int))
                &&& f == frag_at(a, b, c, f.x as int, f.y as int)
            },
{
    lemma_rows_frags_sound(
        a, b, c,
        y_lo_spec(a, b, c, height),
        y_hi_spec(a, b, c, height),
        x_lo_spec(a, b, c, width),
        x_hi_spec(a, b, c, width),
    );
}

/// A triangle covering no in-screen pixel center produces zero fragments;
/// in particular one lying entirely outside the screen rectangle.
pub proof fn lemma_tri_frags_empty_outside(a: ShadedVertex, b: ShadedVertex, c: ShadedVertex, width: int, height: int)
    requires
        0 <= width <= 0x8000,
        0 <= height <= 0x8000,
        forall|px: int, py: int|
            0 <= px < width && 0 <= py < height ==> !inside_at(a, b, c, center(px), center(py)),
    ensures
        tri_frags(a, b, c, width, height).len() == 0,
{
    lemma_tri_frags_in_bounds(a, b, c, width, height);
    if tri_frags(a, b, c, width, height).len() > 0 {
        let f = tri_frags(a, b, c, width, height)[0];
        assert(!inside_at(a, b, c, center(f.x as int), center(f.y as int)));
    }
}

/// Completeness over the bounding box: every covered pixel of the box
/// has its fragment in the row's sequence.
pub proof fn lemma_row_frags_complete(a: ShadedVertex, b: ShadedVertex, c: ShadedVertex, py: int, x0: int, x1: int, px: int)
    requires
        x0 <= px < x1,
        inside_at(a, b, c, center(px), center(py)),
    ensures
        row_frags(a, b, c, py, x0, x1).contains(frag_at(a, b, c, px, py)),
    decreases x1 - x0,
{
    let s = row_frags(a, b, c, py, x0, x1);
    let rest = row_frags(a, b, c, py, x0 + 1, x1);
    if px == x0 {
        assert(s[0] == frag_at(a, b, c, px, py));
    } else {
        lemma_row_frags_complete(a, b, c, py, x0 + 1, x1, px);
        let j = choose|j: int| 0 <= j < rest.len() && rest[j] == frag_at(a, b, c, px, py);
        if inside_at(a, b, c, center(x0), center(py)) {
            assert(s[j + 1] == frag_at(a, b, c, px, py));
        } else {
            assert(s[j] == frag_at(a, b, c, px, py));
        }
    }
}

/// Completeness over the bounding box, across rows.
pub proof fn lemma_rows_frags_complete(a: ShadedVertex, b: ShadedVertex, c: ShadedVertex, y0: int, y1: int, x0: int, x1: int, px: int, py: int)
    requires
        x0 <= px < x1,
        y0 <= py < y1,
        inside_at(a, b, c, center(px), center(py)),
    ensures
        rows_frags(a, b, c, y0, y1, x0, x1).contains(frag_at(a, b, c, px, py)),
    decreases y1 - y0,
{
    let s = rows_frags(a, b, c, y0, y1, x0, x1);
    let row = row_frags(a, b, c, y0, x0, x1);
    let rest = rows_frags(a, b, c, y0 + 1, y1, x0, x1);
    if py == y0 {
        lemma_row_frags_complete(a, b, c, y0, x0, x1, px);
        let j = choose|j: int| 0 <= j < row.len() && row[j] == frag_at(a, b, c, px, py);
        assert(s[j] == frag_at(a, b, c, px, py));
    } else {
        lemma_rows_frags_complete(a, b, c, y0 + 1, y1, x0, x1, px, py);
        let j = choose|j: int| 0 <= j < rest.len() && rest[j] == frag_at(a, b, c, px, py);
        assert(s[row.len() + j] == frag_at(a, b, c, px, py));
    }
}

/// Every pixel of the clamped bounding box whose center the triangle
/// covers appears among the triangle's fragments.
pub proof fn lemma_tri_frags_complete(a: ShadedVertex, b: ShadedVertex, c: ShadedVertex, width: int, height: int, px: int, py: int)
    requires
        x_lo_spec(a, b, c, width) <= px < x_hi_spec(a, b, c, width),
        y_lo_spec(a, b, c, height) <= py < y_hi_spec(a, b, c, height),
        inside_at(a, b, c, center(px), center(py)),
    ensures
        tri_frags(a, b, c, width, height).contains(frag_at(a, b, c, px, py)),
{
    lemma_rows_frags_complete(
        a, b, c,
        y_lo_spec(a, b, c, height),
        y_hi_spec(a, b, c, height),
        x_lo_spec(a, b, c, width),
        x_hi_spec(a, b, c, width),
        px,
        py,
    );
}

/// A fragment whose interpolated attributes stay within the coordinate
/// bound, as barycentric averages of bounded attributes do.
pub open spec fn frag_bounded(f: Fragment) -> bool {
    &&& -COORD_LIMIT <= f.depth <= COORD_LIMIT
    &&& vec3_bounded(f.normal, COORD_LIMIT as int)
    &&& vec3_bounded(f.world_position, COORD_LIMIT as int)
}

/// The edge function over machine integers; exact by computing in `i128`.
/// Public so that callers (and tests) can evaluate barycentric weights at
/// chosen locations.
pub fn edge_function(ax: i64, ay: i64, bx: i64, by: i64, px: i64, py: i64) -> (r: i128)
    requires
        -0x200_0000_0000 <= ax <= 0x200_0000_0000,
        -0x200_0000_0000 <= ay <= 0x200_0000_0000,
        -0x200_0000_0000 <= bx <= 0x200_0000_0000,
        -0x200_0000_0000 <= by <= 0x200_0000_0000,
        -0x200_0000_0000 <= px <= 0x200_0000_0000,
        -0x200_0000_0000 <= py <= 0x200_0000_0000,
    ensures
        r == edge_raw(ax as int, ay as int, bx as int, by as int, px as int, py as int),
        -0x20_0000_0000_0000_0000_0000 <= r <= 0x20_0000_0000_0000_0000_0000,
{
    proof {
        lemma_prod_bound2(bx - ax, py - ay, 0x400_0000_0000, 0x400_0000_0000);
        lemma_prod_bound2(by - ay, px - ax, 0x400_0000_0000, 0x400_0000_0000);
    }
    let d0: i128 = ((bx - ax) as i128) * ((py - ay) as i128);
    let d1: i128 = ((by - ay) as i128) * ((px - ax) as i128);
    d0 - d1
}

/// Barycentric interpolation of one attribute over machine integers; the
/// result is the exact truncated weighted average, so it stays within the
/// attribute bound.
fn interp(u0: i128, u1: i128, u2: i128, d: i128, z0: i64, z1: i64, z2: i64) -> (r: i64)
    requires
        0 <= u0 <= 0x20_0000_0000_0000_0000_0000,
        0 <= u1 <= 0x20_0000_0000_0000_0000_0000,
        0 <= u2 <= 0x20_0000_0000_0000_0000_0000,
        d == u0 + u1 + u2,
        d > 0,
        -0x100_0000_0000 <= z0 <= 0x100_0000_0000,
        -0x100_0000_0000 <= z1 <= 0x100_0000_0000,
        -0x100_0000_0000 <= z2 <= 0x100_0000_0000,
    ensures
        r == interp_spec(u0 as int, u1 as int, u2 as int, d as int, z0 as int, z1 as int, z2 as int),
        -0x100_0000_0000 <= r <= 0x100_0000_0000,
{
    proof {
        lemma_prod_bound2(u0 as int, z0 as int, 0x20_0000_0000_0000_0000_0000, 0x100_0000_0000);
        lemma_prod_bound2(u1 as int, z1 as int, 0x20_0000_0000_0000_0000_0000, 0x100_0000_0000);
        lemma_prod_bound2(u2 as int, z2 as int, 0x20_0000_0000_0000_0000_0000, 0x100_0000_0000);
        lemma_mul_inequality(z0 as int, 0x100_0000_0000, u0 as int);
        lemma_mul_inequality(-0x100_0000_0000, z0 as int, u0 as int);
        lemma_mul_inequality(z1 as int, 0x100_0000_0000, u1 as int);
        lemma_mul_inequality(-0x100_0000_0000, z1 as int, u1 as int);
        lemma_mul_inequality(z2 as int, 0x100_0000_0000, u2 as int);
        lemma_mul_inequality(-0x100_0000_0000, z2 as int, u2 as int);
        lemma_tdiv_in_range(
            (u0 as int) * (z0 as int) + (u1 as int) * (z1 as int) + (u2 as int) * (z2 as int),
            d as int,
            0x100_0000_0000,
        );
    }
    let s: i128 = u0 * (z0 as i128) + u1 * (z1 as i128) + u2 * (z2 as i128);
    let q: i128 = tdiv_i128(s, d);
    q as i64
}

/// Truncate a fixed-point coordinate to a whole pixel index, clamped to
/// `[0, limit]`.
fn floor_clamp(v: i64, limit: usize) -> (r: usize)
    requires
        -COORD_LIMIT <= v <= COORD_LIMIT,
        limit <= 0x8000,
    ensures
        r == clampi(tdiv(v as int, FX_ONE as int), 0, limit as int),
{
    proof {
        lemma_tdiv_in_range(v as int, FX_ONE as int, COORD_LIMIT as int);
    }
    let f: i64 = tdiv_i128(v as i128, FX_ONE as i128) as i64;
    if f < 0 {
        0
    } else if f > limit as i64 {
        limit
    } else {
        f as usize
    }
}

/// As `floor_clamp`, for the exclusive upper bound (one past the floor).
fn floor1_clamp(v: i64, limit: usize) -> (r: usize)
    requires
        -COORD_LIMIT <= v <= COORD_LIMIT,
        limit <= 0x8000,
    ensures
        r == clampi(tdiv(v as int, FX_ONE as int) + 1, 0, limit as int),
{
    proof {
        lemma_tdiv_in_range(v as int, FX_ONE as int, COORD_LIMIT as int);
    }
    let f: i64 = tdiv_i128(v as i128, FX_ONE as i128) as i64 + 1;
    if f < 0 {
        0
    } else if f > limit as i64 {
        limit
    } else {
        f as usize
    }
}

/// The smallest of three fixed-point values.
fn min3_i64(a: i64, b: i64, c: i64) -> (r: i64)
    ensures
        r == min3(a as int, b as int, c as int),
{
    if a <= b && a <= c {
        a
    } else if b <= c {
        b
    } else {
        c
    }
}

/// The largest of three fixed-point values.
fn max3_i64(a: i64, b: i64, c: i64) -> (r: i64)
    ensures
        r == max3(a as int, b as int, c as int),
{
    if a >= b && a >= c {
        a
    } else if b >= c {
        b
    } else {
        c
    }
}

/// Rasterize one triangle of shaded vertices into its fragments: exactly
/// the covered pixels of the clamped bounding box, row-major, each with
/// exactly interpolated depth, normal and world position. The result is a
/// finite sequence drained by the caller before the next triangle.
pub fn triangle(a: &ShadedVertex, b: &ShadedVertex, c: &ShadedVertex, width: usize, height: usize) -> (out: Vec<Fragment>)
    requires
        raster_ok(*a, *b, *c),
        width <= 0x8000,
        height <= 0x8000,
    ensures
        out@ == tri_frags(*a, *b, *c, width as int, height as int),
        forall|i: int| 0 <= i < out@.len() ==> frag_bounded(#[trigger] out@[i]),
{
    let ghost total = tri_frags(*a, *b, *c, width as int, height as int);
    let x_lo: usize = floor_clamp(min3_i64(a.position.x, b.position.x, c.position.x), width);
    let x_hi: usize = floor1_clamp(max3_i64(a.position.x, b.position.x, c.position.x), width);
    let y_lo: usize = floor_clamp(min3_i64(a.position.y, b.position.y, c.position.y), height);
    let y_hi: usize = floor1_clamp(max3_i64(a.position.y, b.position.y, c.position.y), height);
    let mut out: Vec<Fragment> = Vec::new();
    let mut py: usize = y_lo;
    proof {
        assert(out@ + rows_frags(
            *a, *b, *c, py as int, y_hi as int, x_lo as int, x_hi as int,
        ) =~= total);
    }
    while py < y_hi
        invariant
            raster_ok(*a, *b, *c),
            width <= 0x8000,
            height <= 0x8000,
            x_lo as int == x_lo_spec(*a, *b, *c, width as int),
            x_hi as int == x_hi_spec(*a, *b, *c, width as int),
            y_hi as int == y_hi_spec(*a, *b, *c, height as int),
            x_lo <= width,
            x_hi <= width,
            py <= 0x8000,
            out@ + rows_frags(*a, *b, *c, py as int, y_hi as int, x_lo as int, x_hi as int)
                == total,
            forall|i: int| 0 <= i < out@.len() ==> frag_bounded(#[trigger] out@[i]),
        decreases y_hi - py,
    {
        let mut px: usize = x_lo;
        proof {
            assert(rows_frags(*a, *b, *c, py as int, y_hi as int, x_lo as int, x_hi as int)
                == row_frags(*a, *b, *c, py as int, x_lo as int, x_hi as int) + rows_frags(
                *a, *b, *c, py as int + 1, y_hi as int, x_lo as int, x_hi as int,
            ));
            assert(out@ + (row_frags(*a, *b, *c, py as int, x_lo as int, x_hi as int)
                + rows_frags(*a, *b, *c, py as int + 1, y_hi as int, x_lo as int, x_hi as int))
                =~= (out@ + row_frags(*a, *b, *c, py as int, x_lo as int, x_hi as int))
                + rows_frags(*a, *b, *c, py as int + 1, y_hi as int, x_lo as int, x_hi as int));
        }
        while px < x_hi
            invariant
                raster_ok(*a, *b, *c),
                width <= 0x8000,
                height <= 0x8000,
                x_hi <= width,
                px <= 0x8000,
                py <= 0x8000,
                py < y_hi,
                y_hi as int == y_hi_spec(*a, *b, *c, height as int),
                x_lo as int == x_lo_spec(*a, *b, *c, width as int),
                x_hi as int == x_hi_spec(*a, *b, *c, width as int),
                (out@ + row_frags(*a, *b, *c, py as int, px as int, x_hi as int)) + rows_frags(
                    *a, *b, *c, py as int + 1, y_hi as int, x_lo as int, x_hi as int,
                ) == total,
                forall|i: int| 0 <= i < out@.len() ==> frag_bounded(#[trigger] out@[i]),
            decreases x_hi - px,
        {
            let cx: i64 = (px as i64) * FX_ONE + FX_HALF;
            let cy: i64 = (py as i64) * FX_ONE + FX_HALF;
            let w0: i128 = edge_function(b.position.x, b.position.y, c.position.x, c.position.y, cx, cy);
            let w1: i128 = edge_function(c.position.x, c.position.y, a.position.x, a.position.y, cx, cy);
            let w2: i128 = edge_function(a.position.x, a.position.y, b.position.x, b.position.y, cx, cy);
            let s: i128 = w0 + w1 + w2;
            let covered: bool = (s > 0 && w0 >= 0 && w1 >= 0 && w2 >= 0) || (s < 0 && w0 <= 0
                && w1 <= 0 && w2 <= 0);
            proof {
                assert(row_frags(*a, *b, *c, py as int, px as int, x_hi as int) == (
                if inside_at(*a, *b, *c, center(px as int), center(py as int)) {
                    seq![frag_at(*a, *b, *c, px as int, py as int)] + row_frags(
                        *a, *b, *c, py as int, px as int + 1, x_hi as int,
                    )
                } else {
                    row_frags(*a, *b, *c, py as int, px as int + 1, x_hi as int)
                }));
            }
            if covered {
                let u0: i128 = if s > 0 { w0 } else { -w0 };
                let u1: i128 = if s > 0 { w1 } else { -w1 };
                let u2: i128 = if s > 0 { w2 } else { -w2 };
                let d: i128 = if s > 0 { s } else { -s };
                let frag = Fragment {
                    x: px,
                    y: py,
                    depth: interp(u0, u1, u2, d, a.position.z, b.position.z, c.position.z),
                    normal: Vec3 {
                        x: interp(u0, u1, u2, d, a.normal.x, b.normal.x, c.normal.x),
                        y: interp(u0, u1, u2, d, a.normal.y, b.normal.y, c.normal.y),
                        z: interp(u0, u1, u2, d, a.normal.z, b.normal.z, c.normal.z),
                    },
                    world_position: Vec3 {
                        x: interp(
                            u0, u1, u2, d,
                            a.world_position.x, b.world_position.x, c.world_position.x,
                        ),
                        y: interp(
                            u0, u1, u2, d,
                            a.world_position.y, b.world_position.y, c.world_position.y,
                        ),
                        z: interp(
                            u0, u1, u2, d,
                            a.world_position.z, b.world_position.z, c.world_position.z,
                        ),
                    },
                    color: a.color,
                };
                proof {
                    assert(frag == frag_at(*a, *b, *c, px as int, py as int));
                    assert((out@ + seq![frag_at(*a, *b, *c, px as int, py as int)]) + row_frags(
                        *a, *b, *c, py as int, px as int + 1, x_hi as int,
                    ) =~= out@ + (seq![frag_at(*a, *b, *c, px as int, py as int)] + row_frags(
                        *a, *b, *c, py as int, px as int + 1, x_hi as int,
                    )));
                }
                out.push(frag);
            }
            px = px + 1;
        }
        proof {
            assert(row_frags(*a, *b, *c, py as int, x_hi as int, x_hi as int)
                == Seq::<Fragment>::empty());
            assert(out@ + Seq::<Fragment>::empty() =~= out@);
        }
        py = py + 1;
    }
    proof {
        assert(rows_frags(*a, *b, *c, py as int, y_hi as int, x_lo as int, x_hi as int)
            == Seq::<Fragment>::empty());
        assert(out@ + Seq::<Fragment>::empty() =~= out@);
    }
    out
}

} // verus!
