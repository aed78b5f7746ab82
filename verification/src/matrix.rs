//! 4x4 fixed-point matrices: construction of model, projection and
//! viewport transforms, multiplication, and application to homogeneous
//! vectors.
//!
//! Every executable operation rounds once per entry (`tdiv` by `FX_ONE`)
//! and its contract states the rounded entry exactly.

use crate::fx::{
    fits_i64, fx_div, fx_div_spec, fx_mul, fx_mul_spec, lemma_prod_bound, lemma_prod_bound2,
    lemma_tdiv_in_range, tdiv, tdiv_i128, FX_ONE,
};
use crate::geom::{vec3_bounded, Vec3, Vec4};
use vstd::arithmetic::div_mod::{lemma_div_is_ordered, lemma_div_pos_is_pos, lemma_fundamental_div_mod};
use vstd::prelude::*;

verus! {

/// A 4x4 matrix of 16.16 fixed-point entries, stored by rows.
#[derive(Clone, Copy, PartialEq, Eq, Structural, Debug)]
pub struct Mat4 {
    pub r0: Vec4,
    pub r1: Vec4,
    pub r2: Vec4,
    pub r3: Vec4,
}

/// All components within `[-bound, bound]`.
pub open spec fn vec4_bounded(v: Vec4, bound: int) -> bool {
    &&& -bound <= v.x <= bound
    &&& -bound <= v.y <= bound
    &&& -bound <= v.z <= bound
    &&& -bound <= v.w <= bound
}

/// All entries within `[-bound, bound]`.
pub open spec fn mat4_bounded(m: Mat4, bound: int) -> bool {
    &&& vec4_bounded(m.r0, bound)
    &&& vec4_bounded(m.r1, bound)
    &&& vec4_bounded(m.r2, bound)
    &&& vec4_bounded(m.r3, bound)
}

/// The exact (unrounded) 4-component dot product, at scale `FX_ONE^2`.
pub open spec fn dot4_raw(a: Vec4, b: Vec4) -> int {
    a.x * b.x + a.y * b.y + a.z * b.z + a.w * b.w
}

/// The fixed-point 4-component dot product: the raw product rounded back
/// to scale `FX_ONE`.
pub open spec fn dot4_spec(a: Vec4, b: Vec4) -> int {
    tdiv(dot4_raw(a, b), FX_ONE as int)
}

/// Columns of a matrix.
pub open spec fn col0(m: Mat4) -> Vec4 {
    Vec4 { x: m.r0.x, y: m.r1.x, z: m.r2.x, w: m.r3.x }
}

pub open spec fn col1(m: Mat4) -> Vec4 {
    Vec4 { x: m.r0.y, y: m.r1.y, z: m.r2.y, w: m.r3.y }
}

pub open spec fn col2(m: Mat4) -> Vec4 {
    Vec4 { x: m.r0.z, y: m.r1.z, z: m.r2.z, w: m.r3.z }
}

pub open spec fn col3(m: Mat4) -> Vec4 {
    Vec4 { x: m.r0.w, y: m.r1.w, z: m.r2.w, w: m.r3.w }
}

/// The fixed-point matrix product, each entry rounded once.
pub open spec fn mat_mul_spec(a: Mat4, b: Mat4) -> Mat4 {
    Mat4 {
        r0: Vec4 {
            x: dot4_spec(a.r0, col0(b)) as i64,
            y: dot4_spec(a.r0, col1(b)) as i64,
            z: dot4_spec(a.r0, col2(b)) as i64,
            w: dot4_spec(a.r0, col3(b)) as i64,
        },
        r1: Vec4 {
            x: dot4_spec(a.r1, col0(b)) as i64,
            y: dot4_spec(a.r1, col1(b)) as i64,
            z: dot4_spec(a.r1, col2(b)) as i64,
            w: dot4_spec(a.r1, col3(b)) as i64,
        },
        r2: Vec4 {
            x: dot4_spec(a.r2, col0(b)) as i64,
            y: dot4_spec(a.r2, col1(b)) as i64,
            z: dot4_spec(a.r2, col2(b)) as i64,
            w: dot4_spec(a.r2, col3(b)) as i64,
        },
        r3: Vec4 {
            x: dot4_spec(a.r3, col0(b)) as i64,
            y: dot4_spec(a.r3, col1(b)) as i64,
            z: dot4_spec(a.r3, col2(b)) as i64,
            w: dot4_spec(a.r3, col3(b)) as i64,
        },
    }
}

/// Every entry of the product stays within `i64`.
pub open spec fn mat_mul_fits(a: Mat4, b: Mat4) -> bool {
    &&& fits_i64(dot4_spec(a.r0, col0(b)))
    &&& fits_i64(dot4_spec(a.r0, col1(b)))
    &&& fits_i64(dot4_spec(a.r0, col2(b)))
    &&& fits_i64(dot4_spec(a.r0, col3(b)))
    &&& fits_i64(dot4_spec(a.r1, col0(b)))
    &&& fits_i64(dot4_spec(a.r1, col1(b)))
    &&& fits_i64(dot4_spec(a.r1, col2(b)))
    &&& fits_i64(dot4_spec(a.r1, col3(b)))
    &&& fits_i64(dot4_spec(a.r2, col0(b)))
    &&& fits_i64(dot4_spec(a.r2, col1(b)))
    &&& fits_i64(dot4_spec(a.r2, col2(b)))
    &&& fits_i64(dot4_spec(a.r2, col3(b)))
    &&& fits_i64(dot4_spec(a.r3, col0(b)))
    &&& fits_i64(dot4_spec(a.r3, col1(b)))
    &&& fits_i64(dot4_spec(a.r3, col2(b)))
    &&& fits_i64(dot4_spec(a.r3, col3(b)))
}

/// The fixed-point application of a matrix to a homogeneous vector.
pub open spec fn mat_apply_spec(m: Mat4, v: Vec4) -> Vec4 {
    Vec4 {
        x: dot4_spec(m.r0, v) as i64,
        y: dot4_spec(m.r1, v) as i64,
        z: dot4_spec(m.r2, v) as i64,
        w: dot4_spec(m.r3, v) as i64,
    }
}

/// Every component of the application stays within `i64`.
pub open spec fn mat_apply_fits(m: Mat4, v: Vec4) -> bool {
    &&& fits_i64(dot4_spec(m.r0, v))
    &&& fits_i64(dot4_spec(m.r1, v))
    &&& fits_i64(dot4_spec(m.r2, v))
    &&& fits_i64(dot4_spec(m.r3, v))
}

/// The fixed-point dot product of a row and a column.
pub fn dot4(a: Vec4, b: Vec4) -> (r: i64)
    requires
        vec4_bounded(a, 0x4000_0000_0000_0000),
        vec4_bounded(b, 0x4000_0000_0000_0000),
        fits_i64(dot4_spec(a, b)),
    ensures
        r == dot4_spec(a, b),
{
    proof {
        lemma_prod_bound(a.x as int, b.x as int, 0x4000_0000_0000_0000);
        lemma_prod_bound(a.y as int, b.y as int, 0x4000_0000_0000_0000);
        lemma_prod_bound(a.z as int, b.z as int, 0x4000_0000_0000_0000);
        lemma_prod_bound(a.w as int, b.w as int, 0x4000_0000_0000_0000);
    }
    let s: i128 = (a.x as i128) * (b.x as i128) + (a.y as i128) * (b.y as i128)
        + (a.z as i128) * (b.z as i128) + (a.w as i128) * (b.w as i128);
    let q: i128 = tdiv_i128(s, FX_ONE as i128);
    q as i64
}

/// A rounded dot product of `ba`- and `bb`-bounded vectors is bounded by
/// `4 * ba * bb / FX_ONE + 1`.
pub proof fn lemma_dot4_bounded(a: Vec4, b: Vec4, ba: int, bb: int)
    requires
        0 <= ba,
        0 <= bb,
        vec4_bounded(a, ba),
        vec4_bounded(b, bb),
    ensures
        -(4 * ba * bb / FX_ONE as int + 1) <= dot4_spec(a, b) <= 4 * ba * bb / FX_ONE as int + 1,
{
    lemma_prod_bound2(a.x as int, b.x as int, ba, bb);
    lemma_prod_bound2(a.y as int, b.y as int, ba, bb);
    lemma_prod_bound2(a.z as int, b.z as int, ba, bb);
    lemma_prod_bound2(a.w as int, b.w as int, ba, bb);
    assert(4 * ba * bb == 4 * (ba * bb)) by (nonlinear_arith);
    let q = 4 * ba * bb / FX_ONE as int;
    lemma_fundamental_div_mod(4 * ba * bb, FX_ONE as int);
    assert(-(FX_ONE as int * (q + 1)) <= dot4_raw(a, b) <= FX_ONE as int * (q + 1));
    lemma_tdiv_in_range(dot4_raw(a, b), FX_ONE as int, q + 1);
}

/// A bounded matrix product: entries of `mat_mul_spec(a, b)` stay within
/// `4 * ba * bb / FX_ONE + 1` and, when that is below `i64::MAX`, the
/// product fits.
pub proof fn lemma_mat_mul_bounded(a: Mat4, b: Mat4, ba: int, bb: int)
    requires
        0 <= ba,
        0 <= bb,
        mat4_bounded(a, ba),
        mat4_bounded(b, bb),
        4 * ba * bb / FX_ONE as int + 1 <= i64::MAX,
    ensures
        mat_mul_fits(a, b),
        mat4_bounded(mat_mul_spec(a, b), 4 * ba * bb / FX_ONE as int + 1),
{
    lemma_dot4_bounded(a.r0, col0(b), ba, bb);
    lemma_dot4_bounded(a.r0, col1(b), ba, bb);
    lemma_dot4_bounded(a.r0, col2(b), ba, bb);
    lemma_dot4_bounded(a.r0, col3(b), ba, bb);
    lemma_dot4_bounded(a.r1, col0(b), ba, bb);
    lemma_dot4_bounded(a.r1, col1(b), ba, bb);
    lemma_dot4_bounded(a.r1, col2(b), ba, bb);
    lemma_dot4_bounded(a.r1, col3(b), ba, bb);
    lemma_dot4_bounded(a.r2, col0(b), ba, bb);
    lemma_dot4_bounded(a.r2, col1(b), ba, bb);
    lemma_dot4_bounded(a.r2, col2(b), ba, bb);
    lemma_dot4_bounded(a.r2, col3(b), ba, bb);
    lemma_dot4_bounded(a.r3, col0(b), ba, bb);
    lemma_dot4_bounded(a.r3, col1(b), ba, bb);
    lemma_dot4_bounded(a.r3, col2(b), ba, bb);
    lemma_dot4_bounded(a.r3, col3(b), ba, bb);
}

/// A bounded matrix application: components of `mat_apply_spec(m, v)`
/// stay within `4 * bm * bv / FX_ONE + 1` and the application fits.
pub proof fn lemma_mat_apply_bounded(m: Mat4, v: Vec4, bm: int, bv: int)
    requires
        0 <= bm,
        0 <= bv,
        mat4_bounded(m, bm),
        vec4_bounded(v, bv),
        4 * bm * bv / FX_ONE as int + 1 <= i64::MAX,
    ensures
        mat_apply_fits(m, v),
        vec4_bounded(mat_apply_spec(m, v), 4 * bm * bv / FX_ONE as int + 1),
{
    lemma_dot4_bounded(m.r0, v, bm, bv);
    lemma_dot4_bounded(m.r1, v, bm, bv);
    lemma_dot4_bounded(m.r2, v, bm, bv);
    lemma_dot4_bounded(m.r3, v, bm, bv);
}

/// Fixed-point matrix multiplication, entry by entry.
pub fn mat_mul(a: &Mat4, b: &Mat4) -> (r: Mat4)
    requires
        mat4_bounded(*a, 0x4000_0000_0000_0000),
        mat4_bounded(*b, 0x4000_0000_0000_0000),
        mat_mul_fits(*a, *b),
    ensures
        r == mat_mul_spec(*a, *b),
{
    let c0 = Vec4 { x: b.r0.x, y: b.r1.x, z: b.r2.x, w: b.r3.x };
    let c1 = Vec4 { x: b.r0.y, y: b.r1.y, z: b.r2.y, w: b.r3.y };
    let c2 = Vec4 { x: b.r0.z, y: b.r1.z, z: b.r2.z, w: b.r3.z };
    let c3 = Vec4 { x: b.r0.w, y: b.r1.w, z: b.r2.w, w: b.r3.w };
    Mat4 {
        r0: Vec4 { x: dot4(a.r0, c0), y: dot4(a.r0, c1), z: dot4(a.r0, c2), w: dot4(a.r0, c3) },
        r1: Vec4 { x: dot4(a.r1, c0), y: dot4(a.r1, c1), z: dot4(a.r1, c2), w: dot4(a.r1, c3) },
        r2: Vec4 { x: dot4(a.r2, c0), y: dot4(a.r2, c1), z: dot4(a.r2, c2), w: dot4(a.r2, c3) },
        r3: Vec4 { x: dot4(a.r3, c0), y: dot4(a.r3, c1), z: dot4(a.r3, c2), w: dot4(a.r3, c3) },
    }
}

/// Sines and cosines for a rotation about each axis, as fixed-point
/// values in `[-FX_ONE, FX_ONE]` (the caller evaluates the trigonometry).
#[derive(Clone, Copy, PartialEq, Eq, Structural, Debug)]
pub struct Rotation {
    pub sin_x: i64,
    pub cos_x: i64,
    pub sin_y: i64,
    pub cos_y: i64,
    pub sin_z: i64,
    pub cos_z: i64,
}

/// All six entries within `[-FX_ONE, FX_ONE]`.
pub open spec fn rotation_bounded(r: Rotation) -> bool {
    &&& -FX_ONE <= r.sin_x <= FX_ONE
    &&& -FX_ONE <= r.cos_x <= FX_ONE
    &&& -FX_ONE <= r.sin_y <= FX_ONE
    &&& -FX_ONE <= r.cos_y <= FX_ONE
    &&& -FX_ONE <= r.sin_z <= FX_ONE
    &&& -FX_ONE <= r.cos_z <= FX_ONE
}

pub open spec fn identity_spec() -> Mat4 {
    Mat4 {
        r0: Vec4 { x: FX_ONE, y: 0, z: 0, w: 0 },
        r1: Vec4 { x: 0, y: FX_ONE, z: 0, w: 0 },
        r2: Vec4 { x: 0, y: 0, z: FX_ONE, w: 0 },
        r3: Vec4 { x: 0, y: 0, z: 0, w: FX_ONE },
    }
}

pub open spec fn translate_spec(t: Vec3) -> Mat4 {
    Mat4 {
        r0: Vec4 { x: FX_ONE, y: 0, z: 0, w: t.x },
        r1: Vec4 { x: 0, y: FX_ONE, z: 0, w: t.y },
        r2: Vec4 { x: 0, y: 0, z: FX_ONE, w: t.z },
        r3: Vec4 { x: 0, y: 0, z: 0, w: FX_ONE },
    }
}

pub open spec fn scale_spec(s: i64) -> Mat4 {
    Mat4 {
        r0: Vec4 { x: s, y: 0, z: 0, w: 0 },
        r1: Vec4 { x: 0, y: s, z: 0, w: 0 },
        r2: Vec4 { x: 0, y: 0, z: s, w: 0 },
        r3: Vec4 { x: 0, y: 0, z: 0, w: FX_ONE },
    }
}

pub open spec fn rotate_x_spec(sin: i64, cos: i64) -> Mat4 {
    Mat4 {
        r0: Vec4 { x: FX_ONE, y: 0, z: 0, w: 0 },
        r1: Vec4 { x: 0, y: cos, z: (-sin) as i64, w: 0 },
        r2: Vec4 { x: 0, y: sin, z: cos, w: 0 },
        r3: Vec4 { x: 0, y: 0, z: 0, w: FX_ONE },
    }
}

pub open spec fn rotate_y_spec(sin: i64, cos: i64) -> Mat4 {
    Mat4 {
        r0: Vec4 { x: cos, y: 0, z: sin, w: 0 },
        r1: Vec4 { x: 0, y: FX_ONE, z: 0, w: 0 },
        r2: Vec4 { x: (-sin) as i64, y: 0, z: cos, w: 0 },
        r3: Vec4 { x: 0, y: 0, z: 0, w: FX_ONE },
    }
}

pub open spec fn rotate_z_spec(sin: i64, cos: i64) -> Mat4 {
    Mat4 {
        r0: Vec4 { x: cos, y: (-sin) as i64, z: 0, w: 0 },
        r1: Vec4 { x: sin, y: cos, z: 0, w: 0 },
        r2: Vec4 { x: 0, y: 0, z: FX_ONE, w: 0 },
        r3: Vec4 { x: 0, y: 0, z: 0, w: FX_ONE },
    }
}

/// The model matrix: scale, then rotate about x, y, z, then translate,
/// composed in that fixed order as `T * (Rz * (Ry * (Rx * S)))`.
pub open spec fn model_matrix_spec(translation: Vec3, scale: i64, rot: Rotation) -> Mat4 {
    mat_mul_spec(
        translate_spec(translation),
        mat_mul_spec(
            rotate_z_spec(rot.sin_z, rot.cos_z),
            mat_mul_spec(
                rotate_y_spec(rot.sin_y, rot.cos_y),
                mat_mul_spec(rotate_x_spec(rot.sin_x, rot.cos_x), scale_spec(scale)),
            ),
        ),
    )
}

/// The identity transform.
pub fn identity() -> (r: Mat4)
    ensures
        r == identity_spec(),
{
    Mat4 {
        r0: Vec4 { x: FX_ONE, y: 0, z: 0, w: 0 },
        r1: Vec4 { x: 0, y: FX_ONE, z: 0, w: 0 },
        r2: Vec4 { x: 0, y: 0, z: FX_ONE, w: 0 },
        r3: Vec4 { x: 0, y: 0, z: 0, w: FX_ONE },
    }
}

/// Build the model matrix from scene parameters, composing scale, then
/// rotation, then translation. The deterministic composition order is the
/// contract; every entry is pinned by `model_matrix_spec`.
pub fn create_model_matrix(translation: Vec3, scale: i64, rot: Rotation) -> (r: Mat4)
    requires
        vec3_bounded(translation, 0x100_0000_0000),
        0 <= scale <= 0x4000_0000,
        rotation_bounded(rot),
    ensures
        r == model_matrix_spec(translation, scale, rot),
{
    let s = Mat4 {
        r0: Vec4 { x: scale, y: 0, z: 0, w: 0 },
        r1: Vec4 { x: 0, y: scale, z: 0, w: 0 },
        r2: Vec4 { x: 0, y: 0, z: scale, w: 0 },
        r3: Vec4 { x: 0, y: 0, z: 0, w: FX_ONE },
    };
    let rx = Mat4 {
        r0: Vec4 { x: FX_ONE, y: 0, z: 0, w: 0 },
        r1: Vec4 { x: 0, y: rot.cos_x, z: -rot.sin_x, w: 0 },
        r2: Vec4 { x: 0, y: rot.sin_x, z: rot.cos_x, w: 0 },
        r3: Vec4 { x: 0, y: 0, z: 0, w: FX_ONE },
    };
    let ry = Mat4 {
        r0: Vec4 { x: rot.cos_y, y: 0, z: rot.sin_y, w: 0 },
        r1: Vec4 { x: 0, y: FX_ONE, z: 0, w: 0 },
        r2: Vec4 { x: -rot.sin_y, y: 0, z: rot.cos_y, w: 0 },
        r3: Vec4 { x: 0, y: 0, z: 0, w: FX_ONE },
    };
    let rz = Mat4 {
        r0: Vec4 { x: rot.cos_z, y: -rot.sin_z, z: 0, w: 0 },
        r1: Vec4 { x: rot.sin_z, y: rot.cos_z, z: 0, w: 0 },
        r2: Vec4 { x: 0, y: 0, z: FX_ONE, w: 0 },
        r3: Vec4 { x: 0, y: 0, z: 0, w: FX_ONE },
    };
    let t = Mat4 {
        r0: Vec4 { x: FX_ONE, y: 0, z: 0, w: translation.x },
        r1: Vec4 { x: 0, y: FX_ONE, z: 0, w: translation.y },
        r2: Vec4 { x: 0, y: 0, z: FX_ONE, w: translation.z },
        r3: Vec4 { x: 0, y: 0, z: 0, w: FX_ONE },
    };
    proof {
        lemma_mat_mul_bounded(rx, s, FX_ONE as int, 0x4000_0000);
    }
    let m1 = mat_mul(&rx, &s);
    proof {
        lemma_mat_mul_bounded(ry, m1, FX_ONE as int, 4 * (FX_ONE as int) * 0x4000_0000 / (
        FX_ONE as int) + 1);
    }
    let m2 = mat_mul(&ry, &m1);
    proof {
        lemma_mat_mul_bounded(
            rz,
            m2,
            FX_ONE as int,
            4 * (FX_ONE as int) * (4 * (FX_ONE as int) * 0x4000_0000 / (FX_ONE as int) + 1) / (
            FX_ONE as int) + 1,
        );
    }
    let m3 = mat_mul(&rz, &m2);
    proof {
        lemma_mat_mul_bounded(
            t,
            m3,
            0x100_0000_0000,
            4 * (FX_ONE as int) * (4 * (FX_ONE as int) * (4 * (FX_ONE as int) * 0x4000_0000 / (
            FX_ONE as int) + 1) / (FX_ONE as int) + 1) / (FX_ONE as int) + 1,
        );
    }
    mat_mul(&t, &m3)
}

/// Fixed-point application of a matrix to a homogeneous vector.
pub fn mat_apply(m: &Mat4, v: Vec4) -> (r: Vec4)
    requires
        mat4_bounded(*m, 0x4000_0000_0000_0000),
        vec4_bounded(v, 0x4000_0000_0000_0000),
        mat_apply_fits(*m, v),
    ensures
        r == mat_apply_spec(*m, v),
{
    Vec4 { x: dot4(m.r0, v), y: dot4(m.r1, v), z: dot4(m.r2, v), w: dot4(m.r3, v) }
}

/// The perspective projection matrix for a focal length (the cotangent of
/// half the vertical field of view), aspect ratio and near/far planes.
pub open spec fn projection_matrix_spec(focal: i64, aspect: i64, near: i64, far: i64) -> Mat4 {
    Mat4 {
        r0: Vec4 { x: fx_div_spec(focal as int, aspect as int) as i64, y: 0, z: 0, w: 0 },
        r1: Vec4 { x: 0, y: focal, z: 0, w: 0 },
        r2: Vec4 {
            x: 0,
            y: 0,
            z: (-fx_div_spec(far + near, far - near)) as i64,
            w: (-(2 * fx_div_spec(fx_mul_spec(far as int, near as int), far - near))) as i64,
        },
        r3: Vec4 { x: 0, y: 0, z: (-FX_ONE) as i64, w: 0 },
    }
}

/// Build the perspective projection matrix. `near > 0`, `far > near` and
/// `aspect > 0` are unchecked configuration preconditions (violating them
/// would make the matrix degenerate); the remaining bounds keep the fixed
/// arithmetic within `i64`.
pub fn create_projection_matrix(focal: i64, aspect: i64, near: i64, far: i64) -> (r: Mat4)
    requires
        0 < near < far,
        far + near <= i64::MAX,
        0 < aspect,
        0 <= focal,
        fits_i64(fx_div_spec(focal as int, aspect as int)),
        fits_i64(fx_mul_spec(far as int, near as int)),
        fits_i64(fx_div_spec(far + near, far - near)),
        fits_i64(2 * fx_div_spec(fx_mul_spec(far as int, near as int), far - near)),
    ensures
        r == projection_matrix_spec(focal, aspect, near, far),
{
    proof {
        lemma_div_pos_is_pos((focal as int) * (FX_ONE as int), aspect as int);
        assert((focal as int) * (FX_ONE as int) >= 0) by (nonlinear_arith)
            requires
                focal >= 0,
        ;
        assert((far as int) * (near as int) > 0) by (nonlinear_arith)
            requires
                far > 0,
                near > 0,
        ;
        assert(((far + near) as int) * (FX_ONE as int) >= 0) by (nonlinear_arith)
            requires
                far + near >= 0,
        ;
        lemma_div_pos_is_pos((far + near) * (FX_ONE as int), far - near);
        lemma_div_pos_is_pos(fx_mul_spec(far as int, near as int) * (FX_ONE as int), far - near);
        lemma_div_pos_is_pos((far as int) * (near as int), FX_ONE as int);
        assert(fx_mul_spec(far as int, near as int) * (FX_ONE as int) >= 0) by (nonlinear_arith)
            requires
                fx_mul_spec(far as int, near as int) >= 0,
        ;
    }
    let m00: i64 = fx_div(focal, aspect);
    let fn_prod: i64 = fx_mul(far, near);
    let m22: i64 = -fx_div(far + near, far - near);
    let m23: i64 = -(2 * fx_div(fn_prod, far - near));
    Mat4 {
        r0: Vec4 { x: m00, y: 0, z: 0, w: 0 },
        r1: Vec4 { x: 0, y: focal, z: 0, w: 0 },
        r2: Vec4 { x: 0, y: 0, z: m22, w: m23 },
        r3: Vec4 { x: 0, y: 0, z: -FX_ONE, w: 0 },
    }
}

/// The viewport matrix: maps normalized device coordinates in `[-1, 1]^2`
/// to the pixel rectangle `[x, x+width] x [y, y+height]`, flipping the
/// vertical axis so increasing y runs downward in pixel space; depth
/// passes through unchanged.
pub open spec fn viewport_matrix_spec(x: i64, y: i64, width: i64, height: i64) -> Mat4 {
    Mat4 {
        r0: Vec4 {
            x: tdiv(width as int, 2) as i64,
            y: 0,
            z: 0,
            w: (x + tdiv(width as int, 2)) as i64,
        },
        r1: Vec4 {
            x: 0,
            y: (-tdiv(height as int, 2)) as i64,
            z: 0,
            w: (y + tdiv(height as int, 2)) as i64,
        },
        r2: Vec4 { x: 0, y: 0, z: FX_ONE, w: 0 },
        r3: Vec4 { x: 0, y: 0, z: 0, w: FX_ONE },
    }
}

/// Build the viewport matrix for a pixel rectangle given in fixed-point
/// units.
pub fn create_viewport_matrix(x: i64, y: i64, width: i64, height: i64) -> (r: Mat4)
    requires
        0 <= width <= 0x8000_0000,
        0 <= height <= 0x8000_0000,
        -0x8000_0000 <= x <= 0x8000_0000,
        -0x8000_0000 <= y <= 0x8000_0000,
    ensures
        r == viewport_matrix_spec(x, y, width, height),
{
    let hw: i64 = tdiv_i128(width as i128, 2) as i64;
    let hh: i64 = tdiv_i128(height as i128, 2) as i64;
    proof {
        lemma_div_pos_is_pos(width as int, 2);
        lemma_div_is_ordered(width as int, 0x8000_0000, 2);
        lemma_div_pos_is_pos(height as int, 2);
        lemma_div_is_ordered(height as int, 0x8000_0000, 2);
    }
    Mat4 {
        r0: Vec4 { x: hw, y: 0, z: 0, w: x + hw },
        r1: Vec4 { x: 0, y: -hh, z: 0, w: y + hh },
        r2: Vec4 { x: 0, y: 0, z: FX_ONE, w: 0 },
        r3: Vec4 { x: 0, y: 0, z: 0, w: FX_ONE },
    }
}

/// The exact (unrounded) application of a matrix to a homogeneous tuple
/// of mathematical integers: the algebraic model of `mat_apply` before
/// rounding.
pub open spec fn xform_raw(m: Mat4, p: (int, int, int, int)) -> (int, int, int, int) {
    (
        m.r0.x * p.0 + m.r0.y * p.1 + m.r0.z * p.2 + m.r0.w * p.3,
        m.r1.x * p.0 + m.r1.y * p.1 + m.r1.z * p.2 + m.r1.w * p.3,
        m.r2.x * p.0 + m.r2.y * p.1 + m.r2.z * p.2 + m.r2.w * p.3,
        m.r3.x * p.0 + m.r3.y * p.1 + m.r3.z * p.2 + m.r3.w * p.3,
    )
}

/// Componentwise sum of homogeneous tuples.
pub open spec fn add4(a: (int, int, int, int), b: (int, int, int, int)) -> (int, int, int, int) {
    (a.0 + b.0, a.1 + b.1, a.2 + b.2, a.3 + b.3)
}

/// Matrix application distributes over vector addition.
pub proof fn lemma_xform_raw_additive(m: Mat4, a: (int, int, int, int), b: (int, int, int, int))
    ensures
        xform_raw(m, add4(a, b)) == add4(xform_raw(m, a), xform_raw(m, b)),
{
    assert forall|c: i64, p: int, q: int| #[trigger] (c * (p + q)) == c * p + c * q by {
        vstd::arithmetic::mul::lemma_mul_is_distributive_add(c as int, p, q);
    }
}

/// The exact clip-space position of a model-space point: the unrounded
/// composition of the model, view and projection transforms.
pub open spec fn clip_raw(model: Mat4, view: Mat4, proj: Mat4, p: (int, int, int, int)) -> (
    int,
    int,
    int,
    int,
) {
    xform_raw(proj, xform_raw(view, xform_raw(model, p)))
}

/// Vertex-shader linearity: translating a model-space position by a
/// vector `v` translates the exact clip-space position by the image of
/// the direction `(v, 0)` under the same composed transform — the
/// matrix-vector algebra behind the vertex shader, independent of the
/// per-stage fixed-point rounding.
pub proof fn lemma_clip_translation(model: Mat4, view: Mat4, proj: Mat4, p: Vec3, v: Vec3)
    ensures
        clip_raw(
            model,
            view,
            proj,
            (p.x + v.x, p.y + v.y, p.z + v.z, FX_ONE as int),
        ) == add4(
            clip_raw(model, view, proj, (p.x as int, p.y as int, p.z as int, FX_ONE as int)),
            clip_raw(model, view, proj, (v.x as int, v.y as int, v.z as int, 0)),
        ),
{
    let a = (p.x as int, p.y as int, p.z as int, FX_ONE as int);
    let b = (v.x as int, v.y as int, v.z as int, 0int);
    assert((p.x + v.x, p.y + v.y, p.z + v.z, FX_ONE as int) == add4(a, b));
    lemma_xform_raw_additive(model, a, b);
    lemma_xform_raw_additive(view, xform_raw(model, a), xform_raw(model, b));
    lemma_xform_raw_additive(
        proj,
        xform_raw(view, xform_raw(model, a)),
        xform_raw(view, xform_raw(model, b)),
    );
}

} // verus!
