//! Geometric value types: colors and fixed-point vectors.

use crate::fx::{
    fx_div_spec, lemma_prod_bound, lemma_sqrt_floor_bounds, lemma_tdiv_in_range, sqrt_floor,
    tdiv, tdiv_i128, isqrt_u128, fx_div, FX_ONE,
};
use vstd::prelude::*;

verus! {

/// An 8-bit RGBA color.
#[derive(Clone, Copy, PartialEq, Eq, Structural, Debug)]
pub struct Color {
    pub r: u8,
    pub g: u8,
    pub b: u8,
    pub a: u8,
}

impl Color {
    pub fn new(r: u8, g: u8, b: u8, a: u8) -> (c: Color)
        ensures
            c == (Color { r, g, b, a }),
    {
        Color { r, g, b, a }
    }
}

/// A 3-component vector of 16.16 fixed-point values.
#[derive(Clone, Copy, PartialEq, Eq, Structural, Debug)]
pub struct Vec3 {
    pub x: i64,
    pub y: i64,
    pub z: i64,
}

/// A homogeneous 4-component vector of 16.16 fixed-point values.
#[derive(Clone, Copy, PartialEq, Eq, Structural, Debug)]
pub struct Vec4 {
    pub x: i64,
    pub y: i64,
    pub z: i64,
    pub w: i64,
}

/// All components within `[-bound, bound]`.
pub open spec fn vec3_bounded(v: Vec3, bound: int) -> bool {
    &&& -bound <= v.x <= bound
    &&& -bound <= v.y <= bound
    &&& -bound <= v.z <= bound
}

/// The squared magnitude of a vector, an exact integer at scale `FX_ONE^2`.
pub open spec fn mag2_spec(v: Vec3) -> int {
    v.x * v.x + v.y * v.y + v.z * v.z
}

/// The fixed-point length of a vector: the floor square root of the exact
/// squared magnitude, which lands back at scale `FX_ONE`.
pub open spec fn len_spec(v: Vec3) -> int {
    sqrt_floor(mag2_spec(v) as nat) as int
}

/// The normalization of `v`: each component divided by the fixed-point
/// length, or the zero vector when `v` is zero (a defensive total
/// extension; a zero direction is a caller configuration error).
pub open spec fn normalize_spec(v: Vec3) -> Vec3 {
    if mag2_spec(v) == 0 {
        Vec3 { x: 0, y: 0, z: 0 }
    } else {
        Vec3 {
            x: fx_div_spec(v.x as int, len_spec(v)) as i64,
            y: fx_div_spec(v.y as int, len_spec(v)) as i64,
            z: fx_div_spec(v.z as int, len_spec(v)) as i64,
        }
    }
}

/// The fixed-point dot product of two vectors.
pub open spec fn dot_spec(a: Vec3, b: Vec3) -> int {
    tdiv(a.x * b.x + a.y * b.y + a.z * b.z, FX_ONE as int)
}

/// Component magnitudes never exceed the vector's fixed-point length.
proof fn lemma_component_le_len(v: Vec3)
    ensures
        -len_spec(v) <= v.x <= len_spec(v),
        -len_spec(v) <= v.y <= len_spec(v),
        -len_spec(v) <= v.z <= len_spec(v),
{
    let m = mag2_spec(v) as nat;
    let l = sqrt_floor(m);
    lemma_sqrt_floor_bounds(m);
    assert(v.x * v.x >= 0 && v.y * v.y >= 0 && v.z * v.z >= 0) by (nonlinear_arith);
    assert forall|c: int| #[trigger] (c * c) <= m implies -(l as int) <= c <= l as int by {
        if c > l as int {
            assert((l + 1) * (l + 1) <= c * c) by (nonlinear_arith)
                requires
                    0 <= l,
                    l + 1 <= c,
            ;
        }
        if c < -(l as int) {
            assert((l + 1) * (l + 1) <= c * c) by (nonlinear_arith)
                requires
                    0 <= l,
                    c <= -(l as int) - 1,
            ;
        }
    }
}

impl Vec3 {
    pub fn new(x: i64, y: i64, z: i64) -> (v: Vec3)
        ensures
            v == (Vec3 { x, y, z }),
    {
        Vec3 { x, y, z }
    }

    /// Componentwise sum.
    pub fn add(self, o: Vec3) -> (r: Vec3)
        requires
            i64::MIN <= self.x + o.x <= i64::MAX,
            i64::MIN <= self.y + o.y <= i64::MAX,
            i64::MIN <= self.z + o.z <= i64::MAX,
        ensures
            r == (Vec3 { x: (self.x + o.x) as i64, y: (self.y + o.y) as i64, z: (self.z + o.z) as i64 }),
    {
        Vec3 { x: self.x + o.x, y: self.y + o.y, z: self.z + o.z }
    }

    /// Componentwise difference.
    pub fn sub(self, o: Vec3) -> (r: Vec3)
        requires
            i64::MIN <= self.x - o.x <= i64::MAX,
            i64::MIN <= self.y - o.y <= i64::MAX,
            i64::MIN <= self.z - o.z <= i64::MAX,
        ensures
            r == (Vec3 { x: (self.x - o.x) as i64, y: (self.y - o.y) as i64, z: (self.z - o.z) as i64 }),
    {
        Vec3 { x: self.x - o.x, y: self.y - o.y, z: self.z - o.z }
    }

    /// Fixed-point dot product; the operands must be modest enough that the
    /// exact sum of products stays within `i128` and the quotient within
    /// `i64` (any vector bounded by `2^40` qualifies).
    pub fn dot(self, o: Vec3) -> (r: i64)
        requires
            vec3_bounded(self, 0x4000_0000_0000_0000),
            vec3_bounded(o, 0x4000_0000_0000_0000),
            i64::MIN <= dot_spec(self, o) <= i64::MAX,
        ensures
            r == dot_spec(self, o),
    {
        proof {
            lemma_prod_bound(self.x as int, o.x as int, 0x4000_0000_0000_0000);
            lemma_prod_bound(self.y as int, o.y as int, 0x4000_0000_0000_0000);
            lemma_prod_bound(self.z as int, o.z as int, 0x4000_0000_0000_0000);
        }
        let s: i128 = (self.x as i128) * (o.x as i128) + (self.y as i128) * (o.y as i128)
            + (self.z as i128) * (o.z as i128);
        let q: i128 = tdiv_i128(s, FX_ONE as i128);
        q as i64
    }

    /// The fixed-point length: the floor square root of the exact squared
    /// magnitude.
    pub fn len(self) -> (l: i64)
        requires
            vec3_bounded(self, 0x4000_0000_0000_0000),
        ensures
            l == len_spec(self),
            0 <= l,
            l * l <= mag2_spec(self),
            mag2_spec(self) < (l + 1) * (l + 1),
    {
        proof {
            lemma_prod_bound(self.x as int, self.x as int, 0x4000_0000_0000_0000);
            lemma_prod_bound(self.y as int, self.y as int, 0x4000_0000_0000_0000);
            lemma_prod_bound(self.z as int, self.z as int, 0x4000_0000_0000_0000);
            assert((self.x as int) * (self.x as int) >= 0
                && (self.y as int) * (self.y as int) >= 0
                && (self.z as int) * (self.z as int) >= 0) by (nonlinear_arith);
        }
        let m: i128 = (self.x as i128) * (self.x as i128) + (self.y as i128) * (self.y as i128)
            + (self.z as i128) * (self.z as i128);
        let r: u128 = isqrt_u128(m as u128);
        proof {
            assert(r < 0x8000_0000_0000_0000) by (nonlinear_arith)
                requires
                    0 <= r,
                    (r as int) * (r as int) < 0x4000_0000_0000_0000_0000_0000_0000_0000int,
            ;
        }
        r as i64
    }

    /// Normalize to (approximately) unit fixed-point length. The result's
    /// components never exceed `FX_ONE` in magnitude. A zero vector maps to
    /// the zero vector.
    pub fn normalize(self) -> (r: Vec3)
        requires
            vec3_bounded(self, 0x4000_0000_0000_0000),
        ensures
            r == normalize_spec(self),
            vec3_bounded(r, FX_ONE as int),
    {
        let l: i64 = self.len();
        if l == 0 {
            proof {
                assert((self.x as int) * (self.x as int) >= 0
                    && (self.y as int) * (self.y as int) >= 0
                    && (self.z as int) * (self.z as int) >= 0) by (nonlinear_arith);
                assert(mag2_spec(self) < (0int + 1) * (0int + 1) ==> mag2_spec(self) <= 0)
                    by (nonlinear_arith);
                assert(mag2_spec(self) == 0);
            }
            Vec3 { x: 0, y: 0, z: 0 }
        } else {
            proof {
                lemma_component_le_len(self);
                assert(-(l as int) * (FX_ONE as int) <= (self.x as int) * (FX_ONE as int)
                    <= (l as int) * (FX_ONE as int)) by (nonlinear_arith)
                    requires
                        -(l as int) <= self.x as int <= l as int,
                        l > 0,
                ;
                assert(-(l as int) * (FX_ONE as int) <= (self.y as int) * (FX_ONE as int)
                    <= (l as int) * (FX_ONE as int)) by (nonlinear_arith)
                    requires
                        -(l as int) <= self.y as int <= l as int,
                        l > 0,
                ;
                assert(-(l as int) * (FX_ONE as int) <= (self.z as int) * (FX_ONE as int)
                    <= (l as int) * (FX_ONE as int)) by (nonlinear_arith)
                    requires
                        -(l as int) <= self.z as int <= l as int,
                        l > 0,
                ;
                lemma_tdiv_in_range(self.x as int * FX_ONE as int, l as int, FX_ONE as int);
                lemma_tdiv_in_range(self.y as int * FX_ONE as int, l as int, FX_ONE as int);
                lemma_tdiv_in_range(self.z as int * FX_ONE as int, l as int, FX_ONE as int);
                assert(mag2_spec(self) != 0) by {
                    if mag2_spec(self) == 0 {
                        assert(len_spec(self) == 0);
                    }
                };
            }
            Vec3 { x: fx_div(self.x, l), y: fx_div(self.y, l), z: fx_div(self.z, l) }
        }
    }
}

} // verus!
