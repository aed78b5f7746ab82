//! The vertex and fragment shaders: pure mappings over explicit data and
//! uniforms, callable independently per vertex and per fragment.
//!
//! Lighting is deferred to the fragment shader over interpolated normals
//! (Gouraud-like); that one mode is used consistently across the pipeline.

use crate::fragment::Fragment;
use crate::fx::{fits_i64, fx_div, fx_div_spec, lemma_prod_bound2, lemma_tdiv_in_range, tdiv,
    tdiv_i128, COORD_LIMIT, FX_ONE};
use crate::geom::{dot_spec, normalize_spec, vec3_bounded, Color, Vec3, Vec4};
use crate::light::Light;
use crate::matrix::{mat4_bounded, mat_apply, mat_apply_fits, mat_apply_spec, Mat4};
use crate::vertex::{ShadedVertex, Vertex};
use vstd::prelude::*;

verus! {

/// The per-frame bundle of transforms and elapsed time (fixed-point
/// seconds), read-only input shared by all shader invocations of a frame.
pub struct Uniforms {
    pub model_matrix: Mat4,
    pub view_matrix: Mat4,
    pub projection_matrix: Mat4,
    pub viewport_matrix: Mat4,
    pub time: i64,
}

/// The model-space position as a homogeneous point.
pub open spec fn position4_spec(v: Vertex) -> Vec4 {
    Vec4 { x: v.position.x, y: v.position.y, z: v.position.z, w: FX_ONE }
}

/// The world-space position: the model transform applied to the position.
pub open spec fn world4_spec(v: Vertex, u: Uniforms) -> Vec4 {
    mat_apply_spec(u.model_matrix, position4_spec(v))
}

/// The camera-space position.
pub open spec fn view4_spec(v: Vertex, u: Uniforms) -> Vec4 {
    mat_apply_spec(u.view_matrix, world4_spec(v, u))
}

/// The clip-space position, before the perspective divide.
pub open spec fn clip4_spec(v: Vertex, u: Uniforms) -> Vec4 {
    mat_apply_spec(u.projection_matrix, view4_spec(v, u))
}

/// Normalized device coordinates: each clip component divided by the
/// clip-space w.
pub open spec fn ndc4_spec(v: Vertex, u: Uniforms) -> Vec4 {
    let c = clip4_spec(v, u);
    Vec4 {
        x: fx_div_spec(c.x as int, c.w as int) as i64,
        y: fx_div_spec(c.y as int, c.w as int) as i64,
        z: fx_div_spec(c.z as int, c.w as int) as i64,
        w: FX_ONE,
    }
}

/// The screen-space position: the viewport transform applied to NDC.
pub open spec fn screen4_spec(v: Vertex, u: Uniforms) -> Vec4 {
    mat_apply_spec(u.viewport_matrix, ndc4_spec(v, u))
}

/// The model-space normal as a homogeneous direction (w = 0, so the
/// translation column does not act on it).
pub open spec fn normal4_spec(v: Vertex) -> Vec4 {
    Vec4 { x: v.normal.x, y: v.normal.y, z: v.normal.z, w: 0 }
}

/// The shaded normal: the model transform applied to the direction, then
/// re-normalized (valid for uniform scale, which the model matrix uses).
pub open spec fn shaded_normal_spec(v: Vertex, u: Uniforms) -> Vec3 {
    let n = mat_apply_spec(u.model_matrix, normal4_spec(v));
    normalize_spec(Vec3 { x: n.x, y: n.y, z: n.z })
}

/// The complete vertex shader output.
pub open spec fn vertex_shader_spec(v: Vertex, u: Uniforms) -> ShadedVertex {
    let s = screen4_spec(v, u);
    let w = world4_spec(v, u);
    ShadedVertex {
        position: Vec3 { x: s.x, y: s.y, z: s.z },
        world_position: Vec3 { x: w.x, y: w.y, z: w.z },
        normal: shaded_normal_spec(v, u),
        color: v.color,
    }
}

/// The machine limits under which the vertex shader's fixed arithmetic is
/// exact: every stage stays within `i64`, and the clip-space w is nonzero
/// so the perspective divide is defined (w = 0 is a degenerate
/// configuration).
pub open spec fn vertex_shader_ok(v: Vertex, u: Uniforms) -> bool {
    &&& mat4_bounded(u.model_matrix, 0x4000_0000_0000_0000)
    &&& mat4_bounded(u.view_matrix, 0x4000_0000_0000_0000)
    &&& mat4_bounded(u.projection_matrix, 0x4000_0000_0000_0000)
    &&& mat4_bounded(u.viewport_matrix, 0x4000_0000_0000_0000)
    &&& crate::matrix::vec4_bounded(position4_spec(v), 0x4000_0000_0000_0000)
    &&& mat_apply_fits(u.model_matrix, position4_spec(v))
    &&& crate::matrix::vec4_bounded(world4_spec(v, u), 0x4000_0000_0000_0000)
    &&& mat_apply_fits(u.view_matrix, world4_spec(v, u))
    &&& crate::matrix::vec4_bounded(view4_spec(v, u), 0x4000_0000_0000_0000)
    &&& mat_apply_fits(u.projection_matrix, view4_spec(v, u))
    &&& clip4_spec(v, u).w != 0
    &&& fits_i64(fx_div_spec(clip4_spec(v, u).x as int, clip4_spec(v, u).w as int))
    &&& fits_i64(fx_div_spec(clip4_spec(v, u).y as int, clip4_spec(v, u).w as int))
    &&& fits_i64(fx_div_spec(clip4_spec(v, u).z as int, clip4_spec(v, u).w as int))
    &&& crate::matrix::vec4_bounded(ndc4_spec(v, u), 0x4000_0000_0000_0000)
    &&& mat_apply_fits(u.viewport_matrix, ndc4_spec(v, u))
    &&& crate::matrix::vec4_bounded(normal4_spec(v), 0x4000_0000_0000_0000)
    &&& mat_apply_fits(u.model_matrix, normal4_spec(v))
    &&& vec3_bounded(
        Vec3 {
            x: mat_apply_spec(u.model_matrix, normal4_spec(v)).x,
            y: mat_apply_spec(u.model_matrix, normal4_spec(v)).y,
            z: mat_apply_spec(u.model_matrix, normal4_spec(v)).z,
        },
        0x4000_0000_0000_0000,
    )
}

/// The vertex shader: transforms the position through
/// `viewport . projection . view . model` with the perspective divide
/// before the viewport step, retains the world-space position for
/// lighting, and transforms and re-normalizes the normal. A pure mapping;
/// every output component is pinned by `vertex_shader_spec`.
pub fn vertex_shader(v: &Vertex, u: &Uniforms) -> (out: ShadedVertex)
    requires
        vertex_shader_ok(*v, *u),
    ensures
        out == vertex_shader_spec(*v, *u),
{
    let pos4 = Vec4 { x: v.position.x, y: v.position.y, z: v.position.z, w: FX_ONE };
    let world = mat_apply(&u.model_matrix, pos4);
    let viewp = mat_apply(&u.view_matrix, world);
    let clip = mat_apply(&u.projection_matrix, viewp);
    let ndc = Vec4 {
        x: fx_div(clip.x, clip.w),
        y: fx_div(clip.y, clip.w),
        z: fx_div(clip.z, clip.w),
        w: FX_ONE,
    };
    let screen = mat_apply(&u.viewport_matrix, ndc);
    let normal4 = Vec4 { x: v.normal.x, y: v.normal.y, z: v.normal.z, w: 0 };
    let tn = mat_apply(&u.model_matrix, normal4);
    let normal = Vec3 { x: tn.x, y: tn.y, z: tn.z }.normalize();
    ShadedVertex {
        position: Vec3 { x: screen.x, y: screen.y, z: screen.z },
        world_position: Vec3 { x: world.x, y: world.y, z: world.z },
        normal,
        color: v.color,
    }
}

/// Clamp an integer to a color channel's range.
pub open spec fn clamp_255(x: int) -> int {
    if x < 0 {
        0
    } else if x > 255 {
        255
    } else {
        x
    }
}

/// The diffuse lighting intensity at a fragment: the dot product of the
/// re-normalized interpolated normal with the unit direction toward the
/// light, clamped below at zero. At most about `FX_ONE` (exactly one for
/// a normal pointing straight at the light).
pub open spec fn intensity_spec(f: Fragment, l: Light) -> int {
    let dir = normalize_spec(
        Vec3 {
            x: (l.position.x - f.world_position.x) as i64,
            y: (l.position.y - f.world_position.y) as i64,
            z: (l.position.z - f.world_position.z) as i64,
        },
    );
    let d = dot_spec(normalize_spec(f.normal), dir);
    if d < 0 {
        0
    } else {
        d
    }
}

/// One shaded channel: the base channel scaled by the intensity and
/// clamped to the valid range.
pub open spec fn shade_channel_spec(c: u8, intensity: int) -> int {
    clamp_255(tdiv(c * intensity, FX_ONE as int))
}

/// The fragment shader's exact output color.
pub open spec fn fragment_color_spec(f: Fragment, l: Light) -> Color {
    Color {
        r: shade_channel_spec(f.color.r, intensity_spec(f, l)) as u8,
        g: shade_channel_spec(f.color.g, intensity_spec(f, l)) as u8,
        b: shade_channel_spec(f.color.b, intensity_spec(f, l)) as u8,
        a: f.color.a,
    }
}

/// Scale one channel by the intensity and clamp.
fn shade_channel(c: u8, intensity: i64) -> (r: u8)
    requires
        0 <= intensity <= 0x10_0000,
    ensures
        r == shade_channel_spec(c, intensity as int),
{
    proof {
        lemma_prod_bound2(c as int, intensity as int, 255, 0x10_0000);
    }
    let p: i64 = (c as i64) * intensity;
    let q: i64 = tdiv_i128(p as i128, FX_ONE as i128) as i64;
    proof {
        vstd::arithmetic::div_mod::lemma_div_pos_is_pos(p as int, FX_ONE as int);
        vstd::arithmetic::div_mod::lemma_div_is_ordered(p as int, 0x1000_0000int, FX_ONE as int);
    }
    if q > 255 {
        255
    } else {
        q as u8
    }
}

/// The fragment shader: combines the base color with the diffuse term
/// `max(0, dot(normal, normalize(light_position - world_position)))`,
/// scaled by the (unit) light intensity and clamped to the valid color
/// range. A pure function of the fragment and the light; fragments may be
/// shaded in any order.
pub fn fragment_shader(f: &Fragment, l: &Light) -> (c: Color)
    requires
        vec3_bounded(f.normal, COORD_LIMIT as int),
        vec3_bounded(f.world_position, COORD_LIMIT as int),
        vec3_bounded(l.position, COORD_LIMIT as int),
    ensures
        c == fragment_color_spec(*f, *l),
{
    let lx: i64 = l.position.x - f.world_position.x;
    let ly: i64 = l.position.y - f.world_position.y;
    let lz: i64 = l.position.z - f.world_position.z;
    let dir = Vec3 { x: lx, y: ly, z: lz }.normalize();
    let n = f.normal.normalize();
    proof {
        lemma_prod_bound2(n.x as int, dir.x as int, FX_ONE as int, FX_ONE as int);
        lemma_prod_bound2(n.y as int, dir.y as int, FX_ONE as int, FX_ONE as int);
        lemma_prod_bound2(n.z as int, dir.z as int, FX_ONE as int, FX_ONE as int);
        lemma_tdiv_in_range(
            n.x * dir.x + n.y * dir.y + n.z * dir.z,
            FX_ONE as int,
            3 * FX_ONE as int,
        );
    }
    let d: i64 = n.dot(dir);
    let intensity: i64 = if d < 0 {
        0
    } else {
        d
    };
    Color {
        r: shade_channel(f.color.r, intensity),
        g: shade_channel(f.color.g, intensity),
        b: shade_channel(f.color.b, intensity),
        a: f.color.a,
    }
}

} // verus!
