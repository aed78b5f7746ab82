use softrender::fx::FX_ONE;
use softrender::geom::{Color, Vec3, Vec4};
use softrender::matrix::{
    create_model_matrix, create_projection_matrix, create_viewport_matrix, identity, mat_apply,
    mat_mul, Rotation,
};
use softrender::shaders::{vertex_shader, Uniforms};
use softrender::vertex::Vertex;

fn no_rotation() -> Rotation {
    Rotation { sin_x: 0, cos_x: FX_ONE, sin_y: 0, cos_y: FX_ONE, sin_z: 0, cos_z: FX_ONE }
}

#[test]
fn identity_application_is_the_identity() {
    let m = identity();
    let v = Vec4 { x: 3 * FX_ONE, y: -2 * FX_ONE, z: 12345, w: FX_ONE };
    assert_eq!(mat_apply(&m, v), v);
    let mm = mat_mul(&m, &m);
    assert_eq!(mm, m);
}

#[test]
fn model_matrix_composes_scale_rotation_translation() {
    // Scale 0.5, no rotation, translate by (1, 2, 3).
    let t = Vec3 { x: FX_ONE, y: 2 * FX_ONE, z: 3 * FX_ONE };
    let m = create_model_matrix(t, FX_ONE / 2, no_rotation());
    // A point at (2, 2, 2) scales to (1, 1, 1) and lands at (2, 3, 4).
    let p = Vec4 { x: 2 * FX_ONE, y: 2 * FX_ONE, z: 2 * FX_ONE, w: FX_ONE };
    let out = mat_apply(&m, p);
    assert_eq!(out, Vec4 { x: 2 * FX_ONE, y: 3 * FX_ONE, z: 4 * FX_ONE, w: FX_ONE });
}

#[test]
fn model_matrix_quarter_turn_about_z() {
    // sin 90 = 1, cos 90 = 0 about z; unit scale; no translation.
    let rot = Rotation { sin_x: 0, cos_x: FX_ONE, sin_y: 0, cos_y: FX_ONE, sin_z: FX_ONE, cos_z: 0 };
    let m = create_model_matrix(Vec3 { x: 0, y: 0, z: 0 }, FX_ONE, rot);
    let p = Vec4 { x: FX_ONE, y: 0, z: 0, w: FX_ONE };
    let out = mat_apply(&m, p);
    // (1, 0, 0) turns into (0, 1, 0).
    assert_eq!(out, Vec4 { x: 0, y: FX_ONE, z: 0, w: FX_ONE });
}

#[test]
fn viewport_maps_ndc_corners_to_the_pixel_rectangle() {
    let vp = create_viewport_matrix(0, 0, 100 * FX_ONE, 100 * FX_ONE);
    // NDC (-1, -1) -> pixel (0, 100): the vertical axis flips.
    let low = mat_apply(&vp, Vec4 { x: -FX_ONE, y: -FX_ONE, z: 0, w: FX_ONE });
    assert_eq!((low.x, low.y), (0, 100 * FX_ONE));
    // NDC (1, 1) -> pixel (100, 0).
    let high = mat_apply(&vp, Vec4 { x: FX_ONE, y: FX_ONE, z: 0, w: FX_ONE });
    assert_eq!((high.x, high.y), (100 * FX_ONE, 0));
    // Depth passes through unchanged.
    let mid = mat_apply(&vp, Vec4 { x: 0, y: 0, z: 12345, w: FX_ONE });
    assert_eq!(mid.z, 12345);
}

#[test]
fn projection_matrix_exact_entries() {
    // focal 1.0, aspect 1.0, near 1.0, far 100.0.
    let p = create_projection_matrix(FX_ONE, FX_ONE, FX_ONE, 100 * FX_ONE);
    assert_eq!(p.r0.x, FX_ONE);
    assert_eq!(p.r1.y, FX_ONE);
    assert_eq!(p.r2.z, -66859); // -(far+near)/(far-near) = -101/99 in 16.16
    assert_eq!(p.r2.w, -132394); // -2*far*near/(far-near) = -200/99 in 16.16
    assert_eq!(p.r3.z, -FX_ONE);
    assert_eq!(p.r3.w, 0);
}

fn passthrough_uniforms() -> Uniforms {
    Uniforms {
        model_matrix: identity(),
        view_matrix: identity(),
        projection_matrix: identity(),
        viewport_matrix: identity(),
        time: 0,
    }
}

#[test]
fn vertex_shader_translation_moves_screen_position_by_the_same_vector() {
    // With every matrix the identity the composed transform is linear, so
    // translating the model-space position by v translates the screen
    // position by exactly v.
    let u = passthrough_uniforms();
    let color = Color { r: 255, g: 255, b: 255, a: 255 };
    let n = Vec3 { x: 0, y: 0, z: FX_ONE };
    let p = Vertex::new(Vec3 { x: 3 * FX_ONE, y: -2 * FX_ONE, z: FX_ONE }, n, color);
    let v = Vec3 { x: 7 * FX_ONE, y: 5 * FX_ONE, z: -4 * FX_ONE };
    let moved = Vertex::new(
        Vec3 { x: p.position.x + v.x, y: p.position.y + v.y, z: p.position.z + v.z },
        n,
        color,
    );
    let s0 = vertex_shader(&p, &u);
    let s1 = vertex_shader(&moved, &u);
    assert_eq!(s1.position.x - s0.position.x, v.x);
    assert_eq!(s1.position.y - s0.position.y, v.y);
    assert_eq!(s1.position.z - s0.position.z, v.z);
    // The world-space position moves the same way and is retained.
    assert_eq!(s1.world_position.x - s0.world_position.x, v.x);
    assert_eq!(s0.world_position, p.position);
    // The normal is untouched by a pure translation.
    assert_eq!(s0.normal, n);
    assert_eq!(s1.normal, n);
}

#[test]
fn vertex_shader_applies_the_perspective_divide() {
    // A projection that doubles w: screen coordinates halve.
    let mut u = passthrough_uniforms();
    let mut proj = identity();
    proj.r3.w = 2 * FX_ONE;
    proj.r3.z = 0;
    u.projection_matrix = proj;
    let color = Color { r: 255, g: 255, b: 255, a: 255 };
    let p = Vertex::new(
        Vec3 { x: 4 * FX_ONE, y: -6 * FX_ONE, z: 2 * FX_ONE },
        Vec3 { x: 0, y: 0, z: FX_ONE },
        color,
    );
    let s = vertex_shader(&p, &u);
    assert_eq!(s.position.x, 2 * FX_ONE);
    assert_eq!(s.position.y, -3 * FX_ONE);
    assert_eq!(s.position.z, FX_ONE);
}
