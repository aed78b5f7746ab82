use softrender::fragment::Fragment;
use softrender::fx::{fx_div, fx_mul, isqrt_u128, tdiv_i128, FX_ONE};
use softrender::geom::{Color, Vec3};
use softrender::light::Light;
use softrender::shaders::fragment_shader;

#[test]
fn fixed_point_multiply_and_divide_are_truncated() {
    assert_eq!(fx_mul(3 * FX_ONE, 2 * FX_ONE), 6 * FX_ONE);
    assert_eq!(fx_mul(FX_ONE / 2, FX_ONE / 2), FX_ONE / 4);
    assert_eq!(fx_mul(-3 * FX_ONE, 2 * FX_ONE), -6 * FX_ONE);
    assert_eq!(fx_div(FX_ONE, 2 * FX_ONE), FX_ONE / 2);
    assert_eq!(fx_div(-FX_ONE, 2 * FX_ONE), -(FX_ONE / 2));
    // Truncation is toward zero on both signs.
    assert_eq!(tdiv_i128(7, 2), 3);
    assert_eq!(tdiv_i128(-7, 2), -3);
    assert_eq!(tdiv_i128(7, -2), -3);
    assert_eq!(tdiv_i128(-7, -2), 3);
}

#[test]
fn integer_square_root_is_the_floor() {
    assert_eq!(isqrt_u128(0), 0);
    assert_eq!(isqrt_u128(1), 1);
    assert_eq!(isqrt_u128(2), 1);
    assert_eq!(isqrt_u128(4), 2);
    assert_eq!(isqrt_u128(99), 9);
    assert_eq!(isqrt_u128(100), 10);
    assert_eq!(isqrt_u128((5 * FX_ONE as u128) * (5 * FX_ONE as u128)), 5 * FX_ONE as u128);
}

#[test]
fn normalize_three_four_zero() {
    let v = Vec3 { x: 3 * FX_ONE, y: 4 * FX_ONE, z: 0 };
    assert_eq!(v.len(), 5 * FX_ONE);
    let n = v.normalize();
    assert_eq!(n.x, 39321); // 3/5 in 16.16, truncated
    assert_eq!(n.y, 52428); // 4/5 in 16.16, truncated
    assert_eq!(n.z, 0);
}

#[test]
fn normalize_zero_vector_is_zero() {
    let v = Vec3 { x: 0, y: 0, z: 0 };
    let n = v.normalize();
    assert_eq!(n, Vec3 { x: 0, y: 0, z: 0 });
}

#[test]
fn vector_sum_and_difference_are_componentwise() {
    let a = Vec3 { x: FX_ONE, y: -2 * FX_ONE, z: 3 };
    let b = Vec3 { x: 10, y: 20, z: -30 };
    assert_eq!(a.add(b), Vec3 { x: FX_ONE + 10, y: -2 * FX_ONE + 20, z: -27 });
    assert_eq!(a.sub(b), Vec3 { x: FX_ONE - 10, y: -2 * FX_ONE - 20, z: 33 });
}

#[test]
fn dot_of_unit_axes() {
    let x = Vec3 { x: FX_ONE, y: 0, z: 0 };
    let y = Vec3 { x: 0, y: FX_ONE, z: 0 };
    assert_eq!(x.dot(x), FX_ONE);
    assert_eq!(x.dot(y), 0);
    let neg = Vec3 { x: -FX_ONE, y: 0, z: 0 };
    assert_eq!(x.dot(neg), -FX_ONE);
}

fn frag_at_origin(normal: Vec3, color: Color) -> Fragment {
    Fragment {
        x: 0,
        y: 0,
        depth: 0,
        normal,
        world_position: Vec3 { x: 0, y: 0, z: 0 },
        color,
    }
}

#[test]
fn fragment_facing_the_light_keeps_full_color() {
    let f = frag_at_origin(
        Vec3 { x: 0, y: 0, z: FX_ONE },
        Color { r: 200, g: 100, b: 50, a: 255 },
    );
    let l = Light::new(Vec3 { x: 0, y: 0, z: 1000 * FX_ONE });
    let c = fragment_shader(&f, &l);
    assert_eq!(c, Color { r: 200, g: 100, b: 50, a: 255 });
}

#[test]
fn fragment_facing_away_is_black() {
    let f = frag_at_origin(
        Vec3 { x: 0, y: 0, z: -FX_ONE },
        Color { r: 200, g: 100, b: 50, a: 255 },
    );
    let l = Light::new(Vec3 { x: 0, y: 0, z: 1000 * FX_ONE });
    let c = fragment_shader(&f, &l);
    assert_eq!(c, Color { r: 0, g: 0, b: 0, a: 255 });
}

#[test]
fn oblique_light_halves_the_diffuse_term() {
    // Light at 60 degrees from the normal: intensity cos(60) = 1/2.
    // Normal +z, light direction (sqrt(3)/2, 0, 1/2) scaled up.
    let f = frag_at_origin(
        Vec3 { x: 0, y: 0, z: FX_ONE },
        Color { r: 200, g: 100, b: 50, a: 255 },
    );
    let l = Light::new(Vec3 { x: 887 * FX_ONE, y: 0, z: 512 * FX_ONE });
    let c = fragment_shader(&f, &l);
    // Close to half of each channel, allowing fixed-point truncation.
    assert!((c.r as i32 - 100).abs() <= 1, "r = {}", c.r);
    assert!((c.g as i32 - 50).abs() <= 1, "g = {}", c.g);
    assert!((c.b as i32 - 25).abs() <= 1, "b = {}", c.b);
    assert_eq!(c.a, 255);
}
