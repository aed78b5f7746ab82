use softrender::framebuffer::{Framebuffer, DEPTH_FAR};
use softrender::fx::FX_ONE;
use softrender::geom::{Color, Vec3};
use softrender::light::Light;
use softrender::matrix::{create_viewport_matrix, identity};
use softrender::render::render;
use softrender::shaders::Uniforms;
use softrender::vertex::Vertex;

/// One triangle spanning normalized device coordinates (-1,-1,0),
/// (1,-1,0), (0,1,0) on a 100 x 100 viewport, lit from far along +z
/// against a black background: a lit, roughly triangular region with
/// depth 0 everywhere it covers, black everywhere else.
#[test]
fn single_triangle_frame() {
    let mut fb = Framebuffer::new(100, 100);
    fb.set_background_color(Color { r: 0, g: 0, b: 0, a: 255 });
    fb.clear();

    let u = Uniforms {
        model_matrix: identity(),
        view_matrix: identity(),
        projection_matrix: identity(),
        viewport_matrix: create_viewport_matrix(0, 0, 100 * FX_ONE, 100 * FX_ONE),
        time: 0,
    };
    let light = Light::new(Vec3 { x: 0, y: 0, z: 1000 * FX_ONE });
    let white = Color { r: 255, g: 255, b: 255, a: 255 };
    let toward_camera = Vec3 { x: 0, y: 0, z: FX_ONE };
    let vertices = vec![
        Vertex::new(Vec3 { x: -FX_ONE, y: -FX_ONE, z: 0 }, toward_camera, white),
        Vertex::new(Vec3 { x: FX_ONE, y: -FX_ONE, z: 0 }, toward_camera, white),
        Vertex::new(Vec3 { x: 0, y: FX_ONE, z: 0 }, toward_camera, white),
    ];

    render(&mut fb, &u, &vertices, &light);

    // NDC y = -1 maps to the bottom pixel row, y = 1 to the top; the
    // screen triangle is (0,100), (100,100), (50,0).
    let black = Color { r: 0, g: 0, b: 0, a: 255 };
    let mut covered = 0usize;
    for y in 0..100 {
        for x in 0..100 {
            let c = fb.get_color(x, y);
            let d = fb.get_depth(x, y);
            if c == black {
                assert_eq!(d, DEPTH_FAR);
            } else {
                covered += 1;
                // Covered pixels carry the triangle's depth, 0.
                assert_eq!(d, 0);
                // Lit by a light almost straight along the normal.
                assert!(c.r > 200 && c.g > 200 && c.b > 200);
            }
        }
    }
    // Roughly half the frame: the triangle covers about 5000 pixels.
    assert!(covered > 4000 && covered < 6000, "covered = {}", covered);

    // Spot checks: the middle is covered, the top corners are not.
    assert!(fb.get_color(50, 50) != black);
    assert!(fb.get_color(50, 95) != black);
    assert_eq!(fb.get_color(0, 0), black);
    assert_eq!(fb.get_color(99, 0), black);
}

/// A nearer triangle drawn after a farther one still wins every shared
/// pixel: the depth test, not submission order, decides.
#[test]
fn nearer_triangle_wins_regardless_of_order() {
    let u = Uniforms {
        model_matrix: identity(),
        view_matrix: identity(),
        projection_matrix: identity(),
        viewport_matrix: create_viewport_matrix(0, 0, 20 * FX_ONE, 20 * FX_ONE),
        time: 0,
    };
    let light = Light::new(Vec3 { x: 0, y: 0, z: 1000 * FX_ONE });
    let n = Vec3 { x: 0, y: 0, z: FX_ONE };
    let red = Color { r: 255, g: 0, b: 0, a: 255 };
    let blue = Color { r: 0, g: 0, b: 255, a: 255 };
    // Same footprint; the red triangle sits nearer (smaller depth).
    let near_tri = |c: Color, z: i64| {
        vec![
            Vertex::new(Vec3 { x: -FX_ONE, y: -FX_ONE, z }, n, c),
            Vertex::new(Vec3 { x: FX_ONE, y: -FX_ONE, z }, n, c),
            Vertex::new(Vec3 { x: 0, y: FX_ONE, z }, n, c),
        ]
    };
    let mut red_first: Vec<Vertex> = near_tri(red, -FX_ONE / 2);
    red_first.extend(near_tri(blue, FX_ONE / 2));
    let mut blue_first: Vec<Vertex> = near_tri(blue, FX_ONE / 2);
    blue_first.extend(near_tri(red, -FX_ONE / 2));

    let mut fb1 = Framebuffer::new(20, 20);
    render(&mut fb1, &u, &red_first, &light);
    let mut fb2 = Framebuffer::new(20, 20);
    render(&mut fb2, &u, &blue_first, &light);
    for y in 0..20 {
        for x in 0..20 {
            assert_eq!(fb1.get_color(x, y), fb2.get_color(x, y));
            assert_eq!(fb1.get_depth(x, y), fb2.get_depth(x, y));
            let c = fb1.get_color(x, y);
            assert!(c.b == 0, "blue never shows at ({}, {})", x, y);
        }
    }
    assert!(fb1.get_color(10, 10).r > 0);
}

/// Trailing vertices that do not complete a triple are dropped silently.
#[test]
fn incomplete_trailing_vertices_are_dropped() {
    let u = Uniforms {
        model_matrix: identity(),
        view_matrix: identity(),
        projection_matrix: identity(),
        viewport_matrix: create_viewport_matrix(0, 0, 20 * FX_ONE, 20 * FX_ONE),
        time: 0,
    };
    let light = Light::new(Vec3 { x: 0, y: 0, z: 1000 * FX_ONE });
    let n = Vec3 { x: 0, y: 0, z: FX_ONE };
    let white = Color { r: 255, g: 255, b: 255, a: 255 };
    // Two stray vertices: no triangle, nothing drawn.
    let vertices = vec![
        Vertex::new(Vec3 { x: -FX_ONE, y: -FX_ONE, z: 0 }, n, white),
        Vertex::new(Vec3 { x: FX_ONE, y: -FX_ONE, z: 0 }, n, white),
    ];
    let mut fb = Framebuffer::new(20, 20);
    render(&mut fb, &u, &vertices, &light);
    let black = Color { r: 0, g: 0, b: 0, a: 255 };
    for y in 0..20 {
        for x in 0..20 {
            assert_eq!(fb.get_color(x, y), black);
            assert_eq!(fb.get_depth(x, y), DEPTH_FAR);
        }
    }
}
