use softrender::fx::{FX_HALF, FX_ONE};
use softrender::geom::{Color, Vec3};
use softrender::triangle::{edge_function, triangle};
use softrender::vertex::ShadedVertex;

fn white() -> Color {
    Color { r: 255, g: 255, b: 255, a: 255 }
}

fn shaded(x: i64, y: i64, z: i64) -> ShadedVertex {
    ShadedVertex {
        position: Vec3 { x, y, z },
        world_position: Vec3 { x: 0, y: 0, z: 0 },
        normal: Vec3 { x: 0, y: 0, z: FX_ONE },
        color: white(),
    }
}

#[test]
fn inside_triangle_fragments_stay_in_screen() {
    // A triangle well inside a 10 x 10 screen: pixels (2..8) x (2..8).
    let a = shaded(2 * FX_ONE, 2 * FX_ONE, FX_ONE);
    let b = shaded(8 * FX_ONE, 2 * FX_ONE, FX_ONE);
    let c = shaded(5 * FX_ONE, 8 * FX_ONE, FX_ONE);
    let frags = triangle(&a, &b, &c, 10, 10);
    assert!(frags.len() > 0);
    for f in &frags {
        assert!(f.x >= 2 && f.x < 8);
        assert!(f.y >= 2 && f.y < 8);
    }
}

#[test]
fn outside_triangle_produces_no_fragments() {
    // Entirely to the right of a 10-wide screen.
    let a = shaded(20 * FX_ONE, 0, FX_ONE);
    let b = shaded(30 * FX_ONE, 0, FX_ONE);
    let c = shaded(25 * FX_ONE, 8 * FX_ONE, FX_ONE);
    let frags = triangle(&a, &b, &c, 10, 10);
    assert_eq!(frags.len(), 0);

    // Entirely above the screen.
    let a = shaded(0, -20 * FX_ONE, FX_ONE);
    let b = shaded(8 * FX_ONE, -20 * FX_ONE, FX_ONE);
    let c = shaded(4 * FX_ONE, -10 * FX_ONE, FX_ONE);
    let frags = triangle(&a, &b, &c, 10, 10);
    assert_eq!(frags.len(), 0);
}

#[test]
fn degenerate_triangle_produces_no_fragments() {
    let a = shaded(FX_ONE, FX_ONE, FX_ONE);
    let frags = triangle(&a, &a, &a, 10, 10);
    assert_eq!(frags.len(), 0);
}

#[test]
fn barycentric_weights_at_vertex_and_centroid() {
    // Screen vertices (0,0), (4,0), (2,4), all depths 1.0.
    let (ax, ay) = (0i64, 0i64);
    let (bx, by) = (4 * FX_ONE, 0i64);
    let (cx, cy) = (2 * FX_ONE, 4 * FX_ONE);

    // At vertex (0,0) the normalized weights are exactly (1, 0, 0).
    let w0 = edge_function(bx, by, cx, cy, ax, ay);
    let w1 = edge_function(cx, cy, ax, ay, ax, ay);
    let w2 = edge_function(ax, ay, bx, by, ax, ay);
    let s = w0 + w1 + w2;
    assert!(s != 0);
    assert_eq!(w0, s);
    assert_eq!(w1, 0);
    assert_eq!(w2, 0);

    // At the centroid (2, 4/3) each weight is s/3 within a whisker (the
    // y coordinate rounds to the nearest fixed-point value).
    let gx = 2 * FX_ONE;
    let gy = (4 * FX_ONE) / 3;
    let w0 = edge_function(bx, by, cx, cy, gx, gy);
    let w1 = edge_function(cx, cy, ax, ay, gx, gy);
    let w2 = edge_function(ax, ay, bx, by, gx, gy);
    let s = w0 + w1 + w2;
    let tolerance = 4 * FX_ONE as i128;
    assert!((3 * w0 - s).abs() <= tolerance);
    assert!((3 * w1 - s).abs() <= tolerance);
    assert!((3 * w2 - s).abs() <= tolerance);
}

#[test]
fn constant_depth_interpolates_exactly() {
    let a = shaded(0, 0, FX_ONE);
    let b = shaded(4 * FX_ONE, 0, FX_ONE);
    let c = shaded(2 * FX_ONE, 4 * FX_ONE, FX_ONE);
    let frags = triangle(&a, &b, &c, 10, 10);
    assert!(frags.len() > 0);
    for f in &frags {
        assert_eq!(f.depth, FX_ONE);
    }
    // Pixel (0,0) has its center at (0.5, 0.5), inside this triangle.
    assert!(frags.iter().any(|f| f.x == 0 && f.y == 0));
}

#[test]
fn winding_does_not_change_coverage() {
    let a = shaded(2 * FX_ONE, 2 * FX_ONE, FX_ONE);
    let b = shaded(8 * FX_ONE, 2 * FX_ONE, FX_ONE);
    let c = shaded(5 * FX_ONE, 8 * FX_ONE, FX_ONE);
    let one_way = triangle(&a, &b, &c, 10, 10);
    let other_way = triangle(&c, &b, &a, 10, 10);
    assert_eq!(one_way.len(), other_way.len());
    for f in &one_way {
        assert!(other_way.iter().any(|g| g.x == f.x && g.y == f.y && g.depth == f.depth));
    }
}

#[test]
fn row_major_emission_without_duplicates() {
    let a = shaded(2 * FX_ONE, 2 * FX_ONE, FX_ONE);
    let b = shaded(8 * FX_ONE, 2 * FX_ONE, FX_ONE);
    let c = shaded(5 * FX_ONE, 8 * FX_ONE, FX_ONE);
    let frags = triangle(&a, &b, &c, 10, 10);
    for pair in frags.windows(2) {
        let earlier = (pair[0].y, pair[0].x);
        let later = (pair[1].y, pair[1].x);
        assert!(earlier < later);
    }
}

#[test]
fn pixel_center_convention_uses_half_offset() {
    // A sliver covering only the left half of pixel 0 in x misses the
    // center at 0.5 and produces nothing.
    let a = shaded(0, 0, FX_ONE);
    let b = shaded(FX_HALF / 2, 0, FX_ONE);
    let c = shaded(0, 8 * FX_ONE, FX_ONE);
    let frags = triangle(&a, &b, &c, 10, 10);
    assert_eq!(frags.len(), 0);
}
