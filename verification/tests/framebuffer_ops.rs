use softrender::framebuffer::{Framebuffer, DEPTH_FAR};
use softrender::geom::Color;

fn red() -> Color {
    Color { r: 255, g: 0, b: 0, a: 255 }
}

fn blue() -> Color {
    Color { r: 0, g: 0, b: 255, a: 255 }
}

#[test]
fn depth_test_idempotent() {
    let mut once = Framebuffer::new(4, 4);
    once.point(1, 2, 100, red());
    let mut twice = Framebuffer::new(4, 4);
    twice.point(1, 2, 100, red());
    twice.point(1, 2, 100, red());
    for y in 0..4 {
        for x in 0..4 {
            assert_eq!(once.get_color(x, y), twice.get_color(x, y));
            assert_eq!(once.get_depth(x, y), twice.get_depth(x, y));
        }
    }
    assert_eq!(once.get_color(1, 2), red());
    assert_eq!(once.get_depth(1, 2), 100);
}

#[test]
fn nearest_wins_either_order() {
    let mut near_first = Framebuffer::new(4, 4);
    near_first.point(2, 3, 10, red());
    near_first.point(2, 3, 20, blue());
    assert_eq!(near_first.get_color(2, 3), red());
    assert_eq!(near_first.get_depth(2, 3), 10);

    let mut far_first = Framebuffer::new(4, 4);
    far_first.point(2, 3, 20, blue());
    far_first.point(2, 3, 10, red());
    assert_eq!(far_first.get_color(2, 3), red());
    assert_eq!(far_first.get_depth(2, 3), 10);
}

#[test]
fn equal_depth_keeps_first_write() {
    let mut fb = Framebuffer::new(4, 4);
    fb.point(0, 0, 7, red());
    fb.point(0, 0, 7, blue());
    assert_eq!(fb.get_color(0, 0), red());
}

#[test]
fn clear_resets_fully() {
    let bg = Color { r: 170, g: 180, b: 200, a: 255 };
    let mut fb = Framebuffer::new(8, 5);
    fb.set_background_color(bg);
    fb.point(3, 3, -5, red());
    fb.point(0, 0, 0, blue());
    fb.clear();
    for y in 0..5 {
        for x in 0..8 {
            assert_eq!(fb.get_color(x, y), bg);
            assert_eq!(fb.get_depth(x, y), DEPTH_FAR);
        }
    }
}

#[test]
fn out_of_bounds_write_is_a_no_op() {
    let mut fb = Framebuffer::new(4, 4);
    fb.point(4, 0, 0, red());
    fb.point(0, 4, 0, red());
    fb.point(100, 100, 0, red());
    for y in 0..4 {
        for x in 0..4 {
            assert_eq!(fb.get_color(x, y), Color { r: 0, g: 0, b: 0, a: 255 });
            assert_eq!(fb.get_depth(x, y), DEPTH_FAR);
        }
    }
}
