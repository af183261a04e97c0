use softraster::color::Color;
use softraster::depth::{depth_bits_from_key, depth_key_from_bits, DEPTH_INFINITY};
use softraster::fragment::Fragment;
use softraster::framebuffer::Framebuffer;

fn key(depth: f32) -> u32 {
    depth_key_from_bits(depth.to_bits())
}

fn red() -> Color {
    Color::new(255, 0, 0, 255)
}

fn green() -> Color {
    Color::new(0, 255, 0, 255)
}

fn blue() -> Color {
    Color::new(0, 0, 255, 255)
}

#[test]
fn new_buffer_is_black_and_infinitely_far() {
    let fb = Framebuffer::new(4, 3);
    assert!(fb.is_well_formed());
    assert_eq!(fb.width, 4);
    assert_eq!(fb.height, 3);
    assert_eq!(fb.pixels.len(), 12);
    assert_eq!(fb.zbuffer.len(), 12);
    assert_eq!(fb.current_color, Color::white());
    assert_eq!(fb.background_color, Color::black());
    for y in 0..3 {
        for x in 0..4 {
            assert_eq!(fb.get_pixel(x, y), Color::new(0, 0, 0, 255));
            assert_eq!(fb.get_depth(x, y), DEPTH_INFINITY);
        }
    }
}

#[test]
fn empty_buffer_takes_no_pixel() {
    let mut fb = Framebuffer::new(0, 0);
    assert!(fb.is_well_formed());
    fb.set_pixel(0, 0);
    fb.set_pixel_with_depth(0, 0, red(), key(1.0));
    fb.clear(green());
    assert!(fb.pixels.is_empty());
    assert_eq!(fb.get_pixel(0, 0), Color::black());
}

#[test]
fn broken_buffer_is_not_well_formed() {
    let mut fb = Framebuffer::new(2, 2);
    fb.pixels.pop();
    assert!(!fb.is_well_formed());
    let mut fb = Framebuffer::new(2, 2);
    fb.width = 70000;
    fb.height = 70000;
    assert!(!fb.is_well_formed());
}

#[test]
fn clear_fills_every_pixel() {
    let mut fb = Framebuffer::new(5, 4);
    fb.set_pixel_with_depth(1, 1, red(), key(2.0));
    fb.set_pixel_color(4, 3, green());
    let color = Color::new(10, 20, 30, 40);
    fb.clear(color);
    for y in 0..4 {
        for x in 0..5 {
            assert_eq!(fb.get_pixel(x, y), color);
            assert_eq!(fb.get_depth(x, y), DEPTH_INFINITY);
            assert_eq!(f32::from_bits(depth_bits_from_key(fb.get_depth(x, y))), f32::INFINITY);
        }
    }
    assert_eq!(fb.width, 5);
    assert_eq!(fb.height, 4);
}

#[test]
fn clear_keeps_the_colour_settings() {
    let mut fb = Framebuffer::new(2, 2);
    fb.set_current_color(red());
    fb.set_background_color(blue());
    fb.clear(green());
    assert_eq!(fb.current_color, red());
    assert_eq!(fb.background_color, blue());
}

#[test]
fn query_outside_the_buffer() {
    let mut fb = Framebuffer::new(3, 2);
    fb.clear(red());
    assert_eq!(fb.get_pixel(3, 0), Color::black());
    assert_eq!(fb.get_pixel(0, 2), Color::black());
    assert_eq!(fb.get_pixel(u32::MAX, u32::MAX), Color::black());
    assert_eq!(fb.get_depth(3, 0), DEPTH_INFINITY);
}

#[test]
fn set_pixel_uses_the_current_colour() {
    let mut fb = Framebuffer::new(3, 3);
    fb.set_pixel(1, 2);
    assert_eq!(fb.get_pixel(1, 2), Color::white());
    fb.set_current_color(blue());
    fb.set_pixel(0, 0);
    assert_eq!(fb.get_pixel(0, 0), blue());
    assert_eq!(fb.get_pixel(1, 2), Color::white());
    assert_eq!(fb.pixels[2 * 3 + 1], Color::white());
    assert_eq!(fb.get_depth(1, 2), DEPTH_INFINITY);
}

#[test]
fn set_pixel_color_is_row_major() {
    let mut fb = Framebuffer::new(4, 3);
    fb.set_pixel_color(3, 1, red());
    for (i, p) in fb.pixels.iter().enumerate() {
        if i == 7 {
            assert_eq!(*p, red());
        } else {
            assert_eq!(*p, Color::black());
        }
    }
}

#[test]
fn writes_outside_the_buffer_are_dropped() {
    let mut fb = Framebuffer::new(3, 2);
    let before = fb.pixels.clone();
    fb.set_pixel(3, 0);
    fb.set_pixel_color(0, 2, red());
    fb.set_pixel_with_depth(7, 7, red(), key(0.5));
    fb.point(-1, 0, red());
    fb.point(0, -1, red());
    fb.point(3, 1, red());
    fb.point_with_depth(-5, 1, red(), key(0.5));
    fb.point_with_depth(i32::MIN, i32::MAX, red(), key(0.5));
    assert_eq!(fb.pixels, before);
    assert!(fb.zbuffer.iter().all(|d| *d == DEPTH_INFINITY));
}

#[test]
fn depth_test_keeps_the_nearest() {
    let mut fb = Framebuffer::new(4, 4);
    fb.clear(Color::black());
    let a = red();
    let b = green();
    let c = blue();
    fb.set_pixel_with_depth(2, 1, a, key(5.0));
    assert_eq!(fb.get_pixel(2, 1), a);
    assert_eq!(fb.get_depth(2, 1), key(5.0));
    fb.set_pixel_with_depth(2, 1, b, key(3.0));
    assert_eq!(fb.get_pixel(2, 1), b);
    assert_eq!(fb.get_depth(2, 1), key(3.0));
    fb.set_pixel_with_depth(2, 1, c, key(10.0));
    assert_eq!(fb.get_pixel(2, 1), b);
    assert_eq!(fb.get_depth(2, 1), key(3.0));
}

#[test]
fn depth_tie_keeps_the_first() {
    let mut fb = Framebuffer::new(2, 2);
    fb.set_pixel_with_depth(0, 1, red(), key(0.25));
    fb.set_pixel_with_depth(0, 1, green(), key(0.25));
    assert_eq!(fb.get_pixel(0, 1), red());
}

#[test]
fn depth_test_rejects_what_is_no_number() {
    let mut fb = Framebuffer::new(2, 2);
    fb.set_pixel_with_depth(1, 1, red(), key(f32::NAN));
    assert_eq!(fb.get_pixel(1, 1), Color::black());
    fb.set_pixel_with_depth(1, 1, red(), key(f32::INFINITY));
    assert_eq!(fb.get_pixel(1, 1), Color::black());
    fb.set_pixel_with_depth(1, 1, green(), key(f32::MAX));
    assert_eq!(fb.get_pixel(1, 1), green());
    fb.set_pixel_with_depth(1, 1, blue(), key(-f32::NAN));
    assert_eq!(fb.get_pixel(1, 1), green());
    fb.set_pixel_with_depth(1, 1, blue(), key(f32::NEG_INFINITY));
    assert_eq!(fb.get_pixel(1, 1), blue());
}

#[test]
fn unconditional_write_ignores_depth() {
    let mut fb = Framebuffer::new(2, 2);
    fb.set_pixel_with_depth(0, 0, red(), key(-1.0));
    fb.set_pixel_color(0, 0, green());
    assert_eq!(fb.get_pixel(0, 0), green());
    assert_eq!(fb.get_depth(0, 0), key(-1.0));
    fb.point(0, 0, blue());
    assert_eq!(fb.get_pixel(0, 0), blue());
}

#[test]
fn point_with_depth_writes_inside() {
    let mut fb = Framebuffer::new(3, 3);
    fb.point_with_depth(2, 2, red(), key(1.5));
    assert_eq!(fb.get_pixel(2, 2), red());
    assert_eq!(fb.get_depth(2, 2), key(1.5));
    fb.point_with_depth(2, 2, green(), key(1.5));
    assert_eq!(fb.get_pixel(2, 2), red());
}

#[test]
fn fragments_are_written_in_order() {
    let mut fb = Framebuffer::new(4, 4);
    let fragments = vec![
        Fragment::new(1, 1, red(), key(5.0)),
        Fragment::new(1, 1, green(), key(3.0)),
        Fragment::new(1, 1, blue(), key(10.0)),
        Fragment::new(2, 1, blue(), key(7.0)),
        Fragment::new(2, 1, red(), key(7.0)),
        Fragment::new(-1, 1, red(), key(0.0)),
        Fragment::new(4, 4, red(), key(0.0)),
    ];
    fb.write_fragments(&fragments);
    assert_eq!(fb.get_pixel(1, 1), green());
    assert_eq!(fb.get_depth(1, 1), key(3.0));
    assert_eq!(fb.get_pixel(2, 1), blue());
    let written = fb.pixels.iter().filter(|p| **p != Color::black()).count();
    assert_eq!(written, 2);
    let mut one_by_one = Framebuffer::new(4, 4);
    for f in &fragments {
        one_by_one.write_fragment(f);
    }
    assert_eq!(one_by_one.pixels, fb.pixels);
    assert_eq!(one_by_one.zbuffer, fb.zbuffer);
}

#[test]
fn two_runs_give_the_same_grid() {
    let run = || {
        let mut fb = Framebuffer::new(4, 4);
        fb.clear(Color::new(1, 2, 3, 255));
        let mut fragments = Vec::new();
        for y in 0..4 {
            for x in 0..4 {
                if x + y <= 3 {
                    fragments.push(Fragment::new(x, y, red(), key(1.0 + x as f32)));
                }
                if x + y >= 3 {
                    fragments.push(Fragment::new(x, y, green(), key(2.5)));
                }
            }
        }
        fb.write_fragments(&fragments);
        fb.set_current_color(blue());
        fb.draw_line(0, 3, 3, 3);
        fb
    };
    let first = run();
    let second = run();
    assert_eq!(first.pixels, second.pixels);
    assert_eq!(first.zbuffer, second.zbuffer);
    assert_eq!(first.get_pixel(0, 0), red());
    assert_eq!(first.get_pixel(3, 0), green());
    assert_eq!(first.get_pixel(1, 2), red());
    assert_eq!(first.get_pixel(2, 2), green());
    assert_eq!(first.get_pixel(2, 3), blue());
}
