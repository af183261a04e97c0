use softraster::color::Color;
use softraster::framebuffer::Framebuffer;
use softraster::line::draw_line_framebuffer;

fn ink() -> Color {
    Color::new(9, 8, 7, 255)
}

fn lit(fb: &Framebuffer, color: Color) -> Vec<(u32, u32)> {
    let mut out = Vec::new();
    for y in 0..fb.height {
        for x in 0..fb.width {
            if fb.get_pixel(x, y) == color {
                out.push((x, y));
            }
        }
    }
    out
}

fn walk(x0: i32, y0: i32, x1: i32, y1: i32, ties_away: bool) -> Vec<(i32, i32)> {
    let mut points = Vec::new();
    let (mut x, mut y) = (x0, y0);
    let dx = (x1 - x0).abs();
    let dy = (y1 - y0).abs();
    let sx = if x0 < x1 { 1 } else { -1 };
    let sy = if y0 < y1 { 1 } else { -1 };
    let mut err = dx - dy;
    loop {
        points.push((x, y));
        if x == x1 && y == y1 {
            break;
        }
        let e2 = 2 * err;
        let step_x = if ties_away { e2 >= -dy } else { e2 > -dy };
        let step_y = if ties_away { e2 <= dx } else { e2 < dx };
        if step_x {
            err -= dy;
            x += sx;
        }
        if step_y {
            err += dx;
            y += sy;
        }
    }
    points
}

fn expected(points: &[(i32, i32)], w: i32, h: i32) -> Vec<(u32, u32)> {
    let mut out: Vec<(u32, u32)> = points
        .iter()
        .filter(|(x, y)| *x >= 0 && *x < w && *y >= 0 && *y < h)
        .map(|(x, y)| (*x as u32, *y as u32))
        .collect();
    out.sort_by_key(|(x, y)| (*y, *x));
    out.dedup();
    out
}

#[test]
fn horizontal_line() {
    let mut fb = Framebuffer::new(6, 3);
    fb.draw_line(1, 1, 4, 1);
    assert_eq!(lit(&fb, Color::white()), vec![(1, 1), (2, 1), (3, 1), (4, 1)]);
}

#[test]
fn vertical_line_backwards() {
    let mut fb = Framebuffer::new(3, 6);
    fb.set_current_color(ink());
    fb.draw_line(2, 4, 2, 1);
    assert_eq!(lit(&fb, ink()), vec![(2, 1), (2, 2), (2, 3), (2, 4)]);
}

#[test]
fn diagonal_line() {
    let mut fb = Framebuffer::new(4, 4);
    fb.draw_line(3, 0, 0, 3);
    assert_eq!(lit(&fb, Color::white()), vec![(3, 0), (2, 1), (1, 2), (0, 3)]);
}

#[test]
fn single_point_line() {
    let mut fb = Framebuffer::new(4, 4);
    fb.draw_line(2, 3, 2, 3);
    assert_eq!(lit(&fb, Color::white()), vec![(2, 3)]);
    let mut fb = Framebuffer::new(4, 4);
    draw_line_framebuffer(&mut fb, 1, 0, 1, 0, ink(), 4, 4);
    assert_eq!(lit(&fb, ink()), vec![(1, 0)]);
}

#[test]
fn shallow_line_has_one_pixel_per_column() {
    let mut fb = Framebuffer::new(8, 4);
    fb.draw_line(0, 0, 7, 2);
    assert_eq!(
        lit(&fb, Color::white()),
        vec![(0, 0), (1, 0), (2, 1), (3, 1), (4, 1), (5, 1), (6, 2), (7, 2)]
    );
}

#[test]
fn ties_go_to_the_start_or_away_from_it() {
    let mut fb = Framebuffer::new(3, 2);
    fb.draw_line(0, 0, 2, 1);
    assert_eq!(lit(&fb, Color::white()), vec![(0, 0), (1, 0), (2, 1)]);
    let mut fb = Framebuffer::new(3, 2);
    draw_line_framebuffer(&mut fb, 0, 0, 2, 1, ink(), 3, 2);
    assert_eq!(lit(&fb, ink()), vec![(0, 0), (1, 1), (2, 1)]);
    let mut fb = Framebuffer::new(2, 3);
    fb.draw_line(0, 0, 1, 2);
    assert_eq!(lit(&fb, Color::white()), vec![(0, 0), (0, 1), (1, 2)]);
    let mut fb = Framebuffer::new(2, 3);
    draw_line_framebuffer(&mut fb, 0, 0, 1, 2, ink(), 2, 3);
    assert_eq!(lit(&fb, ink()), vec![(0, 0), (1, 1), (1, 2)]);
}

#[test]
fn lines_are_clipped_to_the_buffer() {
    let mut fb = Framebuffer::new(4, 4);
    fb.draw_line(-3, 1, 6, 1);
    assert_eq!(lit(&fb, Color::white()), vec![(0, 1), (1, 1), (2, 1), (3, 1)]);
    let mut fb = Framebuffer::new(4, 4);
    fb.draw_line(-5, -5, -1, -2);
    assert!(lit(&fb, Color::white()).is_empty());
    let mut fb = Framebuffer::new(4, 4);
    fb.draw_line(2, -2, 2, 9);
    assert_eq!(lit(&fb, Color::white()), vec![(2, 0), (2, 1), (2, 2), (2, 3)]);
}

#[test]
fn lines_are_clipped_to_the_given_rectangle() {
    let mut fb = Framebuffer::new(6, 6);
    draw_line_framebuffer(&mut fb, 0, 0, 5, 5, ink(), 3, 4);
    assert_eq!(lit(&fb, ink()), vec![(0, 0), (1, 1), (2, 2)]);
    let mut fb = Framebuffer::new(2, 2);
    draw_line_framebuffer(&mut fb, 0, 0, 5, 5, ink(), 10, 10);
    assert_eq!(lit(&fb, ink()), vec![(0, 0), (1, 1)]);
    let mut fb = Framebuffer::new(2, 2);
    draw_line_framebuffer(&mut fb, 0, 0, 1, 1, ink(), 0, -3);
    assert!(lit(&fb, ink()).is_empty());
}

#[test]
fn lines_leave_depths_and_other_pixels() {
    let mut fb = Framebuffer::new(5, 5);
    fb.set_pixel_with_depth(2, 2, ink(), 77);
    fb.set_pixel_with_depth(0, 4, ink(), 78);
    fb.draw_line(0, 0, 4, 4);
    assert_eq!(fb.get_pixel(2, 2), Color::white());
    assert_eq!(fb.get_depth(2, 2), 77);
    assert_eq!(fb.get_pixel(0, 4), ink());
    assert_eq!(fb.get_depth(0, 4), 78);
    assert_eq!(fb.current_color, Color::white());
}

#[test]
fn every_line_on_a_small_grid_matches_the_walk() {
    let n = 7;
    for x0 in -2..n + 2 {
        for y0 in -2..n + 2 {
            for x1 in -2..n + 2 {
                for y1 in -2..n + 2 {
                    let mut fb = Framebuffer::new(n as u32, n as u32);
                    fb.draw_line(x0, y0, x1, y1);
                    assert_eq!(
                        lit(&fb, Color::white()),
                        expected(&walk(x0, y0, x1, y1, false), n, n)
                    );
                    let mut fb = Framebuffer::new(n as u32, n as u32);
                    draw_line_framebuffer(&mut fb, x0, y0, x1, y1, ink(), n, n);
                    assert_eq!(lit(&fb, ink()), expected(&walk(x0, y0, x1, y1, true), n, n));
                }
            }
        }
    }
}

#[test]
fn far_end_points_do_not_overflow() {
    let mut fb = Framebuffer::new(3, 3);
    fb.draw_line(i32::MIN, 1, i32::MIN + 40, 1);
    assert!(lit(&fb, Color::white()).is_empty());
    let mut fb = Framebuffer::new(3, 3);
    draw_line_framebuffer(&mut fb, i32::MAX - 20, i32::MAX, i32::MAX, i32::MAX - 9, ink(), 3, 3);
    assert!(lit(&fb, ink()).is_empty());
}
