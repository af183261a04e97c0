//! Lines on the pixel grid.
//!
//! A line from `(x0, y0)` to `(x1, y1)` is the set of pixels that an integer
//! midpoint walk visits. It is stated here in closed form: going `a` columns
//! and `b` rows from the start towards the end, the pixel belongs to the line
//! when it lies within half a pixel of the ideal line, measured along the
//! minor axis. A pixel exactly half way between two candidates is a tie, and
//! the two drawing functions of this crate settle ties in opposite ways.

use vstd::prelude::*;
use crate::color::Color;
use crate::framebuffer::{Framebuffer, FramebufferView, lemma_index_in_range, lemma_index_injective};

verus! {

/// The distance between two coordinates.
pub open spec fn span(start: int, end: int) -> int {
    if start < end {
        end - start
    } else {
        start - end
    }
}

/// How far `p` lies from `start` in the direction of `end`.
pub open spec fn along(start: int, end: int, p: int) -> int {
    if start < end {
        p - start
    } else {
        start - p
    }
}

/// Twice the signed distance of the pixel `a` columns and `b` rows from the
/// start to the ideal line of slope `dy / dx`, scaled by the length of the
/// major axis.
pub open spec fn deviation(dx: int, dy: int, a: int, b: int) -> int {
    2 * (b * dx - a * dy)
}

/// Whether the pixel `a` columns and `b` rows from the start is the one
/// nearest to the ideal line in its column (for a line wider than high) or in
/// its row (for a line higher than wide). With `ties_away` a pixel half way
/// goes to the candidate farther from the start, else to the nearer one. On
/// an exact diagonal the pixels are those with `a == b`.
pub open spec fn in_band(dx: int, dy: int, a: int, b: int, ties_away: bool) -> bool {
    let d = deviation(dx, dy, a, b);
    if dx > dy {
        if ties_away {
            -dx < d <= dx
        } else {
            -dx <= d < dx
        }
    } else if dy > dx {
        if ties_away {
            -dy <= d < dy
        } else {
            -dy < d <= dy
        }
    } else {
        a == b
    }
}

/// Whether pixel `(px, py)` belongs to the line from `(x0, y0)` to
/// `(x1, y1)`.
pub open spec fn on_line(x0: int, y0: int, x1: int, y1: int, ties_away: bool, px: int, py: int) -> bool {
    let dx = span(x0, x1);
    let dy = span(y0, y1);
    let a = along(x0, x1, px);
    let b = along(y0, y1, py);
    &&& 0 <= a <= dx
    &&& 0 <= b <= dy
    &&& in_band(dx, dy, a, b, ties_away)
}

/// The number of the step at which the walk reaches pixel `(px, py)`: its
/// distance from the start along the major axis.
pub open spec fn step_of(x0: int, y0: int, x1: int, y1: int, px: int, py: int) -> int {
    if span(x0, x1) >= span(y0, y1) {
        along(x0, x1, px)
    } else {
        along(y0, y1, py)
    }
}

/// Whether the walk moves one column on from the pixel `a` columns and `b`
/// rows from the start.
pub open spec fn steps_x(dx: int, dy: int, a: int, b: int, ties_away: bool) -> bool {
    let e2 = 2 * (dx - dy) + deviation(dx, dy, a, b);
    if ties_away {
        e2 >= -dy
    } else {
        e2 > -dy
    }
}

/// Whether the walk moves one row on from the pixel `a` columns and `b` rows
/// from the start.
pub open spec fn steps_y(dx: int, dy: int, a: int, b: int, ties_away: bool) -> bool {
    let e2 = 2 * (dx - dy) + deviation(dx, dy, a, b);
    if ties_away {
        e2 <= dx
    } else {
        e2 < dx
    }
}

/// Whether pixel `(px, py)` is one that a clipped line colours: it belongs to
/// the line and lies left of `clip_w` and above `clip_h`.
pub open spec fn line_pixel(
    x0: int,
    y0: int,
    x1: int,
    y1: int,
    ties_away: bool,
    clip_w: int,
    clip_h: int,
    px: int,
    py: int,
) -> bool {
    on_line(x0, y0, x1, y1, ties_away, px, py) && px < clip_w && py < clip_h
}

/// The state of `before` with `color` written to every pixel of the line
/// that lies inside the buffer and inside the clip rectangle
/// `0..clip_w` by `0..clip_h`; all other pixels, the depths and the two
/// colour settings as in `before`.
pub open spec fn line_drawn(
    before: FramebufferView,
    after: FramebufferView,
    x0: int,
    y0: int,
    x1: int,
    y1: int,
    ties_away: bool,
    clip_w: int,
    clip_h: int,
    color: Color,
) -> bool {
    &&& after.width == before.width
    &&& after.height == before.height
    &&& after.depths == before.depths
    &&& after.current_color == before.current_color
    &&& after.background_color == before.background_color
    &&& after.pixels.len() == before.pixels.len()
    &&& forall|px: int, py: int|
        before.in_bounds(px, py) ==> #[trigger] after.pixel_at(px, py) == if line_pixel(
            x0,
            y0,
            x1,
            y1,
            ties_away,
            clip_w,
            clip_h,
            px,
            py,
        ) {
            color
        } else {
            before.pixel_at(px, py)
        }
}

/// As [`line_drawn`], but only for the pixels that the walk reaches before
/// step `steps`.
pub open spec fn line_drawn_before(
    before: FramebufferView,
    after: FramebufferView,
    x0: int,
    y0: int,
    x1: int,
    y1: int,
    ties_away: bool,
    clip_w: int,
    clip_h: int,
    color: Color,
    steps: int,
) -> bool {
    forall|px: int, py: int|
        before.in_bounds(px, py) ==> #[trigger] after.pixel_at(px, py) == if line_pixel(
            x0,
            y0,
            x1,
            y1,
            ties_away,
            clip_w,
            clip_h,
            px,
            py,
        ) && step_of(x0, y0, x1, y1, px, py) < steps {
            color
        } else {
            before.pixel_at(px, py)
        }
}

/// Both end points belong to the line.
pub proof fn lemma_line_has_end_points(x0: int, y0: int, x1: int, y1: int, ties_away: bool)
    ensures
        on_line(x0, y0, x1, y1, ties_away, x0, y0),
        on_line(x0, y0, x1, y1, ties_away, x1, y1),
{
    let dx = span(x0, x1);
    let dy = span(y0, y1);
    assert(0 * dx - 0 * dy == 0);
    assert(dy * dx - dx * dy == 0) by (nonlinear_arith);
}

/// The line has one pixel for each step along its major axis: two of its
/// pixels with the same step number are the same pixel.
pub proof fn lemma_line_one_pixel_per_step(
    x0: int,
    y0: int,
    x1: int,
    y1: int,
    ties_away: bool,
    px: int,
    py: int,
    qx: int,
    qy: int,
)
    requires
        on_line(x0, y0, x1, y1, ties_away, px, py),
        on_line(x0, y0, x1, y1, ties_away, qx, qy),
        step_of(x0, y0, x1, y1, px, py) == step_of(x0, y0, x1, y1, qx, qy),
    ensures
        px == qx,
        py == qy,
{
    let dx = span(x0, x1);
    let dy = span(y0, y1);
    lemma_band_unique(
        dx,
        dy,
        along(x0, x1, px),
        along(y0, y1, py),
        along(x0, x1, qx),
        along(y0, y1, qy),
        ties_away,
    );
}

/// The line has no gap: for every step from 0 to the length of its major
/// axis it has a pixel, which this gives.
pub proof fn lemma_line_has_every_step(x0: int, y0: int, x1: int, y1: int, ties_away: bool, t: int) -> (p:
    (int, int))
    requires
        0 <= t,
        t <= span(x0, x1) || t <= span(y0, y1),
    ensures
        on_line(x0, y0, x1, y1, ties_away, p.0, p.1),
        step_of(x0, y0, x1, y1, p.0, p.1) == t,
    decreases t,
{
    let dx = span(x0, x1);
    let dy = span(y0, y1);
    if t == 0 {
        lemma_line_has_end_points(x0, y0, x1, y1, ties_away);
        (x0, y0)
    } else {
        let q = lemma_line_has_every_step(x0, y0, x1, y1, ties_away, t - 1);
        let a = along(x0, x1, q.0);
        let b = along(y0, y1, q.1);
        lemma_walk_step(dx, dy, a, b, ties_away);
        let a2 = if steps_x(dx, dy, a, b, ties_away) {
            a + 1
        } else {
            a
        };
        let b2 = if steps_y(dx, dy, a, b, ties_away) {
            b + 1
        } else {
            b
        };
        (
            if x0 < x1 {
                x0 + a2
            } else {
                x0 - a2
            },
            if y0 < y1 {
                y0 + b2
            } else {
                y0 - b2
            },
        )
    }
}

/// Two pixels of the line at steps that follow each other touch, by a side
/// or by a corner.
pub proof fn lemma_line_is_connected(
    x0: int,
    y0: int,
    x1: int,
    y1: int,
    ties_away: bool,
    px: int,
    py: int,
    qx: int,
    qy: int,
)
    requires
        on_line(x0, y0, x1, y1, ties_away, px, py),
        on_line(x0, y0, x1, y1, ties_away, qx, qy),
        step_of(x0, y0, x1, y1, qx, qy) == step_of(x0, y0, x1, y1, px, py) + 1,
    ensures
        -1 <= qx - px <= 1,
        -1 <= qy - py <= 1,
{
    let dx = span(x0, x1);
    let dy = span(y0, y1);
    let a = along(x0, x1, px);
    let b = along(y0, y1, py);
    lemma_walk_step(dx, dy, a, b, ties_away);
    let a2 = if steps_x(dx, dy, a, b, ties_away) {
        a + 1
    } else {
        a
    };
    let b2 = if steps_y(dx, dy, a, b, ties_away) {
        b + 1
    } else {
        b
    };
    lemma_band_unique(dx, dy, a2, b2, along(x0, x1, qx), along(y0, y1, qy), ties_away);
}

/// Every pixel of the line lies in the rectangle that the end points span.
pub proof fn lemma_line_within_end_points(
    x0: int,
    y0: int,
    x1: int,
    y1: int,
    ties_away: bool,
    px: int,
    py: int,
)
    requires
        on_line(x0, y0, x1, y1, ties_away, px, py),
    ensures
        x0 <= px <= x1 || x1 <= px <= x0,
        y0 <= py <= y1 || y1 <= py <= y0,
{
}

/// Within one column (wide line) or one row (high line) the band holds one
/// pixel.
proof fn lemma_band_unique(dx: int, dy: int, a: int, b: int, a2: int, b2: int, ties_away: bool)
    requires
        0 <= dx,
        0 <= dy,
        in_band(dx, dy, a, b, ties_away),
        in_band(dx, dy, a2, b2, ties_away),
        dx >= dy ==> a == a2,
        dx < dy ==> b == b2,
    ensures
        a == a2,
        b == b2,
{
    if dx > dy {
        assert(b == b2) by (nonlinear_arith)
            requires
                dx > 0,
                -2 * dx < 2 * (b * dx - a * dy) - 2 * (b2 * dx - a * dy) < 2 * dx,
        ;
    } else if dy > dx {
        assert(a == a2) by (nonlinear_arith)
            requires
                dy > 0,
                -2 * dy < 2 * (b * dx - a * dy) - 2 * (b * dx - a2 * dy) < 2 * dy,
        ;
    }
}

/// One step of the walk: from a pixel of the line that is not the end point,
/// the walk moves along the major axis, stays between the end points, and
/// arrives at a pixel of the line.
proof fn lemma_walk_step(dx: int, dy: int, a: int, b: int, ties_away: bool)
    requires
        0 <= a <= dx,
        0 <= b <= dy,
        in_band(dx, dy, a, b, ties_away),
        !(a == dx && b == dy),
    ensures
        steps_x(dx, dy, a, b, ties_away) ==> a < dx,
        steps_y(dx, dy, a, b, ties_away) ==> b < dy,
        dx >= dy ==> steps_x(dx, dy, a, b, ties_away),
        dy >= dx ==> steps_y(dx, dy, a, b, ties_away),
        in_band(
            dx,
            dy,
            if steps_x(dx, dy, a, b, ties_away) { a + 1 } else { a },
            if steps_y(dx, dy, a, b, ties_away) { b + 1 } else { b },
            ties_away,
        ),
{
    let p = b * dx;
    let q = a * dy;
    assert((a + 1) * dy == q + dy) by (nonlinear_arith)
        requires
            q == a * dy,
    ;
    assert((b + 1) * dx == p + dx) by (nonlinear_arith)
        requires
            p == b * dx,
    ;
    assert(dx * dy == dy * dx) by (nonlinear_arith);
    assert(a < dx ==> q <= dx * dy - dy) by (nonlinear_arith)
        requires
            q == a * dy,
            0 <= dy,
    ;
    assert(b < dy ==> p <= dy * dx - dx) by (nonlinear_arith)
        requires
            p == b * dx,
            0 <= dx,
    ;
    assert(a == dx ==> q == dx * dy);
    assert(b == dy ==> p == dy * dx);
    if dx == dy {
        assert(p == q);
    }
}

/// Writing the pixel of step `steps` completes the picture up to that step.
proof fn lemma_walk_plot(
    start: FramebufferView,
    before: FramebufferView,
    after: FramebufferView,
    x0: int,
    y0: int,
    x1: int,
    y1: int,
    ties_away: bool,
    clip_w: int,
    clip_h: int,
    color: Color,
    x: int,
    y: int,
)
    requires
        start.wf(),
        before.wf(),
        before.width == start.width,
        before.height == start.height,
        on_line(x0, y0, x1, y1, ties_away, x, y),
        line_drawn_before(
            start,
            before,
            x0,
            y0,
            x1,
            y1,
            ties_away,
            clip_w,
            clip_h,
            color,
            step_of(x0, y0, x1, y1, x, y),
        ),
        after == if 0 <= x < clip_w && 0 <= y < clip_h {
            before.put(x, y, color)
        } else {
            before
        },
    ensures
        line_drawn_before(
            start,
            after,
            x0,
            y0,
            x1,
            y1,
            ties_away,
            clip_w,
            clip_h,
            color,
            step_of(x0, y0, x1, y1, x, y) + 1,
        ),
{
    assert forall|px: int, py: int| start.in_bounds(px, py) implies #[trigger] after.pixel_at(
        px,
        py,
    ) == if line_pixel(x0, y0, x1, y1, ties_away, clip_w, clip_h, px, py) && step_of(
        x0,
        y0,
        x1,
        y1,
        px,
        py,
    ) < step_of(x0, y0, x1, y1, x, y) + 1 {
        color
    } else {
        start.pixel_at(px, py)
    } by {
        lemma_index_in_range(before, px, py);
        assert(before.pixel_at(px, py) == if line_pixel(
            x0,
            y0,
            x1,
            y1,
            ties_away,
            clip_w,
            clip_h,
            px,
            py,
        ) && step_of(x0, y0, x1, y1, px, py) < step_of(x0, y0, x1, y1, x, y) {
            color
        } else {
            start.pixel_at(px, py)
        });
        if px != x || py != y {
            if before.in_bounds(x, y) {
                lemma_index_in_range(before, x, y);
                if before.index_of(px, py) == before.index_of(x, y) {
                    lemma_index_injective(before, px, py, x, y);
                }
            }
            if on_line(x0, y0, x1, y1, ties_away, px, py) && step_of(x0, y0, x1, y1, px, py)
                == step_of(x0, y0, x1, y1, x, y) {
                lemma_line_one_pixel_per_step(x0, y0, x1, y1, ties_away, px, py, x, y);
            }
        }
    }
}

/// Walks the line from `(x0, y0)` to `(x1, y1)` and writes `color` to each of
/// its pixels that lies inside the buffer and the clip rectangle.
fn walk_line(
    fb: &mut Framebuffer,
    x0: i32,
    y0: i32,
    x1: i32,
    y1: i32,
    color: Color,
    clip_w: i64,
    clip_h: i64,
    ties_away: bool,
)
    requires
        old(fb).wf(),
    ensures
        final(fb).wf(),
        line_drawn(
            old(fb)@,
            final(fb)@,
            x0 as int,
            y0 as int,
            x1 as int,
            y1 as int,
            ties_away,
            clip_w as int,
            clip_h as int,
            color,
        ),
{
    let xe: i64 = x1 as i64;
    let ye: i64 = y1 as i64;
    let mut x: i64 = x0 as i64;
    let mut y: i64 = y0 as i64;
    let dx: i64 = if x < xe { xe - x } else { x - xe };
    let dy: i64 = if y < ye { ye - y } else { y - ye };
    let sx: i64 = if x < xe { 1 } else { -1 };
    let sy: i64 = if y < ye { 1 } else { -1 };
    let mut err: i64 = dx - dy;
    let ghost mut a: int = 0;
    let ghost mut b: int = 0;
    assert(0 * dx - 0 * dy == 0);
    loop
        invariant_except_break
            0 <= a <= dx,
            0 <= b <= dy,
            in_band(dx as int, dy as int, a, b, ties_away),
            a == along(x0 as int, x1 as int, x as int),
            b == along(y0 as int, y1 as int, y as int),
            err == dx - dy + (b * dx - a * dy),
            line_drawn_before(
                old(fb)@,
                fb@,
                x0 as int,
                y0 as int,
                x1 as int,
                y1 as int,
                ties_away,
                clip_w as int,
                clip_h as int,
                color,
                step_of(x0 as int, y0 as int, x1 as int, y1 as int, x as int, y as int),
            ),
        invariant
            old(fb).wf(),
            fb.wf(),
            xe == x1,
            ye == y1,
            dx == span(x0 as int, x1 as int),
            dy == span(y0 as int, y1 as int),
            sx == if x0 < x1 { 1int } else { -1int },
            sy == if y0 < y1 { 1int } else { -1int },
            fb@.width == old(fb)@.width,
            fb@.height == old(fb)@.height,
            fb@.depths == old(fb)@.depths,
            fb@.current_color == old(fb)@.current_color,
            fb@.background_color == old(fb)@.background_color,
            fb@.pixels.len() == old(fb)@.pixels.len(),
        ensures
            line_drawn(
                old(fb)@,
                fb@,
                x0 as int,
                y0 as int,
                x1 as int,
                y1 as int,
                ties_away,
                clip_w as int,
                clip_h as int,
                color,
            ),
        decreases (dx - a) + (dy - b),
    {
        let ghost before = fb@;
        if 0 <= x && x < clip_w && 0 <= y && y < clip_h && x < fb.width as i64 && y
            < fb.height as i64 {
            fb.set_pixel_color(x as u32, y as u32, color);
        }
        proof {
            lemma_walk_plot(
                old(fb)@,
                before,
                fb@,
                x0 as int,
                y0 as int,
                x1 as int,
                y1 as int,
                ties_away,
                clip_w as int,
                clip_h as int,
                color,
                x as int,
                y as int,
            );
        }
        if x == xe && y == ye {
            break ;
        }
        proof {
            lemma_walk_step(dx as int, dy as int, a, b, ties_away);
            assert((a + 1) * dy == a * dy + dy) by (nonlinear_arith);
            assert((b + 1) * dx == b * dx + dx) by (nonlinear_arith);
        }
        let e2: i64 = 2 * err;
        let step_x: bool = if ties_away { e2 >= -dy } else { e2 > -dy };
        let step_y: bool = if ties_away { e2 <= dx } else { e2 < dx };
        if step_x {
            err -= dy;
            x += sx;
            proof {
                a = a + 1;
            }
        }
        if step_y {
            err += dx;
            y += sy;
            proof {
                b = b + 1;
            }
        }
    }
}

impl Framebuffer {
    /// Draws the line from `(x0, y0)` to `(x1, y1)` in the current colour,
    /// with no depth test. Pixels of the line outside the buffer are dropped.
    /// A pixel half way between two candidates goes to the one nearer to the
    /// start.
    pub fn draw_line(&mut self, x0: i32, y0: i32, x1: i32, y1: i32)
        requires
            old(self).wf(),
        ensures
            final(self).wf(),
            line_drawn(
                old(self)@,
                final(self)@,
                x0 as int,
                y0 as int,
                x1 as int,
                y1 as int,
                false,
                old(self)@.width as int,
                old(self)@.height as int,
                old(self)@.current_color,
            ),
    {
        let color = self.current_color;
        let clip_w: i64 = self.width as i64;
        let clip_h: i64 = self.height as i64;
        walk_line(self, x0, y0, x1, y1, color, clip_w, clip_h, false);
    }
}

/// Draws the line from `(x0, y0)` to `(x1, y1)` in `color`, with no depth
/// test, clipped to the buffer and to the rectangle `0..width` by
/// `0..height`. A pixel half way between two candidates goes to the one
/// farther from the start.
pub fn draw_line_framebuffer(
    framebuffer: &mut Framebuffer,
    x0: i32,
    y0: i32,
    x1: i32,
    y1: i32,
    color: Color,
    width: i32,
    height: i32,
)
    requires
        old(framebuffer).wf(),
    ensures
        final(framebuffer).wf(),
        line_drawn(
            old(framebuffer)@,
            final(framebuffer)@,
            x0 as int,
            y0 as int,
            x1 as int,
            y1 as int,
            true,
            width as int,
            height as int,
            color,
        ),
{
    walk_line(framebuffer, x0, y0, x1, y1, color, width as i64, height as i64, true);
}

} // verus!
