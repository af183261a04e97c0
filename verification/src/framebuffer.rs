//! The frame buffer: a colour array and a parallel depth array.

use vstd::prelude::*;
use crate::color::Color;
use crate::depth::DEPTH_INFINITY;

verus! {

/// The mathematical state of a frame buffer. Both arrays are row-major: the
/// sample of pixel `(x, y)` stands at index `y * width + x`.
pub struct FramebufferView {
    pub width: nat,
    pub height: nat,
    pub pixels: Seq<Color>,
    pub depths: Seq<u32>,
    pub current_color: Color,
    pub background_color: Color,
}

impl FramebufferView {
    /// Both arrays hold one sample per pixel.
    pub open spec fn wf(self) -> bool {
        &&& self.pixels.len() == self.width * self.height
        &&& self.depths.len() == self.width * self.height
    }

    /// Whether `(x, y)` names a pixel of the buffer.
    pub open spec fn in_bounds(self, x: int, y: int) -> bool {
        0 <= x < self.width && 0 <= y < self.height
    }

    /// The place of pixel `(x, y)` in the two arrays.
    pub open spec fn index_of(self, x: int, y: int) -> int {
        y * self.width + x
    }

    /// The colour stored for pixel `(x, y)`.
    pub open spec fn pixel_at(self, x: int, y: int) -> Color {
        self.pixels[self.index_of(x, y)]
    }

    /// The depth key stored for pixel `(x, y)`.
    pub open spec fn depth_at(self, x: int, y: int) -> u32 {
        self.depths[self.index_of(x, y)]
    }

    /// What a colour query answers: the stored colour, or opaque black
    /// outside the buffer.
    pub open spec fn get_pixel(self, x: int, y: int) -> Color {
        if self.in_bounds(x, y) {
            self.pixel_at(x, y)
        } else {
            Color::spec_black()
        }
    }

    /// What a depth query answers: the stored key, or the key of infinity
    /// outside the buffer.
    pub open spec fn get_depth(self, x: int, y: int) -> u32 {
        if self.in_bounds(x, y) {
            self.depth_at(x, y)
        } else {
            DEPTH_INFINITY
        }
    }

    /// A fresh buffer: every pixel black, every depth infinitely far.
    pub open spec fn blank(width: nat, height: nat) -> FramebufferView {
        FramebufferView {
            width,
            height,
            pixels: Seq::new(width * height, |i: int| Color::spec_black()),
            depths: Seq::new(width * height, |i: int| DEPTH_INFINITY),
            current_color: Color::spec_white(),
            background_color: Color::spec_black(),
        }
    }

    /// The state after clearing: every pixel `color`, every depth infinitely
    /// far, whatever was there before.
    pub open spec fn clear(self, color: Color) -> FramebufferView {
        FramebufferView {
            pixels: Seq::new(self.pixels.len(), |i: int| color),
            depths: Seq::new(self.depths.len(), |i: int| DEPTH_INFINITY),
            ..self
        }
    }

    /// The state after an unconditional write of `color` to `(x, y)`; a
    /// write outside the buffer changes nothing.
    pub open spec fn put(self, x: int, y: int, color: Color) -> FramebufferView {
        if self.in_bounds(x, y) {
            FramebufferView { pixels: self.pixels.update(self.index_of(x, y), color), ..self }
        } else {
            self
        }
    }

    /// Whether a fragment of depth `depth` at `(x, y)` passes the depth test:
    /// it is inside the buffer and strictly nearer than what is stored.
    pub open spec fn passes_depth_test(self, x: int, y: int, depth: u32) -> bool {
        self.in_bounds(x, y) && depth < self.depth_at(x, y)
    }

    /// The state after a depth-tested write: colour and depth of `(x, y)` are
    /// replaced together if the fragment passes the test, and nothing changes
    /// if it does not.
    pub open spec fn put_with_depth(self, x: int, y: int, color: Color, depth: u32) -> FramebufferView {
        if self.passes_depth_test(x, y, depth) {
            FramebufferView {
                pixels: self.pixels.update(self.index_of(x, y), color),
                depths: self.depths.update(self.index_of(x, y), depth),
                ..self
            }
        } else {
            self
        }
    }
}

/// Pixels inside the buffer have their place inside the arrays.
pub proof fn lemma_index_in_range(v: FramebufferView, x: int, y: int)
    requires
        v.in_bounds(x, y),
    ensures
        0 <= v.index_of(x, y) < v.width * v.height,
{
    let w = v.width as int;
    let h = v.height as int;
    assert(0 <= y * w && y * w + w <= h * w) by (nonlinear_arith)
        requires
            0 <= y < h,
            0 <= w,
    ;
    assert(h * w == w * h) by (nonlinear_arith);
}

/// Two different pixels inside the buffer have different places.
pub proof fn lemma_index_injective(v: FramebufferView, x: int, y: int, p: int, q: int)
    requires
        v.in_bounds(x, y),
        v.in_bounds(p, q),
        v.index_of(x, y) == v.index_of(p, q),
    ensures
        x == p,
        y == q,
{
    let w = v.width as int;
    assert(y == q) by (nonlinear_arith)
        requires
            0 <= x < w,
            0 <= p < w,
            y * w + x == q * w + p,
    ;
}

/// Reading a cleared buffer: every pixel inside it has the clear colour and
/// the depth key of infinity, whatever the buffer held before.
pub proof fn lemma_clear_then_query(v: FramebufferView, color: Color, x: int, y: int)
    requires
        v.wf(),
        v.in_bounds(x, y),
    ensures
        v.clear(color).wf(),
        v.clear(color).get_pixel(x, y) == color,
        v.clear(color).get_depth(x, y) == DEPTH_INFINITY,
{
    lemma_index_in_range(v, x, y);
}

/// A depth-tested write leaves the pixel with the nearer of the two depths,
/// and with the colour that came with it; on a tie the stored colour stays.
/// No other pixel changes.
pub proof fn lemma_depth_write(v: FramebufferView, x: int, y: int, color: Color, depth: u32, p: int, q: int)
    requires
        v.wf(),
        v.in_bounds(x, y),
        v.in_bounds(p, q),
    ensures
        v.put_with_depth(x, y, color, depth).wf(),
        v.put_with_depth(x, y, color, depth).depth_at(x, y) == if depth < v.depth_at(x, y) {
            depth
        } else {
            v.depth_at(x, y)
        },
        v.put_with_depth(x, y, color, depth).pixel_at(x, y) == if depth < v.depth_at(x, y) {
            color
        } else {
            v.pixel_at(x, y)
        },
        (p != x || q != y) ==> v.put_with_depth(x, y, color, depth).pixel_at(p, q) == v.pixel_at(
            p,
            q,
        ) && v.put_with_depth(x, y, color, depth).depth_at(p, q) == v.depth_at(p, q),
{
    lemma_index_in_range(v, x, y);
    lemma_index_in_range(v, p, q);
    if v.index_of(x, y) == v.index_of(p, q) {
        lemma_index_injective(v, x, y, p, q);
    }
}

/// Three depth-tested writes to one pixel, the second nearer than the first
/// and than what the buffer held, the third no nearer than the second, leave
/// the colour and the depth of the second.
pub proof fn lemma_nearest_fragment_stays(
    v: FramebufferView,
    x: int,
    y: int,
    first: Color,
    first_depth: u32,
    second: Color,
    second_depth: u32,
    third: Color,
    third_depth: u32,
)
    requires
        v.wf(),
        v.in_bounds(x, y),
        second_depth < first_depth,
        second_depth < v.depth_at(x, y),
        second_depth <= third_depth,
    ensures
        v.put_with_depth(x, y, first, first_depth).put_with_depth(
            x,
            y,
            second,
            second_depth,
        ).put_with_depth(x, y, third, third_depth).get_pixel(x, y) == second,
        v.put_with_depth(x, y, first, first_depth).put_with_depth(
            x,
            y,
            second,
            second_depth,
        ).put_with_depth(x, y, third, third_depth).get_depth(x, y) == second_depth,
{
    let v1 = v.put_with_depth(x, y, first, first_depth);
    lemma_depth_write(v, x, y, first, first_depth, x, y);
    let v2 = v1.put_with_depth(x, y, second, second_depth);
    lemma_depth_write(v1, x, y, second, second_depth, x, y);
    lemma_depth_write(v2, x, y, third, third_depth, x, y);
}

/// An RGBA colour buffer with a parallel depth buffer.
pub struct Framebuffer {
    pub pixels: Vec<Color>,
    pub width: u32,
    pub height: u32,
    pub current_color: Color,
    pub background_color: Color,
    pub zbuffer: Vec<u32>,
}

impl View for Framebuffer {
    type V = FramebufferView;

    open spec fn view(&self) -> FramebufferView {
        FramebufferView {
            width: self.width as nat,
            height: self.height as nat,
            pixels: self.pixels@,
            depths: self.zbuffer@,
            current_color: self.current_color,
            background_color: self.background_color,
        }
    }
}

impl Framebuffer {
    /// The buffer is well formed: the arrays hold one sample per pixel, and
    /// the number of pixels fits the index type.
    pub open spec fn wf(&self) -> bool {
        &&& self@.wf()
        &&& self.width * self.height <= u32::MAX
    }

    /// A buffer of `width` by `height` pixels, all black and infinitely far.
    pub fn new(width: u32, height: u32) -> (fb: Framebuffer)
        requires
            width * height <= u32::MAX,
        ensures
            fb.wf(),
            fb@ == FramebufferView::blank(width as nat, height as nat),
    {
        assert(0 <= width * height) by (nonlinear_arith);
        let total_pixels: usize = (width * height) as usize;
        let fb = Framebuffer {
            pixels: vec![Color::black(); total_pixels],
            width,
            height,
            current_color: Color::white(),
            background_color: Color::black(),
            zbuffer: vec![DEPTH_INFINITY; total_pixels],
        };
        assert(fb@.pixels =~= FramebufferView::blank(width as nat, height as nat).pixels);
        assert(fb@.depths =~= FramebufferView::blank(width as nat, height as nat).depths);
        fb
    }

    /// Whether the buffer is well formed, tested at run time.
    pub fn is_well_formed(&self) -> (ok: bool)
        ensures
            ok == self.wf(),
    {
        assert(0 <= self.width * self.height <= 0xFFFF_FFFF * 0xFFFF_FFFF) by (nonlinear_arith)
            requires
                0 <= self.width <= 0xFFFF_FFFF,
                0 <= self.height <= 0xFFFF_FFFF,
        ;
        let total: u64 = self.width as u64 * self.height as u64;
        total <= u32::MAX as u64 && self.pixels.len() as u64 == total && self.zbuffer.len() as u64
            == total
    }

    /// Fills the colour buffer with `color` and the depth buffer with the key
    /// of infinity.
    pub fn clear(&mut self, color: Color)
        requires
            old(self).wf(),
        ensures
            final(self).wf(),
            final(self)@ == old(self)@.clear(color),
    {
        let n: usize = self.pixels.len();
        let mut i: usize = 0;
        while i < n
            invariant
                i <= n,
                n == self.pixels.len(),
                n == self.zbuffer.len(),
                self.width == old(self).width,
                self.height == old(self).height,
                self.current_color == old(self).current_color,
                self.background_color == old(self).background_color,
                old(self).wf(),
                forall|k: int| 0 <= k < i ==> self.pixels@[k] == color,
                forall|k: int| 0 <= k < i ==> self.zbuffer@[k] == DEPTH_INFINITY,
            decreases n - i,
        {
            self.pixels[i] = color;
            self.zbuffer[i] = DEPTH_INFINITY;
            i += 1;
        }
        assert(self@.pixels =~= old(self)@.clear(color).pixels);
        assert(self@.depths =~= old(self)@.clear(color).depths);
    }

    /// Sets the colour that `set_pixel` and `draw_line` draw with.
    pub fn set_current_color(&mut self, color: Color)
        ensures
            final(self)@ == (FramebufferView { current_color: color, ..old(self)@ }),
            final(self).wf() == old(self).wf(),
    {
        self.current_color = color;
    }

    /// Records the background colour.
    pub fn set_background_color(&mut self, color: Color)
        ensures
            final(self)@ == (FramebufferView { background_color: color, ..old(self)@ }),
            final(self).wf() == old(self).wf(),
    {
        self.background_color = color;
    }

    /// The place of pixel `(x, y)` in the arrays.
    fn index(&self, x: u32, y: u32) -> (i: usize)
        requires
            self.wf(),
            self@.in_bounds(x as int, y as int),
        ensures
            i == self@.index_of(x as int, y as int),
            i < self.pixels@.len(),
            i < self.zbuffer@.len(),
    {
        proof {
            lemma_index_in_range(self@, x as int, y as int);
        }
        (y * self.width + x) as usize
    }

    /// Writes the current colour to `(x, y)`, with no depth test. A write
    /// outside the buffer does nothing.
    pub fn set_pixel(&mut self, x: u32, y: u32)
        requires
            old(self).wf(),
        ensures
            final(self).wf(),
            final(self)@ == old(self)@.put(x as int, y as int, old(self)@.current_color),
    {
        let color = self.current_color;
        self.set_pixel_color(x, y, color);
    }

    /// Writes `color` to `(x, y)`, with no depth test. A write outside the
    /// buffer does nothing.
    pub fn set_pixel_color(&mut self, x: u32, y: u32, color: Color)
        requires
            old(self).wf(),
        ensures
            final(self).wf(),
            final(self)@ == old(self)@.put(x as int, y as int, color),
    {
        if x < self.width && y < self.height {
            let index = self.index(x, y);
            self.pixels[index] = color;
        }
    }

    /// Writes a fragment under the depth test: if `(x, y)` is inside the
    /// buffer and `depth` is strictly below the stored key, colour and key
    /// are both replaced; else nothing changes. A fragment as far as the
    /// stored one loses.
    pub fn set_pixel_with_depth(&mut self, x: u32, y: u32, color: Color, depth: u32)
        requires
            old(self).wf(),
        ensures
            final(self).wf(),
            final(self)@ == old(self)@.put_with_depth(x as int, y as int, color, depth),
    {
        if x < self.width && y < self.height {
            let index = self.index(x, y);
            if depth < self.zbuffer[index] {
                self.pixels[index] = color;
                self.zbuffer[index] = depth;
            }
        }
    }

    /// The colour of pixel `(x, y)`, or opaque black outside the buffer.
    pub fn get_pixel(&self, x: u32, y: u32) -> (c: Color)
        requires
            self.wf(),
        ensures
            c == self@.get_pixel(x as int, y as int),
    {
        if x < self.width && y < self.height {
            let index = self.index(x, y);
            self.pixels[index]
        } else {
            Color::black()
        }
    }

    /// The depth key of pixel `(x, y)`, or the key of infinity outside the
    /// buffer.
    pub fn get_depth(&self, x: u32, y: u32) -> (d: u32)
        requires
            self.wf(),
        ensures
            d == self@.get_depth(x as int, y as int),
    {
        if x < self.width && y < self.height {
            let index = self.index(x, y);
            self.zbuffer[index]
        } else {
            DEPTH_INFINITY
        }
    }

    /// Writes `color` to the signed coordinates `(x, y)`, with no depth test.
    /// A point outside the buffer is dropped.
    pub fn point(&mut self, x: i32, y: i32, color: Color)
        requires
            old(self).wf(),
        ensures
            final(self).wf(),
            final(self)@ == old(self)@.put(x as int, y as int, color),
    {
        if x >= 0 && y >= 0 {
            self.set_pixel_color(x as u32, y as u32, color);
        }
    }

    /// Writes a fragment at the signed coordinates `(x, y)` under the depth
    /// test. A point outside the buffer is dropped.
    pub fn point_with_depth(&mut self, x: i32, y: i32, color: Color, depth: u32)
        requires
            old(self).wf(),
        ensures
            final(self).wf(),
            final(self)@ == old(self)@.put_with_depth(x as int, y as int, color, depth),
    {
        if x >= 0 && y >= 0 {
            self.set_pixel_with_depth(x as u32, y as u32, color, depth);
        }
    }
}

} // verus!
