//! Fragments: candidate pixel samples on their way into the frame buffer.

use vstd::prelude::*;
use crate::color::Color;
use crate::framebuffer::{Framebuffer, FramebufferView};

verus! {

/// A candidate sample for one pixel: where it falls, its colour, and the
/// depth key by which it competes with other fragments of that pixel.
#[derive(Clone, Copy, Debug, PartialEq, Eq, Structural)]
pub struct Fragment {
    pub x: i32,
    pub y: i32,
    pub color: Color,
    pub depth: u32,
}

impl Fragment {
    /// A fragment for pixel `(x, y)`.
    pub fn new(x: i32, y: i32, color: Color, depth: u32) -> (f: Fragment)
        ensures
            f == (Fragment { x, y, color, depth }),
    {
        Fragment { x, y, color, depth }
    }
}

/// The state after the first `n` fragments of `fragments` were written, in
/// order, each under the depth test.
pub open spec fn after_fragments(before: FramebufferView, fragments: Seq<Fragment>, n: int) -> FramebufferView
    decreases n,
{
    if n <= 0 {
        before
    } else {
        let f = fragments[n - 1];
        after_fragments(before, fragments, n - 1).put_with_depth(
            f.x as int,
            f.y as int,
            f.color,
            f.depth,
        )
    }
}

impl Framebuffer {
    /// Writes one fragment under the depth test; a fragment outside the
    /// buffer is dropped.
    pub fn write_fragment(&mut self, fragment: &Fragment)
        requires
            old(self).wf(),
        ensures
            final(self).wf(),
            final(self)@ == old(self)@.put_with_depth(
                fragment.x as int,
                fragment.y as int,
                fragment.color,
                fragment.depth,
            ),
    {
        self.point_with_depth(fragment.x, fragment.y, fragment.color, fragment.depth);
    }

    /// Writes the fragments in order, each under the depth test. Of two
    /// fragments of one pixel the nearer one stays, and of two equally near
    /// ones the one that was written first.
    pub fn write_fragments(&mut self, fragments: &Vec<Fragment>)
        requires
            old(self).wf(),
        ensures
            final(self).wf(),
            final(self)@ == after_fragments(old(self)@, fragments@, fragments@.len() as int),
    {
        let mut i: usize = 0;
        while i < fragments.len()
            invariant
                i <= fragments@.len(),
                self.wf(),
                self@ == after_fragments(old(self)@, fragments@, i as int),
            decreases fragments@.len() - i,
        {
            self.write_fragment(&fragments[i]);
            i += 1;
        }
    }
}

} // verus!
