//! Drawing a mesh: triangle by triangle, in the order of the index buffer.
//!
//! What a triangle looks like on screen is the caller's to say: a function
//! takes the three vertices and returns the fragments. Which triangles are
//! drawn, in what order, and how their fragments meet in the frame buffer is
//! fixed here.

use vstd::prelude::*;
use crate::fragment::{after_fragments, Fragment};
use crate::framebuffer::{Framebuffer, FramebufferView};
use crate::mesh::Mesh;

verus! {

/// Whether `after` is `before` with triangle `t` of the mesh drawn: if the
/// triangle is valid, with the fragments that `shade` gave for its three
/// vertices written in order under the depth test; if it is not, unchanged.
pub open spec fn triangle_drawn<V, F: Fn(&V, &V, &V) -> Vec<Fragment>>(
    before: FramebufferView,
    after: FramebufferView,
    mesh: &Mesh<V>,
    shade: F,
    t: int,
) -> bool {
    if mesh.triangle_valid(t) {
        exists|fragments: Vec<Fragment>|
            {
                &&& #[trigger] call_ensures(
                    shade,
                    (
                        &mesh.vertices@[mesh.spec_triangle(t).0 as int],
                        &mesh.vertices@[mesh.spec_triangle(t).1 as int],
                        &mesh.vertices@[mesh.spec_triangle(t).2 as int],
                    ),
                    fragments,
                )
                &&& after == after_fragments(before, fragments@, fragments@.len() as int)
            }
    } else {
        after == before
    }
}

/// Whether `states` holds the frame buffer before each of the first `n`
/// triangles and after the last of them: each state comes from the one
/// before it by drawing one triangle.
pub open spec fn is_drawing<V, F: Fn(&V, &V, &V) -> Vec<Fragment>>(
    states: Seq<FramebufferView>,
    mesh: &Mesh<V>,
    shade: F,
    n: int,
) -> bool {
    &&& states.len() == n + 1
    &&& forall|t: int|
        0 <= t < n ==> triangle_drawn(#[trigger] states[t], states[t + 1], mesh, shade, t)
}

/// Whether `after` is `before` with the first `n` triangles of the mesh
/// drawn, one after the other.
pub open spec fn mesh_drawn<V, F: Fn(&V, &V, &V) -> Vec<Fragment>>(
    before: FramebufferView,
    after: FramebufferView,
    mesh: &Mesh<V>,
    shade: F,
    n: int,
) -> bool {
    exists|states: Seq<FramebufferView>|
        #[trigger] is_drawing(states, mesh, shade, n) && states[0] == before && states[n] == after
}

impl Framebuffer {
    /// Draws the mesh: for each whole triangle of the index buffer, in
    /// order, asks `shade` for the fragments of its three vertices and
    /// writes them under the depth test. A triangle with an index that
    /// names no vertex is passed over and `shade` is not asked.
    pub fn draw_mesh<V, F: Fn(&V, &V, &V) -> Vec<Fragment>>(&mut self, mesh: &Mesh<V>, shade: F)
        requires
            old(self).wf(),
            forall|a: &V, b: &V, c: &V| #[trigger] call_requires(shade, (a, b, c)),
        ensures
            final(self).wf(),
            mesh_drawn(old(self)@, final(self)@, mesh, shade, mesh.spec_triangle_count()),
    {
        let count: usize = mesh.triangle_count();
        let mut t: usize = 0;
        let ghost mut states: Seq<FramebufferView> = seq![self@];
        while t < count
            invariant
                t <= count,
                count == mesh.spec_triangle_count(),
                self.wf(),
                forall|a: &V, b: &V, c: &V| #[trigger] call_requires(shade, (a, b, c)),
                is_drawing(states, mesh, shade, t as int),
                states[0] == old(self)@,
                states[t as int] == self@,
            decreases count - t,
        {
            let ghost mid = self@;
            match mesh.triangle(t) {
                Some((i1, i2, i3)) => {
                    let fragments = shade(&mesh.vertices[i1], &mesh.vertices[i2], &mesh.vertices[i3]);
                    self.write_fragments(&fragments);
                    assert(triangle_drawn(mid, self@, mesh, shade, t as int));
                },
                None => {
                    assert(triangle_drawn(mid, self@, mesh, shade, t as int));
                },
            }
            proof {
                let ghost earlier = states;
                states = states.push(self@);
                assert forall|k: int| 0 <= k < t + 1 implies triangle_drawn(
                    #[trigger] states[k],
                    states[k + 1],
                    mesh,
                    shade,
                    k,
                ) by {
                    if k < t {
                        assert(triangle_drawn(earlier[k], earlier[k + 1], mesh, shade, k));
                    }
                }
            }
            t += 1;
        }
        assert(is_drawing(states, mesh, shade, count as int));
    }
}

} // verus!
