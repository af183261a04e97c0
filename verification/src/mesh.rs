//! Triangle meshes: a vertex buffer of any vertex type and an index buffer
//! in which every three entries name one triangle.

use vstd::prelude::*;

verus! {

/// A triangle mesh. What a vertex holds is up to the caller; this module
/// reads only how many vertices there are.
#[derive(Debug)]
pub struct Mesh<V> {
    pub vertices: Vec<V>,
    pub indices: Vec<u32>,
}

/// The number of rings of the sphere that stands in for a mesh that could
/// not be had.
pub const DEFAULT_RINGS: u32 = 32;

/// The number of sectors of the sphere that stands in for a mesh that could
/// not be had.
pub const DEFAULT_SECTORS: u32 = 32;

/// A sequence of indices read as mathematical integers.
pub open spec fn as_ints(s: Seq<u32>) -> Seq<int> {
    s.map_values(|k: u32| k as int)
}

/// The number of vertices of a sphere grid: one more row than `rings`, one
/// more column than `sectors` (the seam column occurs twice).
pub open spec fn sphere_vertex_count(rings: int, sectors: int) -> int {
    (rings + 1) * (sectors + 1)
}

/// The place of the vertex of ring `i` and sector `j` in the vertex buffer.
pub open spec fn sphere_vertex_index(sectors: int, i: int, j: int) -> int {
    i * (sectors + 1) + j
}

/// The indices of the grid cell of ring `i` and sector `j`: two triangles,
/// but for the first ring, which has no upper one, and the last ring, which
/// has no lower one (they would have no area at the poles).
pub open spec fn sphere_cell(rings: int, sectors: int, i: int, j: int) -> Seq<int> {
    let k1 = sphere_vertex_index(sectors, i, j);
    let k2 = sphere_vertex_index(sectors, i + 1, j);
    let upper = if i != 0 {
        seq![k1, k2, k1 + 1]
    } else {
        Seq::<int>::empty()
    };
    let lower = if i != rings - 1 {
        seq![k1 + 1, k2, k2 + 1]
    } else {
        Seq::<int>::empty()
    };
    upper + lower
}

/// The indices of the first `j` cells of ring `i`.
pub open spec fn sphere_row(rings: int, sectors: int, i: int, j: int) -> Seq<int>
    decreases j,
{
    if j <= 0 {
        Seq::<int>::empty()
    } else {
        sphere_row(rings, sectors, i, j - 1) + sphere_cell(rings, sectors, i, j - 1)
    }
}

/// The indices of the first `i` rings.
pub open spec fn sphere_rows(rings: int, sectors: int, i: int) -> Seq<int>
    decreases i,
{
    if i <= 0 {
        Seq::<int>::empty()
    } else {
        sphere_rows(rings, sectors, i - 1) + sphere_row(rings, sectors, i - 1, sectors)
    }
}

/// The index buffer of a sphere of `rings` rings and `sectors` sectors.
pub open spec fn sphere_index_seq(rings: int, sectors: int) -> Seq<int> {
    sphere_rows(rings, sectors, rings)
}

/// The number of indices that one cell of ring `i` contributes.
pub open spec fn sphere_cell_len(rings: int, i: int) -> int {
    (if i != 0 { 3int } else { 0int }) + (if i != rings - 1 { 3int } else { 0int })
}

/// The number of indices of the first `i` rings.
pub open spec fn sphere_rows_len(rings: int, sectors: int, i: int) -> int {
    if i <= 0 || rings <= 1 {
        0
    } else if i < rings {
        sectors * (6 * i - 3)
    } else {
        6 * sectors * (rings - 1)
    }
}

/// The first `j` cells of a ring hold `j` times the indices of one cell, and
/// each index names a vertex of that ring or of the next.
pub proof fn lemma_sphere_row(rings: int, sectors: int, i: int, j: int)
    requires
        0 <= i < rings,
        0 <= j <= sectors,
    ensures
        sphere_row(rings, sectors, i, j).len() == j * sphere_cell_len(rings, i),
        forall|k: int|
            0 <= k < sphere_row(rings, sectors, i, j).len() ==> 0 <= #[trigger] sphere_row(
                rings,
                sectors,
                i,
                j,
            )[k] < sphere_vertex_count(rings, sectors),
    decreases j,
{
    if j > 0 {
        lemma_sphere_row(rings, sectors, i, j - 1);
        let cell = sphere_cell(rings, sectors, i, j - 1);
        let k1 = sphere_vertex_index(sectors, i, j - 1);
        let k2 = sphere_vertex_index(sectors, i + 1, j - 1);
        assert(cell.len() == sphere_cell_len(rings, i));
        assert(j * sphere_cell_len(rings, i) == (j - 1) * sphere_cell_len(rings, i)
            + sphere_cell_len(rings, i)) by (nonlinear_arith);
        assert(0 <= k1 && k2 == k1 + sectors + 1 && k2 + 1 < sphere_vertex_count(rings, sectors))
            by (nonlinear_arith)
            requires
                0 <= i < rings,
                0 < j <= sectors,
                k1 == i * (sectors + 1) + (j - 1),
                k2 == (i + 1) * (sectors + 1) + (j - 1),
                sphere_vertex_count(rings, sectors) == (rings + 1) * (sectors + 1),
        ;
        assert forall|k: int| 0 <= k < cell.len() implies 0 <= #[trigger] cell[k]
            < sphere_vertex_count(rings, sectors) by {}
    }
}

/// The first `i` rings hold `sphere_rows_len` indices, and each index names
/// a vertex of the grid.
pub proof fn lemma_sphere_rows(rings: int, sectors: int, i: int)
    requires
        0 <= i <= rings,
        0 <= sectors,
    ensures
        sphere_rows(rings, sectors, i).len() == sphere_rows_len(rings, sectors, i),
        forall|k: int|
            0 <= k < sphere_rows(rings, sectors, i).len() ==> 0 <= #[trigger] sphere_rows(
                rings,
                sectors,
                i,
            )[k] < sphere_vertex_count(rings, sectors),
    decreases i,
{
    if i > 0 {
        lemma_sphere_rows(rings, sectors, i - 1);
        lemma_sphere_row(rings, sectors, i - 1, sectors);
        assert(sphere_rows_len(rings, sectors, i) == sphere_rows_len(rings, sectors, i - 1)
            + sectors * sphere_cell_len(rings, i - 1)) by (nonlinear_arith)
            requires
                0 < i <= rings,
        ;
    }
}

/// The index buffer of a sphere names only vertices of its grid, and holds
/// two triangles for each cell but those at the poles, which have one.
pub proof fn lemma_sphere_indices(rings: int, sectors: int)
    requires
        0 <= rings,
        0 <= sectors,
    ensures
        sphere_index_seq(rings, sectors).len() == if rings <= 1 {
            0
        } else {
            6 * sectors * (rings - 1)
        },
        sphere_index_seq(rings, sectors).len() % 3 == 0,
        forall|k: int|
            0 <= k < sphere_index_seq(rings, sectors).len() ==> 0 <= #[trigger] sphere_index_seq(
                rings,
                sectors,
            )[k] < sphere_vertex_count(rings, sectors),
{
    lemma_sphere_rows(rings, sectors, rings);
    let m = sectors * (rings - 1);
    assert(6 * sectors * (rings - 1) == 3 * (2 * m)) by (nonlinear_arith)
        requires
            m == sectors * (rings - 1),
    ;
}

impl<V> Mesh<V> {
    /// The number of whole triangles in the index buffer.
    pub open spec fn spec_triangle_count(&self) -> int {
        self.indices@.len() as int / 3
    }

    /// Whether every index names a vertex.
    pub open spec fn indices_valid(&self) -> bool {
        forall|k: int| 0 <= k < self.indices@.len() ==> #[trigger] self.indices@[k] < self.vertices@.len()
    }

    /// Whether triangle `t` exists and its three indices name vertices.
    pub open spec fn triangle_valid(&self, t: int) -> bool {
        &&& 0 <= t < self.spec_triangle_count()
        &&& self.indices@[3 * t] < self.vertices@.len()
        &&& self.indices@[3 * t + 1] < self.vertices@.len()
        &&& self.indices@[3 * t + 2] < self.vertices@.len()
    }

    /// The three vertex positions that triangle `t` names.
    pub open spec fn spec_triangle(&self, t: int) -> (usize, usize, usize) {
        (
            self.indices@[3 * t] as usize,
            self.indices@[3 * t + 1] as usize,
            self.indices@[3 * t + 2] as usize,
        )
    }

    /// An empty mesh.
    pub fn new() -> (mesh: Mesh<V>)
        ensures
            mesh.vertices@.len() == 0,
            mesh.indices@.len() == 0,
    {
        Mesh { vertices: Vec::new(), indices: Vec::new() }
    }

    /// A mesh of the given buffers.
    pub fn from_parts(vertices: Vec<V>, indices: Vec<u32>) -> (mesh: Mesh<V>)
        ensures
            mesh.vertices == vertices,
            mesh.indices == indices,
    {
        Mesh { vertices, indices }
    }

    /// The number of whole triangles in the index buffer; a tail of one or
    /// two indices is no triangle.
    pub fn triangle_count(&self) -> (n: usize)
        ensures
            n == self.spec_triangle_count(),
    {
        self.indices.len() / 3
    }

    /// The vertex positions of triangle `t`, or `None` if there is no such
    /// triangle or one of its indices names no vertex. A renderer draws the
    /// triangles for which this gives `Some` and passes over the others.
    pub fn triangle(&self, t: usize) -> (corners: Option<(usize, usize, usize)>)
        ensures
            corners.is_some() <==> self.triangle_valid(t as int),
            corners.is_some() ==> corners.unwrap() == self.spec_triangle(t as int),
            corners.is_some() ==> corners.unwrap().0 < self.vertices@.len() && corners.unwrap().1
                < self.vertices@.len() && corners.unwrap().2 < self.vertices@.len(),
    {
        if t >= self.indices.len() / 3 {
            return None;
        }
        let base: usize = 3 * t;
        let i1: usize = self.indices[base] as usize;
        let i2: usize = self.indices[base + 1] as usize;
        let i3: usize = self.indices[base + 2] as usize;
        let n: usize = self.vertices.len();
        if i1 < n && i2 < n && i3 < n {
            Some((i1, i2, i3))
        } else {
            None
        }
    }

    /// Whether every index names a vertex, tested at run time.
    pub fn has_valid_indices(&self) -> (ok: bool)
        ensures
            ok == self.indices_valid(),
    {
        let n: usize = self.vertices.len();
        let mut k: usize = 0;
        while k < self.indices.len()
            invariant
                k <= self.indices@.len(),
                n == self.vertices@.len(),
                forall|m: int| 0 <= m < k ==> #[trigger] self.indices@[m] < n,
            decreases self.indices@.len() - k,
        {
            if self.indices[k] as usize >= n {
                return false;
            }
            k += 1;
        }
        true
    }

    /// The mesh of a sphere grid of `rings` rings and `sectors` sectors.
    /// The vertex of ring `i` and sector `j` is what `make_vertex(i, j)`
    /// returns; the vertices stand ring by ring, and the index buffer is
    /// [`sphere_index_seq`].
    pub fn create_sphere<F: Fn(u32, u32) -> V>(rings: u32, sectors: u32, make_vertex: F) -> (mesh:
        Mesh<V>)
        requires
            sphere_vertex_count(rings as int, sectors as int) <= u32::MAX,
            forall|i: u32, j: u32| i <= rings && j <= sectors ==> call_requires(make_vertex, (i, j)),
        ensures
            mesh.vertices@.len() == sphere_vertex_count(rings as int, sectors as int),
            forall|i: int, j: int|
                0 <= i <= rings && 0 <= j <= sectors ==> call_ensures(
                    make_vertex,
                    (i as u32, j as u32),
                    #[trigger] mesh.vertices@[sphere_vertex_index(sectors as int, i, j)],
                ),
            as_ints(mesh.indices@) == sphere_index_seq(rings as int, sectors as int),
            mesh.indices_valid(),
    {
        let vertices = sphere_vertices(rings, sectors, make_vertex);
        let indices = sphere_indices(rings, sectors);
        proof {
            lemma_sphere_indices(rings as int, sectors as int);
            assert forall|k: int| 0 <= k < indices@.len() implies #[trigger] indices@[k]
                < vertices@.len() by {
                assert(as_ints(indices@)[k] == indices@[k] as int);
            }
        }
        Mesh { vertices, indices }
    }

    /// The mesh to render: the loaded one if there is one, else the default
    /// sphere, so that a mesh that could not be had never stops the
    /// rendering. The default sphere has 33 by 33 vertices, made by
    /// `make_vertex`, and 1984 triangles.
    pub fn loaded_or_sphere<F: Fn(u32, u32) -> V>(loaded: Option<Mesh<V>>, make_vertex: F) -> (mesh:
        Mesh<V>)
        requires
            forall|i: u32, j: u32|
                i <= DEFAULT_RINGS && j <= DEFAULT_SECTORS ==> call_requires(make_vertex, (i, j)),
        ensures
            loaded.is_some() ==> mesh == loaded.unwrap(),
            loaded.is_none() ==> {
                &&& mesh.vertices@.len() == 1089
                &&& mesh.indices@.len() == 5952
                &&& mesh.indices_valid()
                &&& as_ints(mesh.indices@) == sphere_index_seq(
                    DEFAULT_RINGS as int,
                    DEFAULT_SECTORS as int,
                )
                &&& forall|i: int, j: int|
                    0 <= i <= DEFAULT_RINGS && 0 <= j <= DEFAULT_SECTORS ==> call_ensures(
                        make_vertex,
                        (i as u32, j as u32),
                        #[trigger] mesh.vertices@[sphere_vertex_index(
                            DEFAULT_SECTORS as int,
                            i,
                            j,
                        )],
                    )
            },
    {
        match loaded {
            Some(mesh) => mesh,
            None => {
                let mesh = Mesh::create_sphere(DEFAULT_RINGS, DEFAULT_SECTORS, make_vertex);
                proof {
                    lemma_sphere_indices(DEFAULT_RINGS as int, DEFAULT_SECTORS as int);
                    assert(as_ints(mesh.indices@).len() == mesh.indices@.len());
                }
                mesh
            },
        }
    }
}

/// The vertex buffer of a sphere grid: `make_vertex(i, j)` for each ring `i`
/// and each sector `j`, ring by ring.
pub fn sphere_vertices<V, F: Fn(u32, u32) -> V>(rings: u32, sectors: u32, make_vertex: F) -> (vertices:
    Vec<V>)
    requires
        sphere_vertex_count(rings as int, sectors as int) <= u32::MAX,
        forall|i: u32, j: u32| i <= rings && j <= sectors ==> call_requires(make_vertex, (i, j)),
    ensures
        vertices@.len() == sphere_vertex_count(rings as int, sectors as int),
        forall|i: int, j: int|
            0 <= i <= rings && 0 <= j <= sectors ==> call_ensures(
                make_vertex,
                (i as u32, j as u32),
                #[trigger] vertices@[sphere_vertex_index(sectors as int, i, j)],
            ),
{
    let mut vertices: Vec<V> = Vec::new();
    let mut i: u32 = 0;
    assert(sectors + 1 <= (rings + 1) * (sectors + 1) && rings + 1 <= (rings + 1) * (sectors + 1))
        by (nonlinear_arith)
        requires
            0 <= rings,
            0 <= sectors,
    ;
    while i <= rings
        invariant
            i <= rings + 1,
            rings + 1 <= u32::MAX,
            sphere_vertex_count(rings as int, sectors as int) <= u32::MAX,
            sectors + 1 <= u32::MAX,
            forall|i: u32, j: u32| i <= rings && j <= sectors ==> call_requires(make_vertex, (i, j)),
            vertices@.len() == i * (sectors + 1),
            forall|p: int, q: int|
                0 <= p < i && 0 <= q <= sectors ==> call_ensures(
                    make_vertex,
                    (p as u32, q as u32),
                    #[trigger] vertices@[sphere_vertex_index(sectors as int, p, q)],
                ),
        decreases rings + 1 - i,
    {
        let mut j: u32 = 0;
        while j <= sectors
            invariant
                i <= rings,
                j <= sectors + 1,
                sectors + 1 <= u32::MAX,
                forall|i: u32, j: u32|
                    i <= rings && j <= sectors ==> call_requires(make_vertex, (i, j)),
                vertices@.len() == i * (sectors + 1) + j,
                forall|p: int, q: int|
                    0 <= p <= i && 0 <= q <= sectors && (p < i || q < j) ==> call_ensures(
                        make_vertex,
                        (p as u32, q as u32),
                        #[trigger] vertices@[sphere_vertex_index(sectors as int, p, q)],
                    ),
            decreases sectors + 1 - j,
        {
            let ghost before = vertices@;
            let v = make_vertex(i, j);
            vertices.push(v);
            proof {
                assert forall|p: int, q: int|
                    0 <= p <= i && 0 <= q <= sectors && (p < i || q < j + 1) implies call_ensures(
                    make_vertex,
                    (p as u32, q as u32),
                    #[trigger] vertices@[sphere_vertex_index(sectors as int, p, q)],
                ) by {
                    if p < i {
                        assert(p * (sectors + 1) + q < i * (sectors + 1)) by (nonlinear_arith)
                            requires
                                0 <= p < i,
                                0 <= q <= sectors,
                        ;
                        assert(vertices@[sphere_vertex_index(sectors as int, p, q)]
                            == before[sphere_vertex_index(sectors as int, p, q)]);
                    } else if q < j {
                        assert(vertices@[sphere_vertex_index(sectors as int, p, q)]
                            == before[sphere_vertex_index(sectors as int, p, q)]);
                    }
                }
            }
            j += 1;
        }
        assert((i + 1) * (sectors + 1) == i * (sectors + 1) + (sectors + 1)) by (nonlinear_arith);
        i += 1;
    }
    assert(i * (sectors + 1) == (rings + 1) * (sectors + 1)) by (nonlinear_arith)
        requires
            i == rings + 1,
    ;
    vertices
}

/// The index buffer of a sphere grid of `rings` rings and `sectors` sectors.
pub fn sphere_indices(rings: u32, sectors: u32) -> (indices: Vec<u32>)
    requires
        sphere_vertex_count(rings as int, sectors as int) <= u32::MAX,
    ensures
        as_ints(indices@) == sphere_index_seq(rings as int, sectors as int),
{
    let mut indices: Vec<u32> = Vec::new();
    let mut i: u32 = 0;
    while i < rings
        invariant
            i <= rings,
            sphere_vertex_count(rings as int, sectors as int) <= u32::MAX,
            as_ints(indices@) == sphere_rows(rings as int, sectors as int, i as int),
        decreases rings - i,
    {
        assert(0 <= i * (sectors + 1) && (i + 1) * (sectors + 1) == i * (sectors + 1) + sectors + 1
            && i * (sectors + 1) + 2 * (sectors + 1) <= (rings + 1) * (sectors + 1))
            by (nonlinear_arith)
            requires
                0 <= i < rings,
                0 <= sectors,
        ;
        let k1: u32 = i * (sectors + 1);
        let k2: u32 = k1 + sectors + 1;
        let mut j: u32 = 0;
        while j < sectors
            invariant
                i < rings,
                j <= sectors,
                k1 == sphere_vertex_index(sectors as int, i as int, 0),
                k2 == sphere_vertex_index(sectors as int, i + 1, 0),
                k2 == k1 + sectors + 1,
                k2 + sectors + 1 <= u32::MAX,
                as_ints(indices@) == sphere_rows(rings as int, sectors as int, i as int)
                    + sphere_row(rings as int, sectors as int, i as int, j as int),
            decreases sectors - j,
        {
            let ghost before = as_ints(indices@);
            if i != 0 {
                indices.push(k1 + j);
                indices.push(k2 + j);
                indices.push(k1 + j + 1);
            }
            if i != rings - 1 {
                indices.push(k1 + j + 1);
                indices.push(k2 + j);
                indices.push(k2 + j + 1);
            }
            proof {
                assert(as_ints(indices@) =~= before + sphere_cell(
                    rings as int,
                    sectors as int,
                    i as int,
                    j as int,
                ));
                assert(sphere_rows(rings as int, sectors as int, i as int) + sphere_row(
                    rings as int,
                    sectors as int,
                    i as int,
                    j + 1,
                ) =~= before + sphere_cell(rings as int, sectors as int, i as int, j as int));
            }
            j += 1;
        }
        i += 1;
    }
    indices
}

} // verus!
