//! Assembly of loaded meshes into one vertex array and one triangle list.
use vstd::prelude::*;

use crate::geometry::{Float3, Triangle, Vertex};

verus! {

/// Why a mesh could not be added.
#[derive(Clone, Copy, Debug, PartialEq, Eq, Structural)]
pub enum MeshError {
    /// Fewer normal components than position components.
    MissingNormals,
    /// The vertex array would outgrow 32-bit indices.
    TooManyVertices,
    /// The first triangle with an index past the mesh's own vertices.
    IndexOutOfRange { triangle: usize },
}

/// Vertex `v` of a mesh given as flat position and normal triplets.
pub open spec fn mesh_vertex(positions: Seq<u32>, normals: Seq<u32>, v: int) -> Vertex {
    Vertex {
        pos: Float3 { x: positions[3 * v], y: positions[3 * v + 1], z: positions[3 * v + 2] },
        normal: Float3 { x: normals[3 * v], y: normals[3 * v + 1], z: normals[3 * v + 2] },
    }
}

pub open spec fn mesh_vertices(positions: Seq<u32>, normals: Seq<u32>) -> Seq<Vertex> {
    Seq::new(positions.len() / 3, |v: int| mesh_vertex(positions, normals, v))
}

/// Triangle `i` of an index list, its indices moved past `base` earlier vertices.
pub open spec fn mesh_triangle(indices: Seq<u32>, base: int, i: int) -> Triangle {
    Triangle {
        p0: (indices[3 * i] + base) as u32,
        p1: (indices[3 * i + 1] + base) as u32,
        p2: (indices[3 * i + 2] + base) as u32,
    }
}

pub open spec fn mesh_triangles(indices: Seq<u32>, base: int) -> Seq<Triangle> {
    Seq::new(indices.len() / 3, |i: int| mesh_triangle(indices, base, i))
}

/// Triangle `i` of the index list names only the mesh's own `n` vertices.
pub open spec fn triangle_indices_below(indices: Seq<u32>, i: int, n: int) -> bool {
    indices[3 * i] < n && indices[3 * i + 1] < n && indices[3 * i + 2] < n
}

/// Appends a mesh given as flat position, normal and index triplets (trailing
/// partial triplets are ignored). Its indices are shifted past the vertices
/// already present. On an error nothing is appended.
pub fn append_mesh(
    vertices: &mut Vec<Vertex>,
    primitives: &mut Vec<Triangle>,
    positions: &Vec<u32>,
    normals: &Vec<u32>,
    indices: &Vec<u32>,
) -> (r: Result<(), MeshError>)
    ensures
        ({
            let nv = positions@.len() / 3;
            let nt = indices@.len() / 3;
            let base = old(vertices)@.len();
            &&& r is Ok <==> normals@.len() >= 3 * nv && base + nv <= u32::MAX && forall|i: int|
                0 <= i < nt ==> #[trigger] triangle_indices_below(indices@, i, nv as int)
            &&& r == Err::<(), MeshError>(MeshError::MissingNormals) <==> normals@.len() < 3 * nv
            &&& r == Err::<(), MeshError>(MeshError::TooManyVertices) <==> normals@.len() >= 3 * nv
                && base + nv > u32::MAX
            &&& r matches Err(MeshError::IndexOutOfRange { triangle }) ==> normals@.len() >= 3 * nv
                && base + nv <= u32::MAX && triangle < nt && !triangle_indices_below(
                indices@,
                triangle as int,
                nv as int,
            ) && forall|i: int|
                0 <= i < triangle ==> #[trigger] triangle_indices_below(indices@, i, nv as int)
            &&& r is Ok ==> final(vertices)@ == old(vertices)@ + mesh_vertices(positions@, normals@)
                && final(primitives)@ == old(primitives)@ + mesh_triangles(indices@, base as int)
            &&& r is Err ==> final(vertices)@ == old(vertices)@ && final(primitives)@ == old(
                primitives,
            )@
        }),
{
    let plen = positions.len();
    let ilen = indices.len();
    let nv = plen / 3;
    let nt = ilen / 3;
    assert(3 * nv <= positions@.len()) by (nonlinear_arith)
        requires
            nv == positions@.len() / 3,
    ;
    assert(3 * nt <= indices@.len()) by (nonlinear_arith)
        requires
            nt == indices@.len() / 3,
    ;
    if normals.len() < 3 * nv {
        return Err(MeshError::MissingNormals);
    }
    let base = vertices.len();
    if base > u32::MAX as usize || nv > u32::MAX as usize - base {
        return Err(MeshError::TooManyVertices);
    }
    let mut i: usize = 0;
    let mut k: usize = 0;
    while i < nt
        invariant
            nt == indices@.len() / 3,
            3 * nt <= indices@.len(),
            ilen == indices@.len(),
            nv == positions@.len() / 3,
            normals@.len() >= 3 * nv,
            base == vertices@.len(),
            vertices@ == old(vertices)@,
            base + nv <= u32::MAX,
            i <= nt,
            k == 3 * i,
            forall|j: int| 0 <= j < i ==> #[trigger] triangle_indices_below(indices@, j, nv as int),
        decreases nt - i,
    {
        if !((indices[k] as usize) < nv && (indices[k + 1] as usize) < nv && (indices[k + 2] as usize)
            < nv) {
            assert(!triangle_indices_below(indices@, i as int, nv as int));
            assert(!(forall|j: int|
                0 <= j < nt ==> #[trigger] triangle_indices_below(indices@, j, nv as int)));
            return Err(MeshError::IndexOutOfRange { triangle: i });
        }
        i = i + 1;
        k = k + 3;
    }
    let mut v: usize = 0;
    let mut k: usize = 0;
    while v < nv
        invariant
            k == 3 * v,
            nv == positions@.len() / 3,
            3 * nv <= positions@.len(),
            plen == positions@.len(),
            normals@.len() <= usize::MAX,
            normals@.len() >= 3 * nv,
            v <= nv,
            vertices@ == old(vertices)@ + mesh_vertices(positions@, normals@).take(v as int),
        decreases nv - v,
    {
        let vertex = Vertex {
            pos: Float3 { x: positions[k], y: positions[k + 1], z: positions[k + 2] },
            normal: Float3 { x: normals[k], y: normals[k + 1], z: normals[k + 2] },
        };
        vertices.push(vertex);
        assert(mesh_vertices(positions@, normals@).take(v + 1) =~= mesh_vertices(
            positions@,
            normals@,
        ).take(v as int).push(vertex));
        v = v + 1;
        k = k + 3;
    }
    assert(mesh_vertices(positions@, normals@).take(nv as int) =~= mesh_vertices(
        positions@,
        normals@,
    ));
    let offset = base as u32;
    let mut t: usize = 0;
    let mut k: usize = 0;
    while t < nt
        invariant
            k == 3 * t,
            nt == indices@.len() / 3,
            3 * nt <= indices@.len(),
            ilen == indices@.len(),
            t <= nt,
            base + nv <= u32::MAX,
            offset == base,
            forall|j: int| 0 <= j < nt ==> #[trigger] triangle_indices_below(indices@, j, nv as int),
            primitives@ == old(primitives)@ + mesh_triangles(indices@, base as int).take(t as int),
        decreases nt - t,
    {
        assert(triangle_indices_below(indices@, t as int, nv as int));
        let triangle = Triangle {
            p0: indices[k] + offset,
            p1: indices[k + 1] + offset,
            p2: indices[k + 2] + offset,
        };
        primitives.push(triangle);
        assert(mesh_triangles(indices@, base as int).take(t + 1) =~= mesh_triangles(
            indices@,
            base as int,
        ).take(t as int).push(triangle));
        t = t + 1;
        k = k + 3;
    }
    assert(mesh_triangles(indices@, base as int).take(nt as int) =~= mesh_triangles(
        indices@,
        base as int,
    ));
    Ok(())
}

} // verus!
