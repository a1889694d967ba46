use vstd::prelude::*;

use crate::bvh::{all_in_range, hierarchy_of, Bvh, BvhNode, NodeLink, LEAF_SIZE, MAX_TRIANGLES};
use crate::camera::{default_camera, Camera, CameraBuilder};
use crate::geometry::{triangle_in_range, Aabb, Triangle, Vertex};
use crate::layout::{
    node_bytes, nodes_layout, triangle_bytes, triangles_layout, uniform_bytes, uniform_layout,
    vertex_bytes, vertices_layout,
};

verus! {

/// What the device reads of the scene as a whole: the camera and the index of
/// the active environment map.
#[derive(Clone, Copy, Debug, PartialEq, Eq, Structural)]
pub struct Uniform {
    pub camera: Camera,
    pub env_map: u32,
}

/// Why a scene's geometry was refused.
#[derive(Clone, Copy, Debug, PartialEq, Eq, Structural)]
pub enum SceneError {
    /// More triangles than a hierarchy can index.
    TooManyPrimitives,
    /// The first triangle that names a vertex past the end of the vertex array.
    IndexOutOfRange { primitive: usize },
}

/// The scene's buffers in their device layouts: the uniform, the vertices, the
/// triangles in hierarchy order, and the flattened hierarchy.
pub struct SceneBuffers {
    pub uniform: Vec<u8>,
    pub vertices: Vec<u8>,
    pub primitives: Vec<u8>,
    pub nodes: Vec<u8>,
}

/// The first triangle with an index past `n` vertices, if any.
pub fn first_out_of_range(prims: &Vec<Triangle>, n: usize) -> (r: Option<usize>)
    ensures
        match r {
            Some(i) => i < prims@.len() && !triangle_in_range(prims@[i as int], n as int) && forall|
                j: int,
            | 0 <= j < i ==> #[trigger] triangle_in_range(prims@[j], n as int),
            None => all_in_range(prims@, n as int),
        },
{
    let mut i: usize = 0;
    while i < prims.len()
        invariant
            i <= prims@.len(),
            forall|j: int| 0 <= j < i ==> #[trigger] triangle_in_range(prims@[j], n as int),
        decreases prims@.len() - i,
    {
        let t = prims[i];
        if !((t.p0 as usize) < n && (t.p1 as usize) < n && (t.p2 as usize) < n) {
            return Some(i);
        }
        i = i + 1;
    }
    None
}

/// A scene's camera and environment settings.
pub struct Scene {
    uniform: Uniform,
}

impl View for Scene {
    type V = Uniform;

    closed spec fn view(&self) -> Uniform {
        self.uniform
    }
}

impl Default for Scene {
    fn default() -> (r: Scene)
        ensures
            r@ == (Uniform { camera: default_camera(), env_map: 0 }),
    {
        Scene::new()
    }
}

impl Scene {
    /// A scene with the default camera and environment map 0.
    pub fn new() -> (r: Scene)
        ensures
            r@ == (Uniform { camera: default_camera(), env_map: 0 }),
    {
        Scene { uniform: Uniform { camera: CameraBuilder::new().build(), env_map: 0 } }
    }

    pub fn set_camera(&mut self, camera: Camera)
        ensures
            final(self)@ == (Uniform { camera, ..old(self)@ }),
    {
        self.uniform.camera = camera;
    }

    pub fn set_env_map(&mut self, env_map: u32)
        ensures
            final(self)@ == (Uniform { env_map, ..old(self)@ }),
    {
        self.uniform.env_map = env_map;
    }

    /// Checks the geometry, builds the hierarchy over it (reordering
    /// `primitives` into hierarchy order) and lays every buffer out for the
    /// device. On an error `primitives` is left as it was.
    pub fn build(&self, vertices: &Vec<Vertex>, primitives: &mut Vec<Triangle>) -> (r: Result<
        SceneBuffers,
        SceneError,
    >)
        ensures
            r is Ok <==> old(primitives)@.len() <= MAX_TRIANGLES && all_in_range(
                old(primitives)@,
                vertices@.len() as int,
            ),
            r matches Err(SceneError::TooManyPrimitives) ==> old(primitives)@.len() > MAX_TRIANGLES,
            r matches Err(SceneError::IndexOutOfRange { primitive }) ==> old(primitives)@.len()
                <= MAX_TRIANGLES && primitive < old(primitives)@.len() && !triangle_in_range(
                old(primitives)@[primitive as int],
                vertices@.len() as int,
            ) && forall|j: int|
                0 <= j < primitive ==> #[trigger] triangle_in_range(
                    old(primitives)@[j],
                    vertices@.len() as int,
                ),
            r is Err ==> final(primitives)@ == old(primitives)@,
            r matches Ok(b) ==> {
                &&& final(primitives)@.to_multiset() == old(primitives)@.to_multiset()
                &&& b.uniform@ == uniform_layout(self@)
                &&& b.vertices@ == vertices_layout(vertices@)
                &&& b.primitives@ == triangles_layout(final(primitives)@)
                &&& exists|nodes: Seq<BvhNode>|
                    #[trigger] hierarchy_of(nodes, final(primitives)@, vertices@, LEAF_SIZE as int)
                        && b.nodes@ == nodes_layout(nodes)
                &&& old(primitives)@.len() == 0 ==> b.nodes@ == nodes_layout(
                    seq![
                        BvhNode {
                            bounds: Aabb::spec_empty(),
                            link: NodeLink::Leaf { first: 0, count: 0 },
                        },
                    ],
                )
            },
    {
        if primitives.len() > MAX_TRIANGLES {
            return Err(SceneError::TooManyPrimitives);
        }
        match first_out_of_range(primitives, vertices.len()) {
            Some(primitive) => {
                return Err(SceneError::IndexOutOfRange { primitive });
            },
            None => {},
        }
        let bvh = Bvh::new(vertices, primitives);
        let flat = bvh.flatten();
        let nodes = node_bytes(&flat);
        assert(hierarchy_of(flat@, primitives@, vertices@, LEAF_SIZE as int) && nodes@ == nodes_layout(
            flat@,
        ));
        Ok(
            SceneBuffers {
                uniform: uniform_bytes(&self.uniform),
                vertices: vertex_bytes(vertices),
                primitives: triangle_bytes(primitives),
                nodes,
            },
        )
    }

    pub fn camera(&self) -> (r: Camera)
        ensures
            r == self@.camera,
    {
        self.uniform.camera
    }

    pub fn env_map(&self) -> (r: u32)
        ensures
            r == self@.env_map,
    {
        self.uniform.env_map
    }
}

} // verus!
