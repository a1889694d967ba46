//! Byte layouts shared with the device program. Every multi-byte scalar is
//! little-endian; a three-component vector takes 12 bytes and is aligned to
//! 16, as uniform and storage buffers lay them out.
use vstd::prelude::*;

use crate::bvh::{BvhNode, NodeLink};
use crate::camera::Camera;
use crate::geometry::{bits_of_key, key_bits, Aabb, Float3, Triangle, Vertex};
use crate::scene::Uniform;

verus! {

/// Size in bytes of the scene uniform.
pub const UNIFORM_SIZE: usize = 64;

/// Size in bytes of one vertex.
pub const VERTEX_SIZE: usize = 32;

/// Size in bytes of one triangle.
pub const TRIANGLE_SIZE: usize = 12;

/// Size in bytes of one hierarchy node.
pub const NODE_SIZE: usize = 48;

pub open spec fn u32_le(x: u32) -> Seq<u8> {
    seq![
        (x % 256) as u8,
        ((x / 256) % 256) as u8,
        ((x / 65536) % 256) as u8,
        (x / 16777216) as u8,
    ]
}

pub open spec fn zeros(n: nat) -> Seq<u8> {
    Seq::new(n, |i: int| 0u8)
}

pub open spec fn float3_layout(p: Float3) -> Seq<u8> {
    u32_le(p.x) + u32_le(p.y) + u32_le(p.z)
}

/// Position, field of view, look-at point, focus distance, up vector, lens
/// angle: each vector followed by the scalar that fills its fourth lane.
pub open spec fn camera_layout(c: Camera) -> Seq<u8> {
    float3_layout(c.pos) + u32_le(c.fov) + float3_layout(c.center) + u32_le(c.focus_dist)
        + float3_layout(c.up) + u32_le(c.lens_angle)
}

/// The camera, the environment map's index, and padding to 16 bytes.
pub open spec fn uniform_layout(u: Uniform) -> Seq<u8> {
    camera_layout(u.camera) + u32_le(u.env_map) + zeros(12)
}

pub open spec fn vertex_layout(v: Vertex) -> Seq<u8> {
    float3_layout(v.pos) + zeros(4) + float3_layout(v.normal) + zeros(4)
}

pub open spec fn triangle_layout(t: Triangle) -> Seq<u8> {
    u32_le(t.p0) + u32_le(t.p1) + u32_le(t.p2)
}

pub open spec fn corner_min(b: Aabb) -> Float3 {
    Float3 { x: key_bits(b.min_x), y: key_bits(b.min_y), z: key_bits(b.min_z) }
}

pub open spec fn corner_max(b: Aabb) -> Float3 {
    Float3 { x: key_bits(b.max_x), y: key_bits(b.max_y), z: key_bits(b.max_z) }
}

/// Lower corner, kind (1 for a leaf, 0 for an inner node), upper corner, then
/// first triangle and count for a leaf, or left and right child for an inner
/// node, and padding to 16 bytes.
pub open spec fn node_layout(n: BvhNode) -> Seq<u8> {
    let (kind, a, b) = match n.link {
        NodeLink::Leaf { first, count } => (1u32, first, count),
        NodeLink::Inner { left, right } => (0u32, left, right),
    };
    float3_layout(corner_min(n.bounds)) + u32_le(kind) + float3_layout(corner_max(n.bounds))
        + u32_le(a) + u32_le(b) + zeros(12)
}

pub open spec fn vertices_layout(s: Seq<Vertex>) -> Seq<u8>
    decreases s.len(),
{
    if s.len() == 0 {
        Seq::empty()
    } else {
        vertices_layout(s.drop_last()) + vertex_layout(s.last())
    }
}

pub open spec fn triangles_layout(s: Seq<Triangle>) -> Seq<u8>
    decreases s.len(),
{
    if s.len() == 0 {
        Seq::empty()
    } else {
        triangles_layout(s.drop_last()) + triangle_layout(s.last())
    }
}

pub open spec fn nodes_layout(s: Seq<BvhNode>) -> Seq<u8>
    decreases s.len(),
{
    if s.len() == 0 {
        Seq::empty()
    } else {
        nodes_layout(s.drop_last()) + node_layout(s.last())
    }
}

pub fn push_u32(out: &mut Vec<u8>, x: u32)
    ensures
        final(out)@ == old(out)@ + u32_le(x),
{
    out.push((x % 256) as u8);
    out.push(((x / 256) % 256) as u8);
    out.push(((x / 65536) % 256) as u8);
    out.push((x / 16777216) as u8);
    assert(out@ =~= old(out)@ + u32_le(x));
}

fn push_zeros(out: &mut Vec<u8>, n: usize)
    ensures
        final(out)@ == old(out)@ + zeros(n as nat),
{
    let mut i: usize = 0;
    while i < n
        invariant
            i <= n,
            out@ == old(out)@ + zeros(i as nat),
        decreases n - i,
    {
        out.push(0u8);
        i = i + 1;
        assert(out@ =~= old(out)@ + zeros(i as nat));
    }
}

fn push_float3(out: &mut Vec<u8>, p: &Float3)
    ensures
        final(out)@ == old(out)@ + float3_layout(*p),
{
    push_u32(out, p.x);
    push_u32(out, p.y);
    push_u32(out, p.z);
    assert(out@ =~= old(out)@ + float3_layout(*p));
}

/// The uniform in its device layout.
pub fn uniform_bytes(u: &Uniform) -> (r: Vec<u8>)
    ensures
        r@ == uniform_layout(*u),
        r@.len() == UNIFORM_SIZE,
{
    let mut out: Vec<u8> = Vec::new();
    let c = &u.camera;
    push_float3(&mut out, &c.pos);
    push_u32(&mut out, c.fov);
    push_float3(&mut out, &c.center);
    push_u32(&mut out, c.focus_dist);
    push_float3(&mut out, &c.up);
    push_u32(&mut out, c.lens_angle);
    push_u32(&mut out, u.env_map);
    push_zeros(&mut out, 12);
    assert(out@ =~= uniform_layout(*u));
    out
}

fn push_vertex(out: &mut Vec<u8>, v: &Vertex)
    ensures
        final(out)@ == old(out)@ + vertex_layout(*v),
{
    push_float3(out, &v.pos);
    push_zeros(out, 4);
    push_float3(out, &v.normal);
    push_zeros(out, 4);
    assert(out@ =~= old(out)@ + vertex_layout(*v));
}

fn push_triangle(out: &mut Vec<u8>, t: &Triangle)
    ensures
        final(out)@ == old(out)@ + triangle_layout(*t),
{
    push_u32(out, t.p0);
    push_u32(out, t.p1);
    push_u32(out, t.p2);
    assert(out@ =~= old(out)@ + triangle_layout(*t));
}

fn push_node(out: &mut Vec<u8>, n: &BvhNode)
    ensures
        final(out)@ == old(out)@ + node_layout(*n),
{
    let (kind, a, b) = match n.link {
        NodeLink::Leaf { first, count } => (1u32, first, count),
        NodeLink::Inner { left, right } => (0u32, left, right),
    };
    let lower = Float3 {
        x: bits_of_key(n.bounds.min_x),
        y: bits_of_key(n.bounds.min_y),
        z: bits_of_key(n.bounds.min_z),
    };
    let upper = Float3 {
        x: bits_of_key(n.bounds.max_x),
        y: bits_of_key(n.bounds.max_y),
        z: bits_of_key(n.bounds.max_z),
    };
    assert(lower == corner_min(n.bounds));
    assert(upper == corner_max(n.bounds));
    let ghost start = out@;
    push_float3(out, &lower);
    push_u32(out, kind);
    push_float3(out, &upper);
    push_u32(out, a);
    push_u32(out, b);
    push_zeros(out, 12);
    assert(out@ =~= start + (float3_layout(lower) + u32_le(kind) + float3_layout(upper) + u32_le(a)
        + u32_le(b) + zeros(12)));
}

/// The vertex array in its device layout.
pub fn vertex_bytes(vs: &Vec<Vertex>) -> (r: Vec<u8>)
    ensures
        r@ == vertices_layout(vs@),
{
    let mut out: Vec<u8> = Vec::new();
    let mut i: usize = 0;
    while i < vs.len()
        invariant
            i <= vs@.len(),
            out@ == vertices_layout(vs@.take(i as int)),
        decreases vs@.len() - i,
    {
        push_vertex(&mut out, &vs[i]);
        assert(vs@.take(i + 1).drop_last() =~= vs@.take(i as int));
        i = i + 1;
    }
    assert(vs@.take(i as int) =~= vs@);
    out
}

/// The triangle array in its device layout.
pub fn triangle_bytes(ts: &Vec<Triangle>) -> (r: Vec<u8>)
    ensures
        r@ == triangles_layout(ts@),
{
    let mut out: Vec<u8> = Vec::new();
    let mut i: usize = 0;
    while i < ts.len()
        invariant
            i <= ts@.len(),
            out@ == triangles_layout(ts@.take(i as int)),
        decreases ts@.len() - i,
    {
        push_triangle(&mut out, &ts[i]);
        assert(ts@.take(i + 1).drop_last() =~= ts@.take(i as int));
        i = i + 1;
    }
    assert(ts@.take(i as int) =~= ts@);
    out
}

/// The node array in its device layout.
pub fn node_bytes(ns: &Vec<BvhNode>) -> (r: Vec<u8>)
    ensures
        r@ == nodes_layout(ns@),
{
    let mut out: Vec<u8> = Vec::new();
    let mut i: usize = 0;
    while i < ns.len()
        invariant
            i <= ns@.len(),
            out@ == nodes_layout(ns@.take(i as int)),
        decreases ns@.len() - i,
    {
        push_node(&mut out, &ns[i]);
        assert(ns@.take(i + 1).drop_last() =~= ns@.take(i as int));
        i = i + 1;
    }
    assert(ns@.take(i as int) =~= ns@);
    out
}

} // verus!
