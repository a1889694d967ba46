use vstd::prelude::*;

verus! {

/// Three single-precision floats, each held as its IEEE-754 bit pattern.
#[derive(Clone, Copy, Debug, PartialEq, Eq, Structural)]
pub struct Float3 {
    pub x: u32,
    pub y: u32,
    pub z: u32,
}

/// A mesh vertex: position and normal.
#[derive(Clone, Copy, Debug, PartialEq, Eq, Structural)]
pub struct Vertex {
    pub pos: Float3,
    pub normal: Float3,
}

/// A triangle: three indices into the vertex array.
#[derive(Clone, Copy, Debug, PartialEq, Eq, Structural)]
pub struct Triangle {
    pub p0: u32,
    pub p1: u32,
    pub p2: u32,
}

/// Order key of a float's bit pattern: for finite floats, `a < b` exactly when
/// `order_key(bits(a)) < order_key(bits(b))`; both zeros have key 0.
pub open spec fn order_key(bits: u32) -> int {
    if bits >= 0x8000_0000 {
        -(bits - 0x8000_0000)
    } else {
        bits as int
    }
}

pub fn key_of(bits: u32) -> (r: i32)
    ensures
        r == order_key(bits),
{
    if bits >= 0x8000_0000 {
        -((bits - 0x8000_0000) as i32)
    } else {
        bits as i32
    }
}

/// The bit pattern that `bits_of_key` gives for a key.
pub open spec fn key_bits(k: i32) -> u32 {
    if k >= 0 {
        k as u32
    } else if k == i32::MIN {
        0xffff_ffff
    } else {
        ((-k) + 0x8000_0000) as u32
    }
}

/// The bit pattern whose order key is `k` (positive zero for key 0).
pub fn bits_of_key(k: i32) -> (r: u32)
    ensures
        k > i32::MIN ==> order_key(r) == k,
        k >= 0 ==> r == k,
        r == key_bits(k),
{
    if k >= 0 {
        k as u32
    } else if k == i32::MIN {
        0xffff_ffff
    } else {
        ((-k) as u32) + 0x8000_0000
    }
}

pub open spec fn component(p: Float3, axis: int) -> u32 {
    if axis == 0 {
        p.x
    } else if axis == 1 {
        p.y
    } else {
        p.z
    }
}

pub fn get_component(p: &Float3, axis: usize) -> (r: u32)
    requires
        axis < 3,
    ensures
        r == component(*p, axis as int),
{
    if axis == 0 {
        p.x
    } else if axis == 1 {
        p.y
    } else {
        p.z
    }
}

pub open spec fn min_i32(a: i32, b: i32) -> i32 {
    if a <= b {
        a
    } else {
        b
    }
}

pub open spec fn max_i32(a: i32, b: i32) -> i32 {
    if a >= b {
        a
    } else {
        b
    }
}

/// Key of positive infinity; the empty box spans from it down to its negation.
pub const INFINITY_KEY: i32 = 0x7f80_0000;

/// Key of negative infinity.
pub const NEG_INFINITY_KEY: i32 = -0x7f80_0000;

/// Axis-aligned bounding box whose corners are held as order keys.
#[derive(Clone, Copy, Debug, PartialEq, Eq, Structural)]
pub struct Aabb {
    pub min_x: i32,
    pub min_y: i32,
    pub min_z: i32,
    pub max_x: i32,
    pub max_y: i32,
    pub max_z: i32,
}

impl Aabb {
    /// `self` encloses `o` on every axis.
    pub open spec fn contains(self, o: Aabb) -> bool {
        self.min_x <= o.min_x && self.min_y <= o.min_y && self.min_z <= o.min_z
            && o.max_x <= self.max_x && o.max_y <= self.max_y && o.max_z <= self.max_z
    }

    /// min <= max on every axis.
    pub open spec fn spec_ordered(self) -> bool {
        self.min_x <= self.max_x && self.min_y <= self.max_y && self.min_z <= self.max_z
    }

    /// `self` and `o` share at least one point (boundaries included).
    pub open spec fn spec_overlaps(self, o: Aabb) -> bool {
        self.min_x <= o.max_x && o.min_x <= self.max_x && self.min_y <= o.max_y && o.min_y
            <= self.max_y && self.min_z <= o.max_z && o.min_z <= self.max_z
    }

    pub fn overlaps(&self, o: &Aabb) -> (r: bool)
        ensures
            r == self.spec_overlaps(*o),
    {
        self.min_x <= o.max_x && o.min_x <= self.max_x && self.min_y <= o.max_y && o.min_y
            <= self.max_y && self.min_z <= o.max_z && o.min_z <= self.max_z
    }

    pub open spec fn spec_union(self, o: Aabb) -> Aabb {
        Aabb {
            min_x: min_i32(self.min_x, o.min_x),
            min_y: min_i32(self.min_y, o.min_y),
            min_z: min_i32(self.min_z, o.min_z),
            max_x: max_i32(self.max_x, o.max_x),
            max_y: max_i32(self.max_y, o.max_y),
            max_z: max_i32(self.max_z, o.max_z),
        }
    }

    /// The box from positive infinity to negative infinity: it holds no point.
    pub open spec fn spec_empty() -> Aabb {
        Aabb {
            min_x: INFINITY_KEY,
            min_y: INFINITY_KEY,
            min_z: INFINITY_KEY,
            max_x: NEG_INFINITY_KEY,
            max_y: NEG_INFINITY_KEY,
            max_z: NEG_INFINITY_KEY,
        }
    }

    pub fn empty() -> (r: Aabb)
        ensures
            r == Aabb::spec_empty(),
    {
        Aabb {
            min_x: INFINITY_KEY,
            min_y: INFINITY_KEY,
            min_z: INFINITY_KEY,
            max_x: NEG_INFINITY_KEY,
            max_y: NEG_INFINITY_KEY,
            max_z: NEG_INFINITY_KEY,
        }
    }

    pub fn union(&self, o: &Aabb) -> (r: Aabb)
        ensures
            r == self.spec_union(*o),
            r.contains(*self),
            r.contains(*o),
    {
        Aabb {
            min_x: if self.min_x <= o.min_x { self.min_x } else { o.min_x },
            min_y: if self.min_y <= o.min_y { self.min_y } else { o.min_y },
            min_z: if self.min_z <= o.min_z { self.min_z } else { o.min_z },
            max_x: if self.max_x >= o.max_x { self.max_x } else { o.max_x },
            max_y: if self.max_y >= o.max_y { self.max_y } else { o.max_y },
            max_z: if self.max_z >= o.max_z { self.max_z } else { o.max_z },
        }
    }
}

/// The box of a single point.
pub open spec fn point_box(p: Float3) -> Aabb {
    Aabb {
        min_x: order_key(p.x) as i32,
        min_y: order_key(p.y) as i32,
        min_z: order_key(p.z) as i32,
        max_x: order_key(p.x) as i32,
        max_y: order_key(p.y) as i32,
        max_z: order_key(p.z) as i32,
    }
}

pub fn point_bounds(p: &Float3) -> (r: Aabb)
    ensures
        r == point_box(*p),
{
    let x = key_of(p.x);
    let y = key_of(p.y);
    let z = key_of(p.z);
    Aabb { min_x: x, min_y: y, min_z: z, max_x: x, max_y: y, max_z: z }
}

/// Every index of `t` names a vertex of an array of `n` vertices.
pub open spec fn triangle_in_range(t: Triangle, n: int) -> bool {
    t.p0 < n && t.p1 < n && t.p2 < n
}

/// The tight box of a triangle's three corners.
pub open spec fn triangle_box(v: Seq<Vertex>, t: Triangle) -> Aabb {
    point_box(v[t.p0 as int].pos).spec_union(point_box(v[t.p1 as int].pos)).spec_union(
        point_box(v[t.p2 as int].pos),
    )
}

pub fn triangle_bounds(v: &Vec<Vertex>, t: &Triangle) -> (r: Aabb)
    requires
        triangle_in_range(*t, v@.len() as int),
    ensures
        r == triangle_box(v@, *t),
{
    let a = point_bounds(&v[t.p0 as usize].pos);
    let b = point_bounds(&v[t.p1 as usize].pos);
    let c = point_bounds(&v[t.p2 as usize].pos);
    a.union(&b).union(&c)
}

/// Sum of the order keys of a triangle's corners on one axis: three times its
/// centroid, in key space.
pub open spec fn centroid_sum(v: Seq<Vertex>, t: Triangle, axis: int) -> int {
    order_key(component(v[t.p0 as int].pos, axis)) + order_key(component(v[t.p1 as int].pos, axis))
        + order_key(component(v[t.p2 as int].pos, axis))
}

pub fn triangle_centroid_sum(v: &Vec<Vertex>, t: &Triangle, axis: usize) -> (r: i64)
    requires
        triangle_in_range(*t, v@.len() as int),
        axis < 3,
    ensures
        r == centroid_sum(v@, *t, axis as int),
{
    let a = key_of(get_component(&v[t.p0 as usize].pos, axis)) as i64;
    let b = key_of(get_component(&v[t.p1 as usize].pos, axis)) as i64;
    let c = key_of(get_component(&v[t.p2 as usize].pos, axis)) as i64;
    a + b + c
}

} // verus!
