use pathtracer::bvh::{Bvh, BvhNode, NodeLink, LEAF_SIZE};
use pathtracer::geometry::{key_of, Aabb, Float3, Triangle, Vertex};

fn v(x: f32, y: f32, z: f32) -> Vertex {
    Vertex {
        pos: Float3 { x: x.to_bits(), y: y.to_bits(), z: z.to_bits() },
        normal: Float3 { x: 0, y: 0, z: 1.0f32.to_bits() },
    }
}

fn grid_mesh(n: u32) -> (Vec<Vertex>, Vec<Triangle>) {
    let mut verts = Vec::new();
    let mut tris = Vec::new();
    for i in 0..n {
        let x = (i as f32) * 1.5 - 7.0;
        let y = ((i * 7) % 5) as f32 - 2.0;
        let base = verts.len() as u32;
        verts.push(v(x, y, 0.25 * i as f32));
        verts.push(v(x + 1.0, y, -1.0));
        verts.push(v(x, y + 1.0, 2.0));
        tris.push(Triangle { p0: base, p1: base + 1, p2: base + 2 });
    }
    (verts, tris)
}

fn contains(outer: &Aabb, inner: &Aabb) -> bool {
    outer.min_x <= inner.min_x
        && outer.min_y <= inner.min_y
        && outer.min_z <= inner.min_z
        && inner.max_x <= outer.max_x
        && inner.max_y <= outer.max_y
        && inner.max_z <= outer.max_z
}

fn tri_box(verts: &[Vertex], t: &Triangle) -> Aabb {
    let ps = [verts[t.p0 as usize].pos, verts[t.p1 as usize].pos, verts[t.p2 as usize].pos];
    let xs: Vec<i32> = ps.iter().map(|p| key_of(p.x)).collect();
    let ys: Vec<i32> = ps.iter().map(|p| key_of(p.y)).collect();
    let zs: Vec<i32> = ps.iter().map(|p| key_of(p.z)).collect();
    Aabb {
        min_x: *xs.iter().min().unwrap(),
        min_y: *ys.iter().min().unwrap(),
        min_z: *zs.iter().min().unwrap(),
        max_x: *xs.iter().max().unwrap(),
        max_y: *ys.iter().max().unwrap(),
        max_z: *zs.iter().max().unwrap(),
    }
}

fn walk(nodes: &[BvhNode], i: usize, out: &mut Vec<u32>) {
    match nodes[i].link {
        NodeLink::Leaf { first, count } => out.extend(first..first + count),
        NodeLink::Inner { left, right } => {
            walk(nodes, left as usize, out);
            walk(nodes, right as usize, out);
        }
    }
}

#[test]
fn every_node_contains_its_children_and_leaf_triangles() {
    let (verts, mut tris) = grid_mesh(40);
    let bvh = Bvh::new(&verts, &mut tris);
    let nodes = bvh.flatten();
    for n in &nodes {
        match n.link {
            NodeLink::Inner { left, right } => {
                assert!(contains(&n.bounds, &nodes[left as usize].bounds));
                assert!(contains(&n.bounds, &nodes[right as usize].bounds));
            }
            NodeLink::Leaf { first, count } => {
                for j in first..first + count {
                    assert!(contains(&n.bounds, &tri_box(&verts, &tris[j as usize])));
                }
            }
        }
    }
}

#[test]
fn leaves_respect_the_threshold() {
    let (verts, mut tris) = grid_mesh(57);
    let bvh = Bvh::new(&verts, &mut tris);
    for n in bvh.flatten() {
        if let NodeLink::Leaf { count, .. } = n.link {
            assert!(count as usize <= LEAF_SIZE);
            assert!(count >= 1);
        }
    }
}

#[test]
fn threshold_zero_gives_single_triangle_leaves() {
    let (verts, mut tris) = grid_mesh(9);
    let bvh = Bvh::with_leaf_size(&verts, &mut tris, 0);
    let nodes = bvh.flatten();
    assert_eq!(nodes.len(), 17);
    for n in nodes {
        if let NodeLink::Leaf { count, .. } = n.link {
            assert_eq!(count, 1);
        }
    }
}

#[test]
fn walk_visits_each_triangle_once_in_order() {
    let (verts, mut tris) = grid_mesh(33);
    let bvh = Bvh::new(&verts, &mut tris);
    let mut seen = Vec::new();
    walk(&bvh.flatten(), 0, &mut seen);
    assert_eq!(seen, (0..33).collect::<Vec<u32>>());
}

#[test]
fn build_only_reorders_triangles() {
    let (verts, tris) = grid_mesh(25);
    let mut reordered = tris.clone();
    let _bvh = Bvh::new(&verts, &mut reordered);
    let key = |t: &Triangle| (t.p0, t.p1, t.p2);
    let mut a: Vec<_> = tris.iter().map(key).collect();
    let mut b: Vec<_> = reordered.iter().map(key).collect();
    a.sort();
    b.sort();
    assert_eq!(a, b);
}

#[test]
fn empty_scene_is_one_empty_leaf() {
    let verts: Vec<Vertex> = Vec::new();
    let mut tris: Vec<Triangle> = Vec::new();
    let bvh = Bvh::new(&verts, &mut tris);
    let nodes = bvh.flatten();
    assert_eq!(nodes.len(), 1);
    assert_eq!(nodes[0].link, NodeLink::Leaf { first: 0, count: 0 });
    assert_eq!(nodes[0].bounds, Aabb::empty());
    assert!(nodes[0].bounds.min_x > nodes[0].bounds.max_x);
}

#[test]
fn single_triangle_is_a_tight_leaf() {
    let verts = vec![v(0.0, 0.0, 0.0), v(1.0, 0.0, 0.0), v(0.0, 1.0, 0.0)];
    let mut tris = vec![Triangle { p0: 0, p1: 1, p2: 2 }];
    let bvh = Bvh::with_leaf_size(&verts, &mut tris, 0);
    let nodes = bvh.flatten();
    assert_eq!(nodes.len(), 1);
    assert_eq!(nodes[0].link, NodeLink::Leaf { first: 0, count: 1 });
    let one = key_of(1.0f32.to_bits());
    assert_eq!(
        nodes[0].bounds,
        Aabb { min_x: 0, min_y: 0, min_z: 0, max_x: one, max_y: one, max_z: 0 }
    );
}

#[test]
fn split_separates_distant_clusters() {
    let mut verts = Vec::new();
    let mut tris = Vec::new();
    for i in 0..8u32 {
        let x = if i % 2 == 0 { -100.0 } else { 100.0 };
        let b = verts.len() as u32;
        verts.push(v(x, 0.0, 0.0));
        verts.push(v(x + 1.0, 0.0, 0.0));
        verts.push(v(x, 1.0, 0.0));
        tris.push(Triangle { p0: b, p1: b + 1, p2: b + 2 });
    }
    let bvh = Bvh::new(&verts, &mut tris);
    let nodes = bvh.flatten();
    assert_eq!(nodes.len(), 3);
    let left_x = f32::from_bits(verts[tris[0].p0 as usize].pos.x);
    for t in &tris[..4] {
        assert_eq!(f32::from_bits(verts[t.p0 as usize].pos.x), left_x);
    }
    assert_eq!(left_x, -100.0);
}

#[test]
fn order_key_follows_float_order() {
    let values = [-3.5f32, -1.0, -0.0, 0.0, 1e-30, 0.5, 2.0, 1e30];
    for w in values.windows(2) {
        assert!(key_of(w[0].to_bits()) <= key_of(w[1].to_bits()));
    }
    assert_eq!(key_of((-0.0f32).to_bits()), key_of(0.0f32.to_bits()));
    assert!(key_of((-1.0f32).to_bits()) < 0);
}

fn overlaps(a: &Aabb, b: &Aabb) -> bool {
    a.min_x <= b.max_x
        && b.min_x <= a.max_x
        && a.min_y <= b.max_y
        && b.min_y <= a.max_y
        && a.min_z <= b.max_z
        && b.min_z <= a.max_z
}

fn key_box(lo: (f32, f32, f32), hi: (f32, f32, f32)) -> Aabb {
    Aabb {
        min_x: key_of(lo.0.to_bits()),
        min_y: key_of(lo.1.to_bits()),
        min_z: key_of(lo.2.to_bits()),
        max_x: key_of(hi.0.to_bits()),
        max_y: key_of(hi.1.to_bits()),
        max_z: key_of(hi.2.to_bits()),
    }
}

#[test]
fn query_matches_testing_every_triangle() {
    let (verts, mut tris) = grid_mesh(64);
    let bvh = Bvh::new(&verts, &mut tris);
    let queries = [
        key_box((-8.0, -3.0, -2.0), (-6.0, 3.0, 3.0)),
        key_box((0.0, 0.0, 0.0), (0.0, 0.0, 0.0)),
        key_box((10.0, -1.0, 1.0), (30.0, 0.5, 1.5)),
        key_box((-100.0, -100.0, -100.0), (100.0, 100.0, 100.0)),
        key_box((500.0, 0.0, 0.0), (600.0, 1.0, 1.0)),
    ];
    for q in &queries {
        let mut found = bvh.query(&verts, &tris, q);
        found.sort();
        let expected: Vec<u32> = (0..tris.len() as u32)
            .filter(|&i| overlaps(q, &tri_box(&verts, &tris[i as usize])))
            .collect();
        assert_eq!(found, expected);
    }
    let all = bvh.query(&verts, &tris, &queries[3]);
    assert_eq!(all.len(), 64);
    assert!(bvh.query(&verts, &tris, &queries[4]).is_empty());
}

#[test]
fn query_on_empty_hierarchy_finds_nothing() {
    let verts: Vec<Vertex> = Vec::new();
    let mut tris: Vec<Triangle> = Vec::new();
    let bvh = Bvh::new(&verts, &mut tris);
    let q = key_box((-1.0, -1.0, -1.0), (1.0, 1.0, 1.0));
    assert!(bvh.query(&verts, &tris, &q).is_empty());
    assert_eq!(bvh.len(), 1);
}

fn union(a: &Aabb, b: &Aabb) -> Aabb {
    Aabb {
        min_x: a.min_x.min(b.min_x),
        min_y: a.min_y.min(b.min_y),
        min_z: a.min_z.min(b.min_z),
        max_x: a.max_x.max(b.max_x),
        max_y: a.max_y.max(b.max_y),
        max_z: a.max_z.max(b.max_z),
    }
}

#[test]
fn boxes_are_tight_and_ordered() {
    let (verts, mut tris) = grid_mesh(37);
    let bvh = Bvh::new(&verts, &mut tris);
    let nodes = bvh.flatten();
    for n in &nodes {
        let expected = match n.link {
            NodeLink::Inner { left, right } => {
                union(&nodes[left as usize].bounds, &nodes[right as usize].bounds)
            }
            NodeLink::Leaf { first, count } => (first..first + count)
                .fold(Aabb::empty(), |b, j| union(&b, &tri_box(&verts, &tris[j as usize]))),
        };
        assert_eq!(n.bounds, expected);
        let b = n.bounds;
        assert!(b.min_x <= b.max_x && b.min_y <= b.max_y && b.min_z <= b.max_z);
    }
}

fn node_walk(nodes: &[BvhNode], i: usize, out: &mut Vec<usize>) {
    out.push(i);
    if let NodeLink::Inner { left, right } = nodes[i].link {
        node_walk(nodes, left as usize, out);
        node_walk(nodes, right as usize, out);
    }
}

#[test]
fn nodes_form_a_tree_in_preorder() {
    let (verts, mut tris) = grid_mesh(50);
    let bvh = Bvh::new(&verts, &mut tris);
    let nodes = bvh.flatten();
    let mut seen = Vec::new();
    node_walk(&nodes, 0, &mut seen);
    assert_eq!(seen, (0..nodes.len()).collect::<Vec<usize>>());
    for (i, n) in nodes.iter().enumerate() {
        if let NodeLink::Inner { left, right } = n.link {
            assert_eq!(left as usize, i + 1);
            assert!(right > left);
        }
    }
}

#[test]
fn split_is_at_the_median_centroid() {
    let mut verts = Vec::new();
    let mut tris = Vec::new();
    for i in 0..8u32 {
        let x = if i == 7 { 1000.0 } else { (7 - i) as f32 };
        let b = verts.len() as u32;
        verts.push(v(x, 0.0, 0.0));
        verts.push(v(x + 0.5, 0.0, 0.0));
        verts.push(v(x, 0.5, 0.0));
        tris.push(Triangle { p0: b, p1: b + 1, p2: b + 2 });
    }
    let bvh = Bvh::new(&verts, &mut tris);
    let nodes = bvh.flatten();
    assert_eq!(nodes.len(), 3);
    assert_eq!(nodes[1].link, NodeLink::Leaf { first: 0, count: 4 });
    assert_eq!(nodes[2].link, NodeLink::Leaf { first: 4, count: 4 });
    for t in &tris[..4] {
        assert!(f32::from_bits(verts[t.p0 as usize].pos.x) <= 4.0);
    }
}
