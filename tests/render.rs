use pathtracer::arena::{Arena, Handle};
use pathtracer::scene::Scene;
use pathtracer::mesh::{append_mesh, MeshError};
use pathtracer::render::{
    dispatch_grid, readback_layout, sample_constant, strip_row_padding, tile_aligned, Readback, RenderPlan,
};
use pathtracer::geometry::{Triangle, Vertex};

#[test]
fn dimensions_round_up_to_tiles() {
    assert_eq!(tile_aligned(0), 0);
    assert_eq!(tile_aligned(1), 16);
    assert_eq!(tile_aligned(16), 16);
    assert_eq!(tile_aligned(17), 32);
    assert_eq!(tile_aligned(1080), 1088);
    assert_eq!(tile_aligned(0xffff_fff0), 0xffff_fff0);
}

#[test]
fn plan_dispatches_each_sample_once_in_order() {
    let mut plan = RenderPlan::new(100, 50, 3);
    assert_eq!((plan.width(), plan.height(), plan.samples()), (112, 64, 3));
    assert_eq!(plan.workgroups(), (7, 4));
    assert!(!plan.is_complete());
    assert_eq!(plan.next_sample(), Some(0));
    assert_eq!(plan.next_sample(), Some(1));
    assert_eq!(plan.next_sample(), Some(2));
    assert!(plan.is_complete());
    assert_eq!(plan.next_sample(), None);
    assert_eq!(plan.next_sample(), None);
}

#[test]
fn plan_with_no_samples_is_complete() {
    let mut plan = RenderPlan::new(16, 16, 0);
    assert!(plan.is_complete());
    assert_eq!(plan.next_sample(), None);
}

#[test]
fn sample_index_is_four_little_endian_bytes() {
    assert_eq!(sample_constant(0), [0, 0, 0, 0]);
    assert_eq!(sample_constant(0x0a0b_0c0d), [0x0d, 0x0c, 0x0b, 0x0a]);
}

#[test]
fn post_processing_needs_whole_tiles() {
    assert_eq!(dispatch_grid(64, 32), Some((4, 2)));
    assert_eq!(dispatch_grid(65, 32), None);
    assert_eq!(dispatch_grid(64, 1), None);
}

#[test]
fn readback_sizes() {
    assert_eq!(
        readback_layout(800, 600),
        Some(Readback { bytes_per_row: 3328, row_bytes: 3200, size: 1_996_800 })
    );
    assert_eq!(
        readback_layout(64, 2),
        Some(Readback { bytes_per_row: 256, row_bytes: 256, size: 512 })
    );
    assert_eq!(readback_layout(0x4000_0000, 2), None);
    assert_eq!(readback_layout(0x3fff_ffc1, 1), None);
    assert_eq!(
        readback_layout(0x3fff_ffc0, 0xffff_ffff),
        Some(Readback {
            bytes_per_row: 0xffff_ff00,
            row_bytes: 0xffff_ff00,
            size: 0xffff_ff00 * 0xffff_ffff
        })
    );
}

#[test]
fn row_padding_is_stripped() {
    let pitch = 256usize;
    let mut data = vec![0u8; pitch * 2];
    for x in 0..12 {
        data[x] = x as u8 + 1;
        data[pitch + x] = x as u8 + 101;
    }
    data[12] = 77;
    let pixels = strip_row_padding(&data, 3, 2).unwrap();
    let mut expected: Vec<u8> = (1..=12).collect();
    expected.extend(101..=112);
    assert_eq!(pixels, expected);
    assert_eq!(strip_row_padding(&data[..pitch + 11].to_vec(), 3, 2), None);
    assert_eq!(strip_row_padding(&data, 0x4000_0000, 1), None);
}

fn bits(xs: &[f32]) -> Vec<u32> {
    xs.iter().map(|x| x.to_bits()).collect()
}

#[test]
fn meshes_append_with_shifted_indices() {
    let mut verts: Vec<Vertex> = Vec::new();
    let mut tris: Vec<Triangle> = Vec::new();
    let pos = bits(&[0.0, 0.0, 0.0, 1.0, 0.0, 0.0, 0.0, 1.0, 0.0]);
    let nor = bits(&[0.0, 0.0, 1.0, 0.0, 0.0, 1.0, 0.0, 0.0, 1.0]);
    assert_eq!(append_mesh(&mut verts, &mut tris, &pos, &nor, &vec![0, 1, 2]), Ok(()));
    assert_eq!(append_mesh(&mut verts, &mut tris, &pos, &nor, &vec![2, 1, 0, 7]), Ok(()));
    assert_eq!(verts.len(), 6);
    assert_eq!(tris, vec![Triangle { p0: 0, p1: 1, p2: 2 }, Triangle { p0: 5, p1: 4, p2: 3 }]);
    assert_eq!(f32::from_bits(verts[4].pos.x), 1.0);
    assert_eq!(f32::from_bits(verts[5].normal.z), 1.0);
}

#[test]
fn mesh_errors_leave_arrays_alone() {
    let mut verts: Vec<Vertex> = Vec::new();
    let mut tris: Vec<Triangle> = Vec::new();
    let pos = bits(&[0.0, 0.0, 0.0, 1.0, 0.0, 0.0, 0.0, 1.0, 0.0]);
    let nor = bits(&[0.0, 0.0, 1.0]);
    assert_eq!(
        append_mesh(&mut verts, &mut tris, &pos, &nor, &vec![0, 1, 2]),
        Err(MeshError::MissingNormals)
    );
    let nor = bits(&[0.0; 9]);
    assert_eq!(
        append_mesh(&mut verts, &mut tris, &pos, &nor, &vec![0, 1, 2, 0, 3, 1]),
        Err(MeshError::IndexOutOfRange { triangle: 1 })
    );
    assert!(verts.is_empty() && tris.is_empty());
}

#[test]
fn arena_handles_stay_valid() {
    let mut arena: Arena<String> = Arena::new();
    let a = arena.insert(String::from("sky"));
    let b = arena.insert(String::from("wood"));
    assert_eq!(a, Handle { index: 0 });
    assert_eq!(b, Handle { index: 1 });
    assert_eq!(arena.get(a).map(|s| s.as_str()), Some("sky"));
    assert_eq!(arena.get(b).map(|s| s.as_str()), Some("wood"));
    assert!(arena.get(Handle { index: 2 }).is_none());
    assert_eq!(arena.len(), 2);
}

#[test]
fn default_scene_matches_new() {
    let a = Scene::default();
    let b = Scene::new();
    assert_eq!(a.camera(), b.camera());
    assert_eq!(a.env_map(), b.env_map());
}
