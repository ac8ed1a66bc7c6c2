use iced_aksel::mesh::{ManualTessellator, MeshBuffer, MeshData};

type Pt = (i32, i32);

fn finish(mesh: MeshData<Pt>) -> (Vec<Pt>, Vec<u32>) {
    let m = mesh.into_mesh().expect("mesh was written to");
    (m.vertices, m.indices)
}

#[test]
fn untouched_mesh_yields_nothing() {
    let mesh: MeshData<Pt> = MeshData::new();
    assert_eq!(mesh.vertices_count(), 0);
    assert_eq!(mesh.indices_count(), 0);
    assert!(mesh.into_mesh().is_none());
}

#[test]
fn fill_rect_is_two_triangles() {
    let mut mesh = MeshData::new();
    mesh.draw_fill_rect([(0, 0), (4, 0), (4, 2), (0, 2)]);
    mesh.draw_fill_rect([(10, 10), (11, 10), (11, 11), (10, 11)]);
    let (v, i) = finish(mesh);
    assert_eq!(v.len(), 8);
    assert_eq!(v[4], (10, 10));
    assert_eq!(i, vec![0, 1, 2, 0, 2, 3, 4, 5, 6, 4, 6, 7]);
}

#[test]
fn stroke_rect_is_a_frame_of_eight_triangles() {
    let mut mesh = MeshData::new();
    mesh.draw_fill_triangle((0, 0), (1, 0), (0, 1));
    mesh.draw_stroke_rect([(0, 0), (9, 0), (9, 9), (0, 9)], [(1, 1), (8, 1), (8, 8), (1, 8)]);
    let (v, i) = finish(mesh);
    assert_eq!(v.len(), 11);
    assert_eq!(&v[3..7], &[(0, 0), (9, 0), (9, 9), (0, 9)]);
    assert_eq!(&v[7..11], &[(1, 1), (8, 1), (8, 8), (1, 8)]);
    let expected: Vec<u32> = [
        0u32, 1, 4, 1, 4, 5, 1, 2, 5, 2, 5, 6, 2, 3, 6, 3, 6, 7, 3, 0, 7, 0, 7, 4,
    ]
    .iter()
    .map(|k| k + 3)
    .collect();
    assert_eq!(&i[..3], &[0, 1, 2]);
    assert_eq!(&i[3..], &expected[..]);
}

#[test]
fn stroke_triangle_is_a_band_of_six_triangles() {
    let mut mesh = MeshData::new();
    mesh.draw_stroke_triangle([(0, 0), (6, 0), (0, 6)], [(1, 1), (4, 1), (1, 4)]);
    let (v, i) = finish(mesh);
    assert_eq!(v, vec![(0, 0), (6, 0), (0, 6), (1, 1), (4, 1), (1, 4)]);
    assert_eq!(i, vec![0, 1, 3, 1, 4, 3, 1, 2, 4, 2, 5, 4, 2, 0, 5, 0, 3, 5]);
}

#[test]
fn fan_over_polygon() {
    let mut mesh = MeshData::new();
    mesh.add_vertex((100, 100));
    mesh.draw_fan(&[(0, 0), (2, 0), (3, 2), (1, 3), (-1, 2)]);
    let (v, i) = finish(mesh);
    assert_eq!(v.len(), 6);
    assert_eq!(i, vec![1, 2, 3, 1, 3, 4, 1, 4, 5]);
}

#[test]
fn fan_needs_three_points() {
    let mut mesh: MeshData<Pt> = MeshData::new();
    mesh.draw_fan(&[(0, 0), (1, 1)]);
    assert_eq!(mesh.vertices_count(), 0);
    assert!(mesh.into_mesh().is_none());
}

#[test]
fn fill_circle_is_a_closed_wheel() {
    let mut mesh = MeshData::new();
    mesh.draw_fill_circle((0, 0), &[(1, 0), (0, 1), (-1, 0), (0, -1)]);
    let (v, i) = finish(mesh);
    assert_eq!(v, vec![(0, 0), (1, 0), (0, 1), (-1, 0), (0, -1)]);
    assert_eq!(i, vec![0, 1, 2, 0, 2, 3, 0, 3, 4, 0, 4, 1]);
}

#[test]
fn stroke_circle_wraps_its_strip() {
    let mut mesh = MeshData::new();
    mesh.draw_stroke_circle(&[(1, 0), (0, 1), (-1, 0)], &[(2, 0), (0, 2), (-2, 0)]);
    let (v, i) = finish(mesh);
    assert_eq!(v, vec![(1, 0), (2, 0), (0, 1), (0, 2), (-1, 0), (-2, 0)]);
    assert_eq!(
        i,
        vec![0, 1, 3, 0, 3, 2, 2, 3, 5, 2, 5, 4, 4, 5, 1, 4, 1, 0]
    );
}

#[test]
fn arc_strip_stays_open() {
    let mut mesh = MeshData::new();
    mesh.draw_arc_strip(&[(1, 0), (0, 1), (-1, 0)], &[(2, 0), (0, 2), (-2, 0)]);
    let (v, i) = finish(mesh);
    assert_eq!(v.len(), 6);
    assert_eq!(i, vec![0, 1, 3, 0, 3, 2, 2, 3, 5, 2, 5, 4]);
}

#[test]
fn arc_strip_of_nothing_adds_nothing_but_marks_the_mesh() {
    let mut mesh: MeshData<Pt> = MeshData::new();
    mesh.draw_arc_strip(&[], &[]);
    let (v, i) = finish(mesh);
    assert!(v.is_empty() && i.is_empty());
}

#[test]
fn ring_joins_outer_and_inner() {
    let mut mesh = MeshData::new();
    mesh.draw_ring(&[(0, 0), (4, 0), (2, 4)], &[(1, 1), (3, 1), (2, 3)]);
    let (v, i) = finish(mesh);
    assert_eq!(v, vec![(0, 0), (1, 1), (4, 0), (3, 1), (2, 4), (2, 3)]);
    assert_eq!(
        i,
        vec![0, 2, 1, 1, 2, 3, 2, 4, 3, 3, 4, 5, 4, 0, 5, 5, 0, 1]
    );
}

#[test]
fn ring_of_mismatched_outlines_is_skipped() {
    let mut mesh: MeshData<Pt> = MeshData::new();
    mesh.draw_ring(&[(0, 0), (4, 0), (2, 4)], &[(1, 1), (3, 1)]);
    assert_eq!(mesh.vertices_count(), 0);
    assert!(mesh.into_mesh().is_none());
}

#[test]
fn ring_strip_indices_open_and_closed() {
    let mut mesh: MeshData<Pt> = MeshData::new();
    mesh.push_ring_strip_indices(10, 2, false);
    assert_eq!(mesh.indices_count(), 12);
    mesh.push_ring_strip_indices(0, 2, true);
    mesh.add_vertex((0, 0));
    let (_, i) = finish(mesh);
    assert_eq!(&i[..12], &[10, 11, 13, 10, 13, 12, 12, 13, 15, 12, 15, 14]);
    assert_eq!(&i[12..], &[0, 1, 3, 0, 3, 2, 2, 3, 1, 2, 1, 0]);
}

#[test]
fn vertices_and_triangles_one_by_one() {
    let mut mesh = MeshData::new();
    let a = mesh.add_vertex((0, 0));
    let b = mesh.add_vertex((1, 0));
    let c = mesh.add_vertex((0, 1));
    assert_eq!((a, b, c), (0, 1, 2));
    mesh.add_triangle(a, c, b);
    let (v, i) = finish(mesh);
    assert_eq!(v.len(), 3);
    assert_eq!(i, vec![0, 2, 1]);
}

#[test]
fn raw_add_shifts_indices() {
    let mut mesh = MeshData::new();
    mesh.add(&[0, 1, 2], &[(0, 0), (1, 0), (0, 1)]);
    mesh.add(&[2, 1, 0], &[(5, 5), (6, 5), (5, 6)]);
    let (_, i) = finish(mesh);
    assert_eq!(i, vec![0, 1, 2, 5, 4, 3]);
}

#[test]
fn buffer_hands_over_and_empties() {
    let mut buffer: MeshBuffer<Pt> = MeshBuffer::new(1000);
    assert_eq!(buffer.limit(), 1000);
    assert!(buffer.take_for_render().is_none());
    buffer.mesh_mut().draw_fill_triangle((0, 0), (1, 0), (0, 1));
    assert_eq!(buffer.vertices_count(), 3);
    let m = buffer.take_for_render().expect("a triangle was written");
    assert_eq!(m.indices, vec![0, 1, 2]);
    assert_eq!(buffer.vertices_count(), 0);
    assert!(buffer.take_for_render().is_none());
    assert_eq!(buffer.limit(), 1000);
}

#[test]
fn buffer_drops_geometry_without_triangles() {
    let mut buffer: MeshBuffer<Pt> = MeshBuffer::new(10);
    buffer.add(&[], &[(1, 1)]);
    assert_eq!(buffer.vertices_count(), 1);
    assert!(buffer.take_for_render().is_none());
    assert_eq!(buffer.vertices_count(), 0);
}

#[test]
fn manual_tessellator_writes_like_the_mesh() {
    let t = ManualTessellator;
    let mut mesh = MeshData::new();
    t.draw_fill_rect(&mut mesh, [(0, 0), (1, 0), (1, 1), (0, 1)]);
    t.draw_fill_triangle(&mut mesh, [(0, 0), (1, 0), (0, 1)]);
    t.draw_fan(&mut mesh, &[(0, 0), (1, 0), (1, 1), (0, 1)]);
    t.draw_fill_circle(&mut mesh, (0, 0), &[(1, 0), (0, 1), (-1, 0)]);
    let (v, i) = finish(mesh);
    assert_eq!(v.len(), 4 + 3 + 4 + 4);
    assert_eq!(
        i,
        vec![
            0, 1, 2, 0, 2, 3, // rect
            4, 5, 6, // triangle
            7, 8, 9, 7, 9, 10, // fan
            11, 12, 13, 11, 13, 14, 11, 14, 12, // circle
        ]
    );
}
