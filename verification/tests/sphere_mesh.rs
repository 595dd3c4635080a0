use nbody_sim::engine::model::{packed_attributes, SphereMesh};

#[test]
fn single_cell_sphere() {
    let mesh = SphereMesh::uv_sphere(1, 1);
    assert_eq!(mesh.points, vec![(0, 0), (0, 1), (1, 0), (1, 1)]);
    // the cell's triangles, once per ring (two rings)
    assert_eq!(mesh.indices, vec![0, 2, 1, 1, 2, 3, 0, 2, 1, 1, 2, 3]);
}

#[test]
fn two_by_three_sphere_counts_and_ranges() {
    let mesh = SphereMesh::uv_sphere(2, 3);
    assert_eq!(mesh.points.len(), 12);
    assert_eq!(mesh.indices.len(), 6 * 2 * 3 * 3);
    assert!(mesh.indices.iter().all(|&i| (i as usize) < mesh.points.len()));
    // first cell of the second band: top-left is ring 1, slice 0 = index 4
    assert_eq!(&mesh.indices[18..24], &[4, 8, 5, 5, 8, 9]);
    // every ring repeats the same list
    assert_eq!(&mesh.indices[0..36], &mesh.indices[36..72]);
    assert_eq!(&mesh.indices[0..36], &mesh.indices[72..108]);
    for (k, p) in mesh.points.iter().enumerate() {
        assert_eq!(*p, ((k / 4) as u32, (k % 4) as u32));
    }
}

#[test]
fn sphere_without_bands_has_points_only() {
    let mesh = SphereMesh::uv_sphere(0, 5);
    assert_eq!(mesh.points, vec![(0, 0), (0, 1), (0, 2), (0, 3), (0, 4), (0, 5)]);
    assert!(mesh.indices.is_empty());
}

#[test]
fn sphere_without_slices_has_no_triangles() {
    let mesh = SphereMesh::uv_sphere(3, 0);
    assert_eq!(mesh.points, vec![(0, 0), (1, 0), (2, 0), (3, 0)]);
    assert!(mesh.indices.is_empty());
}

#[test]
fn packed_attributes_of_instance_layout() {
    let slots = packed_attributes(1, &vec![12, 12, 4]);
    let got: Vec<(u32, u64)> = slots.iter().map(|s| (s.location, s.offset)).collect();
    assert_eq!(got, vec![(1, 0), (2, 12), (3, 24)]);
}

#[test]
fn packed_attributes_of_triangle_layout() {
    let slots = packed_attributes(0, &vec![12, 12]);
    let got: Vec<(u32, u64)> = slots.iter().map(|s| (s.location, s.offset)).collect();
    assert_eq!(got, vec![(0, 0), (1, 12)]);
    assert!(packed_attributes(5, &vec![]).is_empty());
}
