use astronomore::grid::{grid_vertices, GridPlane, GridVertex, LineColor};
use astronomore::mesh::sphere_indices;

#[test]
fn sphere_indices_of_small_sphere() {
    // Two meridians, one parallel: two cells between the two rings of three vertices.
    let idx = sphere_indices(2, 1);
    assert_eq!(idx, vec![0, 1, 3, 1, 4, 3, 1, 2, 4, 2, 5, 4]);
}

#[test]
fn sphere_indices_stay_in_range() {
    let (m, p) = (128u32, 64u32);
    let idx = sphere_indices(m, p);
    assert_eq!(idx.len(), (6 * m * p) as usize);
    let count = (m + 1) * (p + 1);
    assert!(idx.iter().all(|&i| i < count));
    assert_eq!(*idx.iter().max().unwrap(), count - 1);
}

#[test]
fn empty_sphere() {
    assert!(sphere_indices(0, 5).is_empty());
    assert!(sphere_indices(5, 0).is_empty());
}

fn v(x: i32, y: i32, z: i32, color: LineColor) -> GridVertex {
    GridVertex { x, y, z, color }
}

#[test]
fn xz_grid_of_half_size_one() {
    let verts = grid_vertices(GridPlane::XZ, 1);
    assert_eq!(
        verts,
        vec![
            v(-1, 0, -1, LineColor::Gray),
            v(-1, 0, 1, LineColor::Gray),
            v(-1, 0, -1, LineColor::Gray),
            v(1, 0, -1, LineColor::Gray),
            v(0, 0, -1, LineColor::Gray),
            v(0, 0, 0, LineColor::Gray),
            v(0, 0, 0, LineColor::Blue),
            v(0, 0, 1, LineColor::Blue),
            v(-1, 0, 0, LineColor::Gray),
            v(0, 0, 0, LineColor::Gray),
            v(0, 0, 0, LineColor::Red),
            v(1, 0, 0, LineColor::Red),
            v(1, 0, -1, LineColor::Gray),
            v(1, 0, 1, LineColor::Gray),
            v(-1, 0, 1, LineColor::Gray),
            v(1, 0, 1, LineColor::Gray),
        ]
    );
}

#[test]
fn grid_sizes_and_planes() {
    for (plane, flat) in [(GridPlane::XZ, 1usize), (GridPlane::XY, 2), (GridPlane::YZ, 0)] {
        let verts = grid_vertices(plane, 10);
        assert_eq!(verts.len(), 88);
        for g in &verts {
            let c = [g.x, g.y, g.z];
            assert_eq!(c[flat], 0);
            assert!(c.iter().all(|&k| (-10..=10).contains(&k)));
        }
    }
    assert!(grid_vertices(GridPlane::XY, -3).is_empty());
    assert_eq!(grid_vertices(GridPlane::YZ, 0).len(), 8);
}

#[test]
fn axis_colors_per_plane() {
    let xy = grid_vertices(GridPlane::XY, 2);
    assert!(xy.contains(&v(0, 2, 0, LineColor::Green)));
    assert!(xy.contains(&v(2, 0, 0, LineColor::Red)));
    let yz = grid_vertices(GridPlane::YZ, 2);
    assert!(yz.contains(&v(0, 0, 2, LineColor::Blue)));
    assert!(yz.contains(&v(0, 2, 0, LineColor::Green)));
}
