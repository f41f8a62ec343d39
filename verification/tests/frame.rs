use astronomore::frame::{frame_steps, tessellation_changed, DrawStep};
use astronomore::grid::GridPlane;
use astronomore::view::ViewOptions;

#[test]
fn default_frame_draws_bodies_then_ground_grid() {
    let v = ViewOptions::new();
    assert_eq!(
        frame_steps(&v),
        vec![
            DrawStep::BodyPipeline { wireframe: false },
            DrawStep::Meshes,
            DrawStep::Bodies,
            DrawStep::LinePipeline,
            DrawStep::Grid(GridPlane::XZ),
        ]
    );
}

#[test]
fn every_overlay_on() {
    let mut v = ViewOptions::new();
    v.toggle_wireframe();
    v.toggle_normals();
    v.toggle_arrows();
    v.show_grid_xy = true;
    v.show_grid_yz = true;
    assert_eq!(
        frame_steps(&v),
        vec![
            DrawStep::BodyPipeline { wireframe: true },
            DrawStep::Meshes,
            DrawStep::Bodies,
            DrawStep::Normals,
            DrawStep::Arrows,
            DrawStep::LinePipeline,
            DrawStep::Grid(GridPlane::XZ),
            DrawStep::Grid(GridPlane::XY),
            DrawStep::Grid(GridPlane::YZ),
        ]
    );
}

#[test]
fn hidden_grids_are_not_drawn_but_line_pipeline_is_bound() {
    let mut v = ViewOptions::new();
    v.toggle_all_grids();
    let steps = frame_steps(&v);
    assert_eq!(steps.len(), 4);
    assert_eq!(steps[3], DrawStep::LinePipeline);
    assert!(!steps.iter().any(|s| matches!(s, DrawStep::Grid(_))));
}

#[test]
fn tessellation_change_is_detected() {
    let mut v = ViewOptions::new();
    assert!(!tessellation_changed(128, 64, &v));
    v.sphere_meridians = 32;
    assert!(tessellation_changed(128, 64, &v));
    v.sphere_meridians = 128;
    v.sphere_parallels = 16;
    assert!(tessellation_changed(128, 64, &v));
}
