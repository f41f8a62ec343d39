use astronomore::surface::{drawn_vertex_count, frame_start, pick_surface_format, usable_size, FrameStart, SurfaceStatus};

#[test]
fn surface_status_decides_the_frame() {
    assert_eq!(frame_start(SurfaceStatus::Success), FrameStart::Draw { reconfigure: false });
    assert_eq!(frame_start(SurfaceStatus::Suboptimal), FrameStart::Draw { reconfigure: true });
    for s in [SurfaceStatus::Timeout, SurfaceStatus::Occluded, SurfaceStatus::Validation] {
        assert_eq!(frame_start(s), FrameStart::Skip { reconfigure: false });
    }
    assert_eq!(frame_start(SurfaceStatus::Outdated), FrameStart::Skip { reconfigure: true });
    assert_eq!(frame_start(SurfaceStatus::Lost), FrameStart::DeviceLost);
}

#[test]
fn first_srgb_format_is_picked() {
    assert_eq!(pick_surface_format(&vec![false, true, true]), 1);
    assert_eq!(pick_surface_format(&vec![true]), 0);
    assert_eq!(pick_surface_format(&vec![false, false]), 0);
}

#[test]
fn zero_sizes_are_ignored() {
    assert!(usable_size(800, 600));
    assert!(!usable_size(0, 600));
    assert!(!usable_size(800, 0));
}

#[test]
fn arrow_vertices_are_capped() {
    assert_eq!(drawn_vertex_count(10, 64), 10);
    assert_eq!(drawn_vertex_count(64, 64), 64);
    assert_eq!(drawn_vertex_count(100, 64), 64);
}
