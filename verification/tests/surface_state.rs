use nbody_sim::state::{
    exit_requested, first_srgb_index, frame_step, pick_surface_format, FrameStep, KeyKind,
    RenderError, SurfaceOutcome, SurfaceState,
};

#[test]
fn first_srgb_index_picks_first_srgb() {
    assert_eq!(first_srgb_index(&vec![false, true, true]), 1);
    assert_eq!(first_srgb_index(&vec![true, false]), 0);
}

#[test]
fn first_srgb_index_falls_back_to_first() {
    assert_eq!(first_srgb_index(&vec![false, false, false]), 0);
    assert_eq!(first_srgb_index(&vec![false]), 0);
}

#[test]
fn pick_surface_format_prefers_srgb() {
    let formats = vec![
        wgpu::TextureFormat::Bgra8Unorm,
        wgpu::TextureFormat::Rgba16Float,
        wgpu::TextureFormat::Bgra8UnormSrgb,
        wgpu::TextureFormat::Rgba8UnormSrgb,
    ];
    assert_eq!(pick_surface_format(&formats), wgpu::TextureFormat::Bgra8UnormSrgb);
}

#[test]
fn pick_surface_format_without_srgb_takes_first() {
    let formats = vec![wgpu::TextureFormat::Rgba16Float, wgpu::TextureFormat::Bgra8Unorm];
    assert_eq!(pick_surface_format(&formats), wgpu::TextureFormat::Rgba16Float);
}

#[test]
fn new_surface_is_configured_at_window_size() {
    let s = SurfaceState::new(640, 480);
    assert_eq!((s.width(), s.height(), s.is_configured()), (640, 480, true));
}

#[test]
fn resize_takes_nonzero_sizes() {
    let mut s = SurfaceState::new(640, 480);
    assert!(s.resize(1920, 1080));
    assert_eq!((s.width(), s.height(), s.is_configured()), (1920, 1080, true));
}

#[test]
fn resize_ignores_zero_sides() {
    let mut s = SurfaceState::new(640, 480);
    assert!(!s.resize(0, 1080));
    assert!(!s.resize(1920, 0));
    assert!(!s.resize(0, 0));
    assert_eq!((s.width(), s.height(), s.is_configured()), (640, 480, true));
}

#[test]
fn frame_step_answers_every_outcome() {
    assert!(matches!(frame_step(SurfaceOutcome::Success), Ok(FrameStep::Draw)));
    assert!(matches!(frame_step(SurfaceOutcome::Suboptimal), Ok(FrameStep::Reconfigure)));
    assert!(matches!(frame_step(SurfaceOutcome::Outdated), Ok(FrameStep::Reconfigure)));
    assert!(matches!(frame_step(SurfaceOutcome::Timeout), Ok(FrameStep::Skip)));
    assert!(matches!(frame_step(SurfaceOutcome::Occluded), Ok(FrameStep::Skip)));
    assert!(matches!(frame_step(SurfaceOutcome::Validation), Ok(FrameStep::Skip)));
    assert!(matches!(frame_step(SurfaceOutcome::Lost), Err(RenderError::DeviceLost)));
}

#[test]
fn device_lost_message() {
    assert_eq!(RenderError::DeviceLost.message(), "Device Lost");
}

#[test]
fn escape_press_exits() {
    assert!(exit_requested(KeyKind::Escape, true));
    assert!(!exit_requested(KeyKind::Escape, false));
    assert!(!exit_requested(KeyKind::Other, true));
    assert!(!exit_requested(KeyKind::Other, false));
}
