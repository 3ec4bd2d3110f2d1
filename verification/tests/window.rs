use frame_loop::viewport::Viewport;
use frame_loop::window::{ContextProfile, ContextRequest, SwapInterval, WindowSize};

#[test]
fn new_window_is_unscaled() {
    let size = WindowSize::new(960, 600);
    assert_eq!(
        size,
        WindowSize { width: 960, height: 600, highdpi_width: 960, highdpi_height: 600 }
    );
}

#[test]
fn resize_on_double_density_surface() {
    let mut size = WindowSize::new(960, 600);
    size.resize(1280, 720, 2560, 1440);
    assert_eq!(size.width, 1280);
    assert_eq!(size.height, 720);
    assert_eq!(size.highdpi_width, 2560);
    assert_eq!(size.highdpi_height, 1440);
    let viewport = Viewport::recompute(&size);
    assert_eq!(viewport, Viewport { x: 0, y: 0, w: 2560, h: 1440 });
}

#[test]
fn resize_takes_over_fractional_scale() {
    let mut size = WindowSize::new(960, 600);
    size.resize(1000, 700, 1500, 1050);
    assert_eq!(
        size,
        WindowSize { width: 1000, height: 700, highdpi_width: 1500, highdpi_height: 1050 }
    );
}

#[test]
fn resize_raises_short_report_to_logical_size() {
    let mut size = WindowSize::new(960, 600);
    size.resize(1280, 720, 100, 50);
    assert_eq!(
        size,
        WindowSize { width: 1280, height: 720, highdpi_width: 1280, highdpi_height: 720 }
    );
}

#[test]
fn resize_raises_one_dimension_only_where_needed() {
    let size = WindowSize::reported(800, 600, 1600, 10);
    assert_eq!(size.highdpi_width, 1600);
    assert_eq!(size.highdpi_height, 600);
}

#[test]
fn resize_caps_report_to_largest_extent() {
    let size = WindowSize::reported(10, 10, 4_000_000_000, 2_147_483_648);
    assert_eq!(size.highdpi_width, i32::MAX);
    assert_eq!(size.highdpi_height, i32::MAX);
    let size = WindowSize::reported(10, 10, 2_147_483_647, 0);
    assert_eq!(size.highdpi_width, i32::MAX);
    assert_eq!(size.highdpi_height, 10);
}

#[test]
fn physical_size_is_never_below_logical_size() {
    let reports: [(i32, i32, u32, u32); 6] = [
        (0, 0, 0, 0),
        (960, 600, 960, 600),
        (960, 600, 959, 601),
        (-5, -7, 0, 3),
        (i32::MAX, 1, 1, u32::MAX),
        (i32::MIN, i32::MIN, 0, 0),
    ];
    for (width, height, drawable_width, drawable_height) in reports {
        let size = WindowSize::reported(width, height, drawable_width, drawable_height);
        assert_eq!(size.width, width);
        assert_eq!(size.height, height);
        assert!(size.highdpi_width >= size.width);
        assert!(size.highdpi_height >= size.height);
    }
}

#[test]
fn refresh_keeps_logical_size() {
    let mut size = WindowSize::new(960, 600);
    size.refresh(1920, 1200);
    assert_eq!(
        size,
        WindowSize { width: 960, height: 600, highdpi_width: 1920, highdpi_height: 1200 }
    );
}

#[test]
fn window_extent_of_plain_size() {
    assert_eq!(WindowSize::new(960, 600).window_extent(), Some((960, 600)));
    assert_eq!(WindowSize::new(0, 0).window_extent(), Some((0, 0)));
}

#[test]
fn window_extent_of_negative_size_is_none() {
    assert_eq!(WindowSize::new(-1, 600).window_extent(), None);
    assert_eq!(WindowSize::new(960, -1).window_extent(), None);
}

#[test]
fn swap_interval_numbers() {
    assert_eq!(SwapInterval::Immediate.raw(), 0);
    assert_eq!(SwapInterval::VSync.raw(), 1);
    assert_eq!(SwapInterval::Adaptive.raw(), -1);
}

#[test]
fn swap_interval_from_number() {
    assert_eq!(SwapInterval::from_raw(0), Some(SwapInterval::Immediate));
    assert_eq!(SwapInterval::from_raw(1), Some(SwapInterval::VSync));
    assert_eq!(SwapInterval::from_raw(-1), Some(SwapInterval::Adaptive));
    assert_eq!(SwapInterval::from_raw(2), None);
    assert_eq!(SwapInterval::from_raw(-2), None);
}

#[test]
fn swap_interval_from_vsync_flag() {
    assert_eq!(SwapInterval::from_vsync(true), SwapInterval::VSync);
    assert_eq!(SwapInterval::from_vsync(false), SwapInterval::Immediate);
}

#[test]
fn core_profile_request() {
    assert_eq!(
        ContextRequest::core_profile(4, 1),
        ContextRequest {
            profile: ContextProfile::Core,
            major: 4,
            minor: 1,
            accelerated: true,
            double_buffer: true,
        }
    );
}
