use frame_loop::viewport::Viewport;
use frame_loop::window::WindowSize;

#[test]
fn viewport_for_window_starts_at_origin() {
    assert_eq!(Viewport::for_window(960, 600), Viewport { x: 0, y: 0, w: 960, h: 600 });
}

#[test]
fn update_size_keeps_origin() {
    let mut viewport = Viewport { x: 3, y: 4, w: 10, h: 20 };
    viewport.update_size(1920, 1200);
    assert_eq!(viewport, Viewport { x: 3, y: 4, w: 1920, h: 1200 });
}

#[test]
fn recompute_covers_physical_framebuffer() {
    let size = WindowSize { width: 960, height: 600, highdpi_width: 1920, highdpi_height: 1200 };
    assert_eq!(Viewport::recompute(&size), Viewport { x: 0, y: 0, w: 1920, h: 1200 });
}

#[test]
fn recompute_twice_gives_the_same_viewport() {
    let size = WindowSize { width: 1280, height: 720, highdpi_width: 2560, highdpi_height: 1440 };
    let first = Viewport::recompute(&size);
    let second = Viewport::recompute(&size);
    assert_eq!(first, second);
}

#[test]
fn recompute_ignores_logical_size() {
    let a = WindowSize { width: 1280, height: 720, highdpi_width: 2560, highdpi_height: 1440 };
    let b = WindowSize { width: 2560, height: 1440, highdpi_width: 2560, highdpi_height: 1440 };
    assert_eq!(Viewport::recompute(&a), Viewport::recompute(&b));
}

#[test]
fn viewport_covers_its_own_window_only() {
    let size = WindowSize { width: 960, height: 600, highdpi_width: 1920, highdpi_height: 1200 };
    assert!(Viewport::recompute(&size).covers(&size));
    assert!(!Viewport::for_window(960, 600).covers(&size));
    assert!(!Viewport { x: 1, y: 0, w: 1920, h: 1200 }.covers(&size));
}
