use ultrasonic_sim::viewport::{pane_layout, sync_viewport, update_camera_viewports, viewport_needs_update, PixelRect};

fn rect(x: u32, y: u32, width: u32, height: u32) -> PixelRect {
    PixelRect { x, y, width, height }
}

#[test]
fn layout_splits_even_height() {
    let l = pane_layout(1280, 720).unwrap();
    assert_eq!(l.simulation, rect(0, 0, 1280, 360));
    assert_eq!(l.plot, rect(0, 360, 1280, 360));
}

#[test]
fn layout_gives_odd_pixel_to_plot() {
    let l = pane_layout(800, 601).unwrap();
    assert_eq!(l.simulation, rect(0, 0, 800, 300));
    assert_eq!(l.plot, rect(0, 300, 800, 301));
}

#[test]
fn layout_of_one_pixel_high_window() {
    let l = pane_layout(5, 1).unwrap();
    assert_eq!(l.simulation, rect(0, 0, 5, 0));
    assert_eq!(l.plot, rect(0, 0, 5, 1));
}

#[test]
fn layout_absent_for_empty_window() {
    assert!(pane_layout(0, 600).is_none());
    assert!(pane_layout(800, 0).is_none());
    assert!(pane_layout(0, 0).is_none());
}

#[test]
fn needs_update_rules() {
    let t = rect(0, 360, 1280, 360);
    assert!(viewport_needs_update(None, t));
    assert!(!viewport_needs_update(Some(t), t));
    assert!(viewport_needs_update(Some(rect(1, 360, 1280, 360)), t));
    assert!(viewport_needs_update(Some(rect(0, 0, 1280, 360)), t));
    assert!(viewport_needs_update(Some(rect(0, 360, 1000, 360)), t));
    assert!(viewport_needs_update(Some(rect(0, 360, 1280, 300)), t));
}

#[test]
fn sync_writes_only_on_change() {
    let t = rect(0, 0, 640, 240);
    let mut v = None;
    assert!(sync_viewport(&mut v, t));
    assert_eq!(v, Some(t));
    assert!(!sync_viewport(&mut v, t));
    assert_eq!(v, Some(t));
}

#[test]
fn update_is_idempotent() {
    let mut sim = Some(rect(3, 3, 3, 3));
    let mut plot = None;
    assert_eq!(update_camera_viewports(1024, 768, &mut sim, &mut plot), (true, true));
    assert_eq!(sim, Some(rect(0, 0, 1024, 384)));
    assert_eq!(plot, Some(rect(0, 384, 1024, 384)));
    assert_eq!(update_camera_viewports(1024, 768, &mut sim, &mut plot), (false, false));
    assert_eq!(sim, Some(rect(0, 0, 1024, 384)));
    assert_eq!(plot, Some(rect(0, 384, 1024, 384)));
}

#[test]
fn update_after_resize_rewrites_both() {
    let mut sim = None;
    let mut plot = None;
    update_camera_viewports(1024, 768, &mut sim, &mut plot);
    assert_eq!(update_camera_viewports(1024, 769, &mut sim, &mut plot), (false, true));
    assert_eq!(sim, Some(rect(0, 0, 1024, 384)));
    assert_eq!(plot, Some(rect(0, 384, 1024, 385)));
}

#[test]
fn update_leaves_viewports_for_minimised_window() {
    let mut sim = Some(rect(0, 0, 10, 5));
    let mut plot = None;
    assert_eq!(update_camera_viewports(0, 0, &mut sim, &mut plot), (false, false));
    assert_eq!(sim, Some(rect(0, 0, 10, 5)));
    assert_eq!(plot, None);
}

#[test]
fn panes_tile_window() {
    for h in 1u32..50 {
        let l = pane_layout(7, h).unwrap();
        assert_eq!(l.simulation.height + l.plot.height, h);
        assert_eq!(l.plot.y, l.simulation.height);
        assert!(l.plot.height - l.simulation.height <= 1);
    }
}
