use life::camera::{CameraEvent, CameraState};
use life::geom::Vec2;
use life::num::FIXED_ONE;

#[test]
fn scroll_never_drops_scale_below_one() {
    let mut cam = CameraState::new(800, 600);
    assert_eq!(cam.scale, FIXED_ONE);
    // a hostile scroll sequence: deep zoom-outs interleaved with zoom-ins
    let events = vec![
        CameraEvent::Scrolled { delta: -1_000_000 },
        CameraEvent::Scrolled { delta: 250 },
        CameraEvent::Scrolled { delta: -50 },
        CameraEvent::Scrolled { delta: i64::MIN + 1 },
        CameraEvent::Scrolled { delta: 100_000 },
        CameraEvent::Scrolled { delta: -999 },
    ];
    for e in events {
        cam.apply_event(e);
        assert!(cam.scale >= FIXED_ONE);
    }
}

#[test]
fn scroll_adjusts_scale_by_a_hundredth() {
    let mut cam = CameraState::new(800, 600);
    cam.apply_event(CameraEvent::Scrolled { delta: 250 });
    // 1000 + 250/100 = 1002
    assert_eq!(cam.scale, 1_002);
    cam.apply_event(CameraEvent::Scrolled { delta: -150 });
    assert_eq!(cam.scale, 1_001);
    cam.apply_event(CameraEvent::Scrolled { delta: -1_000_000 });
    assert_eq!(cam.scale, FIXED_ONE);
}

#[test]
fn scroll_saturates_instead_of_overflowing() {
    let mut cam = CameraState::new(800, 600);
    // each max-delta scroll adds i64::MAX / 100; about a hundred of
    // them pass the representable range and must saturate instead
    for _ in 0..101 {
        cam.apply_event(CameraEvent::Scrolled { delta: i64::MAX });
        assert!(cam.scale >= FIXED_ONE);
    }
    assert_eq!(cam.scale, i64::MAX);
}

#[test]
fn drag_accumulates_opposite_cursor_motion() {
    let mut cam = CameraState::new(800, 600);
    // press with the cursor at the origin (non-negative): drag arms
    cam.apply_event(CameraEvent::ButtonPressed);
    assert!(cam.drag_active);
    cam.apply_event(CameraEvent::PointerMoved { x: 5_000, y: 3_000 });
    assert_eq!(cam.pending_delta, Vec2 { x: -5_000, y: -3_000 });
    assert_eq!(cam.last_cursor, Vec2 { x: 5_000, y: 3_000 });
    cam.apply_event(CameraEvent::PointerMoved { x: 4_000, y: 3_500 });
    assert_eq!(cam.pending_delta, Vec2 { x: -4_000, y: -3_500 });
    cam.apply_event(CameraEvent::ButtonReleased);
    assert!(!cam.drag_active);
    // settled once per frame, then cleared
    cam.settle();
    assert_eq!(cam.translation, Vec2 { x: -4_000, y: -3_500 });
    assert_eq!(cam.pending_delta, Vec2 { x: 0, y: 0 });
}

#[test]
fn pointer_motion_without_drag_only_tracks_cursor() {
    let mut cam = CameraState::new(800, 600);
    cam.apply_event(CameraEvent::PointerMoved { x: 9_000, y: 1_000 });
    assert_eq!(cam.pending_delta, Vec2 { x: 0, y: 0 });
    assert_eq!(cam.last_cursor, Vec2 { x: 9_000, y: 1_000 });
}

#[test]
fn press_outside_viewport_does_not_arm_drag() {
    let mut cam = CameraState::new(800, 600);
    cam.apply_event(CameraEvent::PointerMoved { x: -1_000, y: 2_000 });
    cam.apply_event(CameraEvent::ButtonPressed);
    assert!(!cam.drag_active);
    cam.apply_event(CameraEvent::PointerMoved { x: 1_000, y: 2_000 });
    cam.apply_event(CameraEvent::ButtonPressed);
    assert!(cam.drag_active);
}

#[test]
fn resize_updates_projection_and_cancels_drag() {
    let mut cam = CameraState::new(800, 600);
    assert_eq!(cam.viewport_width, 800_000);
    assert_eq!(cam.viewport_height, 600_000);
    cam.apply_event(CameraEvent::ButtonPressed);
    assert!(cam.drag_active);
    cam.apply_event(CameraEvent::Resized { width: 1_024_000, height: 768_000 });
    assert_eq!(cam.viewport_width, 1_024_000);
    assert_eq!(cam.viewport_height, 768_000);
    assert!(!cam.drag_active);
}

#[test]
fn world_to_screen_scales_then_translates() {
    let mut cam = CameraState::new(800, 600);
    let p = Vec2 { x: 10_000, y: -2_000 };
    // identity camera
    let s = cam.world_to_screen(p);
    assert_eq!((s.x, s.y), (10_000, -2_000));
    // zoom in 2x, pan by (100, 50)
    cam.apply_event(CameraEvent::Scrolled { delta: 100_000 });
    assert_eq!(cam.scale, 2_000);
    cam.apply_event(CameraEvent::ButtonPressed);
    cam.apply_event(CameraEvent::PointerMoved { x: -100_000, y: -50_000 });
    cam.settle();
    assert_eq!(cam.translation, Vec2 { x: 100_000, y: 50_000 });
    let s2 = cam.world_to_screen(p);
    assert_eq!((s2.x, s2.y), (20_000 + 100_000, -4_000 + 50_000));
}

#[test]
fn apply_events_drains_in_order() {
    let mut one_by_one = CameraState::new(800, 600);
    let mut batched = CameraState::new(800, 600);
    let events = vec![
        CameraEvent::ButtonPressed,
        CameraEvent::PointerMoved { x: 2_000, y: 1_000 },
        CameraEvent::Scrolled { delta: 500 },
        CameraEvent::PointerMoved { x: 1_000, y: 500 },
        CameraEvent::ButtonReleased,
    ];
    for e in &events {
        one_by_one.apply_event(*e);
    }
    batched.apply_events(&events);
    assert_eq!(one_by_one, batched);
    assert_eq!(batched.pending_delta, Vec2 { x: -1_000, y: -500 });
}
