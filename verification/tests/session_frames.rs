use life::camera::CameraEvent;
use life::geom::Vec2;
use life::graph::{EdgeKind, Graph};
use life::session::{LayoutSession, Status};
use life::stats::{millis_between, Stats};

fn two_node_graph() -> Graph {
    let ids: Vec<u64> = vec![7, 8];
    let links = vec![(7u64, 8u64, EdgeKind::Overlay)];
    let mut g = Graph::new(ids, links).unwrap();
    g.set_position(0, Vec2 { x: -200_000, y: 0 });
    g.set_position(1, Vec2 { x: 200_000, y: 0 });
    g
}

#[test]
fn frame_emits_geometry_for_every_node_and_edge() {
    let mut session = LayoutSession::new(two_node_graph(), 800, 600, 10);
    let geometry = session.frame(&Vec::new());
    assert_eq!(geometry.nodes.len(), 2);
    assert_eq!(geometry.nodes[0].id, 7);
    assert_eq!(geometry.nodes[1].id, 8);
    assert_eq!(geometry.edges.len(), 1);
    assert_eq!(geometry.edges[0].source, 0);
    assert_eq!(geometry.edges[0].target, 1);
    assert_eq!(geometry.edges[0].kind, EdgeKind::Overlay);
}

#[test]
fn identity_camera_reports_world_positions() {
    // a frozen session (zero iteration budget) with an untouched camera
    // hands the renderer exactly the simulation-space positions
    let mut session = LayoutSession::new(two_node_graph(), 800, 600, 0);
    let geometry = session.frame(&Vec::new());
    assert_eq!((geometry.nodes[0].screen_x, geometry.nodes[0].screen_y), (-200_000, 0));
    assert_eq!((geometry.nodes[1].screen_x, geometry.nodes[1].screen_y), (200_000, 0));
}

#[test]
fn camera_events_shift_the_frame_geometry() {
    let mut session = LayoutSession::new(two_node_graph(), 800, 600, 0);
    let events = vec![
        CameraEvent::ButtonPressed,
        CameraEvent::PointerMoved { x: -30_000, y: 10_000 },
    ];
    let geometry = session.frame(&events);
    // drag moves the camera opposite to cursor motion
    assert_eq!(session.camera().translation, Vec2 { x: 30_000, y: -10_000 });
    assert_eq!((geometry.nodes[0].screen_x, geometry.nodes[0].screen_y), (-170_000, -10_000));
}

#[test]
fn status_runs_then_completes_then_closes() {
    let mut session = LayoutSession::new(two_node_graph(), 800, 600, 2);
    assert_eq!(session.status(), None);
    session.frame(&Vec::new());
    assert_eq!(session.status(), None);
    session.frame(&Vec::new());
    assert_eq!(session.status(), Some(Status::Complete));
    // further frames change nothing: the layout is frozen
    let before = session.state();
    session.frame(&Vec::new());
    assert_eq!(session.state(), before);
    session.close();
    assert_eq!(session.status(), Some(Status::Closed));
}

#[test]
fn frames_advance_the_engine_once_each() {
    let mut session = LayoutSession::new(two_node_graph(), 800, 600, 5);
    assert_eq!(session.state().iteration, 0);
    session.frame(&Vec::new());
    assert_eq!(session.state().iteration, 1);
    session.frame(&Vec::new());
    assert_eq!(session.state().iteration, 2);
    assert!(session.params().max_iterations == 5);
}

#[test]
fn elapsed_millis_is_a_saturating_difference() {
    assert_eq!(millis_between(5, 3), 0);
    assert_eq!(millis_between(3, 10), 7);
    assert_eq!(millis_between(0, 0), 0);
    let stats = Stats::new();
    // the clock only runs forward from the recorded start
    let elapsed = stats.millis_elapsed();
    assert!(elapsed < 60_000);
}
