use life::engine::{advance, step, SimulationParameters, SimulationState};
use life::geom::Vec2;
use life::graph::{EdgeKind, Graph};

fn triangle_graph() -> Graph {
    let ids: Vec<u64> = vec![0, 1, 2];
    let links = vec![
        (0u64, 1u64, EdgeKind::Standard),
        (1u64, 2u64, EdgeKind::Standard),
        (2u64, 0u64, EdgeKind::Standard),
    ];
    let mut g = Graph::new(ids, links).unwrap();
    g.set_position(0, Vec2 { x: 0, y: 0 });
    g.set_position(1, Vec2 { x: 10_000, y: 0 });
    g.set_position(2, Vec2 { x: 5_000, y: 10_000 });
    g
}

fn positions(g: &Graph) -> Vec<(i64, i64)> {
    let mut out = Vec::new();
    for i in 0..g.node_count() {
        let nd = g.node_at(i);
        out.push((nd.position.x, nd.position.y));
    }
    out
}

fn dist(a: (i64, i64), b: (i64, i64)) -> f64 {
    let dx = (a.0 - b.0) as f64;
    let dy = (a.1 - b.1) as f64;
    (dx * dx + dy * dy).sqrt()
}

#[test]
fn triangle_converges_to_equilateral() {
    let mut g = triangle_graph();
    let params = SimulationParameters::new(800, 600, 3, 50);
    assert_eq!(params.ideal_distance, 400_000);
    let mut state = SimulationState::new(&params);
    advance(&mut g, &mut state, &params, 50);
    assert_eq!(state.iteration, 50);

    let pos = positions(&g);
    let s01 = dist(pos[0], pos[1]);
    let s12 = dist(pos[1], pos[2]);
    let s02 = dist(pos[0], pos[2]);
    // approximately equilateral: sides agree to well under one percent
    let max_side = s01.max(s12).max(s02);
    let min_side = s01.min(s12).min(s02);
    assert!(max_side - min_side < 0.01 * max_side);
    // and roughly the ideal distance apart (400 world units)
    assert!((min_side - 400_000.0).abs() < 40_000.0);
    // centered near the origin (within 10 world units)
    let cx = (pos[0].0 + pos[1].0 + pos[2].0) / 3;
    let cy = (pos[0].1 + pos[1].1 + pos[2].1) / 3;
    assert!(cx.abs() <= 10_000 && cy.abs() <= 10_000);

    // stable across repeated final-state invocations
    let frozen = positions(&g);
    let converged = step(&mut g, &mut state, &params);
    assert!(converged);
    assert_eq!(positions(&g), frozen);
    let converged_again = step(&mut g, &mut state, &params);
    assert!(converged_again);
    assert_eq!(positions(&g), frozen);
}

#[test]
fn triangle_layout_is_deterministic() {
    let mut g1 = triangle_graph();
    let mut g2 = triangle_graph();
    let params = SimulationParameters::new(800, 600, 3, 50);
    let mut s1 = SimulationState::new(&params);
    let mut s2 = SimulationState::new(&params);
    advance(&mut g1, &mut s1, &params, 50);
    advance(&mut g2, &mut s2, &params, 50);
    assert_eq!(positions(&g1), positions(&g2));
    assert_eq!(s1, s2);
}

#[test]
fn coincident_pair_stays_finite() {
    // Two nodes at the exact same position: the epsilon floor keeps
    // every quantity finite and in range; the difference vector is
    // zero, so the normalized force direction is zero as well and the
    // pair stays where it was.
    let ids: Vec<u64> = vec![0, 1];
    let links = vec![(0u64, 1u64, EdgeKind::Standard)];
    let mut g = Graph::new(ids, links).unwrap();
    g.set_position(0, Vec2 { x: 7_000, y: -3_000 });
    g.set_position(1, Vec2 { x: 7_000, y: -3_000 });
    let params = SimulationParameters::new(800, 600, 2, 50);
    let mut state = SimulationState::new(&params);
    let converged = step(&mut g, &mut state, &params);
    assert!(!converged);
    for i in 0..2 {
        let nd = g.node_at(i);
        assert!(nd.position.x.abs() <= life::num::COORD_LIMIT);
        assert!(nd.position.y.abs() <= life::num::COORD_LIMIT);
        assert!(nd.displacement.x.abs() <= life::num::DISP_LIMIT);
        assert!(nd.displacement.y.abs() <= life::num::DISP_LIMIT);
        assert_eq!((nd.position.x, nd.position.y), (7_000, -3_000));
    }
}

#[test]
fn separated_pair_pushes_apart_then_spring_holds() {
    // Two connected nodes a small distance apart: repulsion dominates
    // at short range and the gap grows after one step.
    let ids: Vec<u64> = vec![0, 1];
    let links = vec![(0u64, 1u64, EdgeKind::Standard)];
    let mut g = Graph::new(ids, links).unwrap();
    g.set_position(0, Vec2 { x: -500, y: 0 });
    g.set_position(1, Vec2 { x: 500, y: 0 });
    let params = SimulationParameters::new(800, 600, 2, 50);
    let mut state = SimulationState::new(&params);
    step(&mut g, &mut state, &params);
    let a = g.node_at(0).position;
    let b = g.node_at(1).position;
    assert!(a.x < -500 && b.x > 500);
    assert_eq!(a.y, 0);
    assert_eq!(b.y, 0);
    // symmetric start, symmetric result
    assert_eq!(a.x, -b.x);
}

#[test]
fn repulsion_is_equal_and_opposite() {
    // Two nodes with no edge between them: after one step the
    // accumulated displacements are exactly equal in magnitude and
    // opposite in direction, with no tolerance at all.
    let ids: Vec<u64> = vec![0, 1];
    let mut g = Graph::new(ids, Vec::new()).unwrap();
    g.set_position(0, Vec2 { x: -1_300, y: 2_700 });
    g.set_position(1, Vec2 { x: 4_100, y: -900 });
    let params = SimulationParameters::new(800, 600, 2, 50);
    let mut state = SimulationState::new(&params);
    step(&mut g, &mut state, &params);
    let d0 = g.node_at(0).displacement;
    let d1 = g.node_at(1).displacement;
    assert_eq!(d0.x, -d1.x);
    assert_eq!(d0.y, -d1.y);
    assert!(d0.x != 0 || d0.y != 0);
}

#[test]
fn empty_graph_step_is_noop() {
    let mut g = Graph::new(Vec::new(), Vec::new()).unwrap();
    let params = SimulationParameters::new(800, 600, 0, 50);
    assert_eq!(params.ideal_distance, 1);
    let mut state = SimulationState::new(&params);
    let converged = step(&mut g, &mut state, &params);
    assert!(converged);
    assert_eq!(state.iteration, 0);
    assert_eq!(g.node_count(), 0);
}

#[test]
fn single_node_does_not_move() {
    let mut g = Graph::new(vec![42], Vec::new()).unwrap();
    g.set_position(0, Vec2 { x: 1_234, y: -5_678 });
    let params = SimulationParameters::new(800, 600, 1, 50);
    let mut state = SimulationState::new(&params);
    advance(&mut g, &mut state, &params, 50);
    let nd = g.node_at(0);
    assert_eq!((nd.position.x, nd.position.y), (1_234, -5_678));
    assert_eq!(nd.id, 42);
}

#[test]
fn step_after_convergence_changes_nothing() {
    let mut g = triangle_graph();
    let params = SimulationParameters::new(800, 600, 3, 2);
    let mut state = SimulationState::new(&params);
    advance(&mut g, &mut state, &params, 2);
    assert_eq!(state.iteration, 2);
    let frozen = positions(&g);
    let frozen_state = state;
    let converged = step(&mut g, &mut state, &params);
    assert!(converged);
    assert_eq!(positions(&g), frozen);
    assert_eq!(state, frozen_state);
}

#[test]
fn temperature_schedule_is_linear_and_exhausts() {
    let params = SimulationParameters::new(800, 600, 3, 50);
    assert_eq!(params.area, 480_000);
    assert_eq!(params.initial_temperature, 69_282);
    assert_eq!(params.epsilon, 10);
    let mut g = triangle_graph();
    let mut state = SimulationState::new(&params);
    assert_eq!(state.temperature, 69_282);
    let mut last = state.temperature;
    for _ in 0..50 {
        step(&mut g, &mut state, &params);
        // non-increasing across consecutive iterations
        assert!(state.temperature <= last);
        last = state.temperature;
    }
    assert_eq!(state.iteration, 50);
    assert_eq!(state.temperature, 0);
    // spot values of the linear schedule
    let mut g2 = triangle_graph();
    let mut s2 = SimulationState::new(&params);
    advance(&mut g2, &mut s2, &params, 25);
    assert_eq!(s2.temperature, 34_641);
    advance(&mut g2, &mut s2, &params, 24);
    assert_eq!(s2.temperature, 1_385);
}

#[test]
fn triangle_final_positions_are_reproducible() {
    // The full layout is a function of the initial placement alone;
    // these are the exact positions the engine settles on.
    let mut g = triangle_graph();
    let params = SimulationParameters::new(800, 600, 3, 50);
    let mut state = SimulationState::new(&params);
    advance(&mut g, &mut state, &params, 50);
    let pos = positions(&g);
    assert_eq!(pos[0], (-195_515, -111_982));
    assert_eq!(pos[1], (205_515, -111_982));
    assert_eq!(pos[2], (5_000, 235_320));
}
