use life::geom::Vec2;
use life::graph::{EdgeKind, Graph, GraphError};

#[test]
fn builds_and_resolves_edge_indices() {
    let ids: Vec<u64> = vec![10, 20, 30];
    let links = vec![(20u64, 30u64, EdgeKind::Standard), (30u64, 10u64, EdgeKind::Overlay)];
    let g = Graph::new(ids, links).unwrap();
    assert_eq!(g.node_count(), 3);
    assert_eq!(g.edge_count(), 2);
    assert_eq!(g.node_at(0).id, 10);
    assert_eq!(g.node_at(1).id, 20);
    assert_eq!(g.node_at(2).id, 30);
    let e0 = g.edge_at(0);
    assert_eq!((e0.source, e0.target, e0.kind), (1, 2, EdgeKind::Standard));
    let e1 = g.edge_at(1);
    assert_eq!((e1.source, e1.target, e1.kind), (2, 0, EdgeKind::Overlay));
    // fresh nodes rest at the origin with no accumulated force
    let nd = g.node_at(1);
    assert_eq!(nd.position, Vec2 { x: 0, y: 0 });
    assert_eq!(nd.displacement, Vec2 { x: 0, y: 0 });
}

#[test]
fn unknown_endpoint_is_rejected() {
    let ids: Vec<u64> = vec![1, 2];
    let links = vec![(1u64, 99u64, EdgeKind::Standard)];
    let r = Graph::new(ids, links);
    assert_eq!(r.err(), Some(GraphError::InvalidEdgeReference));
}

#[test]
fn duplicate_identifier_is_rejected() {
    let ids: Vec<u64> = vec![1, 2, 1];
    let r = Graph::new(ids, Vec::new());
    assert_eq!(r.err(), Some(GraphError::DuplicateNodeId));
}

#[test]
fn set_position_moves_exactly_one_node() {
    let mut g = Graph::new(vec![5, 6], Vec::new()).unwrap();
    g.set_position(1, Vec2 { x: 777, y: -888 });
    assert_eq!(g.node_at(0).position, Vec2 { x: 0, y: 0 });
    assert_eq!(g.node_at(1).position, Vec2 { x: 777, y: -888 });
    assert_eq!(g.node_at(1).id, 6);
}

#[test]
fn randomize_scatters_within_the_square() {
    let ids: Vec<u64> = (0..25u64).collect();
    let mut g = Graph::new(ids, Vec::new()).unwrap();
    g.randomize_positions(-100_000, 100_000);
    for i in 0..g.node_count() {
        let p = g.node_at(i).position;
        assert!(-100_000 <= p.x && p.x <= 100_000);
        assert!(-100_000 <= p.y && p.y <= 100_000);
        assert_eq!(g.node_at(i).id, i as u64);
    }
}
