//! The layout session: pure orchestration of one graph, one force
//! engine and one camera controller, producing a render payload each
//! frame.

use vstd::prelude::*;

verus! {

use crate::graph::{Graph, Edge};
use crate::engine::{
    SimulationParameters, SimulationState, step, step_spec, ideal_distance_spec,
    initial_temperature_spec,
};
use crate::camera::{
    CameraState, CameraEvent, events_fold, settle_spec, world_to_screen_spec, view_dim_spec,
};
use crate::geom::Vec2;
use crate::num::{EPSILON, FIXED_ONE};

/// How a session ends.
#[derive(Clone, Copy, Debug, PartialEq, Eq, Structural)]
pub enum Status {
    /// The layout converged: the iteration budget is spent.
    Complete,
    /// The session was closed by the application.
    Closed,
}

/// One node's render-ready screen position.
#[derive(Clone, Copy, Debug, PartialEq, Eq, Structural)]
pub struct NodeScreenPosition {
    pub id: u64,
    pub screen_x: i64,
    pub screen_y: i64,
}

/// What the renderer consumes each frame: transformed node positions
/// and the edge index pairs with their kinds (for color selection).
pub struct FrameGeometry {
    pub nodes: Vec<NodeScreenPosition>,
    pub edges: Vec<Edge>,
}

/// One layout session over one graph.
pub struct LayoutSession {
    graph: Graph,
    params: SimulationParameters,
    state: SimulationState,
    camera: CameraState,
    closed: bool,
}

impl LayoutSession {
    pub closed spec fn spec_graph(self) -> Graph {
        self.graph
    }

    pub closed spec fn spec_params(self) -> SimulationParameters {
        self.params
    }

    pub closed spec fn spec_state(self) -> SimulationState {
        self.state
    }

    pub closed spec fn spec_camera(self) -> CameraState {
        self.camera
    }

    pub closed spec fn spec_closed(self) -> bool {
        self.closed
    }

    pub open spec fn wf(self) -> bool {
        &&& self.spec_graph().wf()
        &&& self.spec_params().wf()
        &&& self.spec_state().wf(self.spec_params())
        &&& self.spec_camera().wf()
    }

    /// The session's lifecycle report: `Closed` wins over `Complete`;
    /// `None` while the layout is still running.
    pub open spec fn status_spec(self) -> Option<Status> {
        if self.spec_closed() {
            Some(Status::Closed)
        } else if self.spec_state().iteration >= self.spec_params().max_iterations {
            Some(Status::Complete)
        } else {
            None
        }
    }

    /// Start a session over a validated graph.  The simulation
    /// parameters are frozen here, from the viewport dimensions at
    /// session start; the camera remains live to resizes.
    pub fn new(graph: Graph, width: u32, height: u32, max_iterations: u32) -> (s: LayoutSession)
        requires
            graph.wf(),
        ensures
            s.wf(),
            s.spec_graph() == graph,
            s.spec_params().area == width * height,
            s.spec_params().ideal_distance == ideal_distance_spec(
                width,
                height,
                graph.spec_nodes().len() as int,
            ),
            s.spec_params().epsilon == EPSILON,
            s.spec_params().max_iterations == max_iterations,
            s.spec_params().initial_temperature == initial_temperature_spec(width, height),
            s.spec_state().iteration == 0,
            s.spec_camera().scale == FIXED_ONE,
            s.spec_camera().translation == Vec2::spec_zero(),
            s.spec_camera().pending_delta == Vec2::spec_zero(),
            s.spec_camera().last_cursor == Vec2::spec_zero(),
            !s.spec_camera().drag_active,
            s.spec_camera().viewport_width == view_dim_spec(width * FIXED_ONE),
            s.spec_camera().viewport_height == view_dim_spec(height * FIXED_ONE),
            !s.spec_closed(),
    {
        let node_count = graph.node_count();
        let params = SimulationParameters::new(width, height, node_count, max_iterations);
        let state = SimulationState::new(&params);
        let camera = CameraState::new(width, height);
        LayoutSession { graph, params, state, camera, closed: false }
    }

    /// One frame: drain the pending input events into the camera,
    /// advance the force engine by one step unless the layout is
    /// frozen, settle the camera, and emit render-ready geometry.
    pub fn frame(&mut self, events: &Vec<CameraEvent>) -> (geometry: FrameGeometry)
        requires
            old(self).wf(),
        ensures
            final(self).wf(),
            final(self).spec_camera() == settle_spec(
                events_fold(old(self).spec_camera(), events@),
            ),
            (final(self).spec_graph().spec_nodes(), final(self).spec_state()) == step_spec(
                old(self).spec_graph().spec_nodes(),
                old(self).spec_graph().spec_edges(),
                old(self).spec_state(),
                old(self).spec_params(),
            ),
            final(self).spec_graph().spec_edges() == old(self).spec_graph().spec_edges(),
            final(self).spec_params() == old(self).spec_params(),
            final(self).spec_closed() == old(self).spec_closed(),
            geometry.nodes@.len() == final(self).spec_graph().spec_nodes().len(),
            forall|i: int|
                0 <= i < geometry.nodes@.len() ==> {
                    let nd = final(self).spec_graph().spec_nodes()[i];
                    let sp = world_to_screen_spec(final(self).spec_camera(), nd.position);
                    #[trigger] geometry.nodes@[i] == (NodeScreenPosition {
                        id: nd.id,
                        screen_x: sp.x,
                        screen_y: sp.y,
                    })
                },
            geometry.edges@ == final(self).spec_graph().spec_edges(),
    {
        self.camera.apply_events(events);
        let _converged = step(&mut self.graph, &mut self.state, &self.params);
        self.camera.settle();
        let n = self.graph.node_count();
        let mut nodes_out: Vec<NodeScreenPosition> = Vec::new();
        let mut i: usize = 0;
        while i < n
            invariant
                self.graph.wf(),
                self.camera.wf(),
                n == self.graph.spec_nodes().len(),
                i <= n,
                nodes_out@.len() == i,
                forall|t: int|
                    0 <= t < i ==> {
                        let nd = self.graph.spec_nodes()[t];
                        let sp = world_to_screen_spec(self.camera, nd.position);
                        #[trigger] nodes_out@[t] == (NodeScreenPosition {
                            id: nd.id,
                            screen_x: sp.x,
                            screen_y: sp.y,
                        })
                    },
            decreases n - i,
        {
            let nd = self.graph.node_at(i);
            proof {
                assert(crate::graph::node_state_bounded(self.graph.spec_nodes()[i as int]));
            }
            let sp = self.camera.world_to_screen(nd.position);
            nodes_out.push(NodeScreenPosition { id: nd.id, screen_x: sp.x, screen_y: sp.y });
            i += 1;
        }
        let ecount = self.graph.edge_count();
        let mut edges_out: Vec<Edge> = Vec::new();
        let mut j: usize = 0;
        while j < ecount
            invariant
                self.graph.wf(),
                ecount == self.graph.spec_edges().len(),
                j <= ecount,
                edges_out@ == self.graph.spec_edges().take(j as int),
            decreases ecount - j,
        {
            edges_out.push(self.graph.edge_at(j));
            proof {
                assert(edges_out@ =~= self.graph.spec_edges().take(j as int + 1));
            }
            j += 1;
        }
        proof {
            assert(edges_out@ =~= self.graph.spec_edges());
        }
        FrameGeometry { nodes: nodes_out, edges: edges_out }
    }

    /// Mark the session closed; the layout freezes from the caller's
    /// point of view because the application stops calling `frame`.
    pub fn close(&mut self)
        requires
            old(self).wf(),
        ensures
            final(self).wf(),
            final(self).spec_closed(),
            final(self).spec_graph() == old(self).spec_graph(),
            final(self).spec_params() == old(self).spec_params(),
            final(self).spec_state() == old(self).spec_state(),
            final(self).spec_camera() == old(self).spec_camera(),
    {
        self.closed = true;
    }

    pub fn status(&self) -> (r: Option<Status>)
        ensures
            r == self.status_spec(),
    {
        if self.closed {
            Some(Status::Closed)
        } else if self.state.iteration >= self.params.max_iterations {
            Some(Status::Complete)
        } else {
            None
        }
    }

    pub fn graph(&self) -> (g: &Graph)
        ensures
            *g == self.spec_graph(),
    {
        &self.graph
    }

    pub fn params(&self) -> (p: SimulationParameters)
        ensures
            p == self.spec_params(),
    {
        self.params
    }

    pub fn state(&self) -> (s: SimulationState)
        ensures
            s == self.spec_state(),
    {
        self.state
    }

    pub fn camera(&self) -> (c: CameraState)
        ensures
            c == self.spec_camera(),
    {
        self.camera
    }
}

} // verus!
