//! The force engine: Fruchterman–Reingold simulation steps with a
//! linear cooling schedule.
//!
//! One step resets every displacement, accumulates repulsion over all
//! ordered pairs of distinct nodes (`f_r(m) = k^2 / m`), accumulates
//! attraction over all edges (`f_a(m) = m^2 / k`), then moves each node
//! along its displacement by at most the current temperature.  All
//! arithmetic is fixed-point: force contributions are computed in
//! `i128` with truncating division and clamped into `[-DISP_LIMIT,
//! DISP_LIMIT]`; positions are clamped into `[-COORD_LIMIT,
//! COORD_LIMIT]`.  Together with the `EPSILON` distance floor this is
//! the integer counterpart of the usual guard against division
//! blow-ups: every quantity stays finite and bounded, on every input.

use vstd::prelude::*;

verus! {

use crate::geom::Vec2;
use crate::graph::{Graph, Node, Edge};
use crate::num::{
    FIXED_ONE, EPSILON, COORD_LIMIT, DISP_LIMIT, clip_spec, sdiv_spec, floor_sqrt,
    lemma_sdiv_neg, lemma_floor_sqrt_le, isqrt_u128, mul_i128,
    sdiv_i128, clip_i128,
};
use vstd::arithmetic::mul::{lemma_mul_inequality, lemma_mul_nonnegative};
use vstd::arithmetic::div_mod::{
    lemma_div_is_ordered, lemma_div_pos_is_pos, lemma_div_multiples_vanish,
};

/// Bound on the ideal distance `k` (2^42 sub-units), implied by
/// `u32` viewport dimensions.
pub const IDEAL_LIMIT: i64 = 0x400_0000_0000;

/// Bound on any temperature (2^42 sub-units), implied by `u32`
/// viewport dimensions.
pub const TEMP_LIMIT: i64 = 0x400_0000_0000;

/// Immutable per-session simulation parameters, computed once from the
/// viewport dimensions and the node count.
#[derive(Clone, Copy, Debug, PartialEq, Eq, Structural)]
pub struct SimulationParameters {
    /// Drawing area in square world units.
    pub area: u64,
    /// Ideal inter-node distance `k = sqrt(area / node_count)`, in sub-units.
    pub ideal_distance: i64,
    /// Minimum distance floor, in sub-units.
    pub epsilon: i64,
    /// Iteration budget.
    pub max_iterations: u32,
    /// Starting temperature `sqrt(area) / 10`, in sub-units.
    pub initial_temperature: i64,
}

/// Mutable simulation lifecycle state.
#[derive(Clone, Copy, Debug, PartialEq, Eq, Structural)]
pub struct SimulationState {
    /// Steps taken so far; capped at `max_iterations`.
    pub iteration: u32,
    /// Cap on how far a node may move in the current step, in sub-units.
    pub temperature: i64,
}

/// `k = sqrt(area / node_count)` in sub-units, floored at one sub-unit
/// so it can divide; left at that floor when the graph is degenerate
/// (no nodes), in which case the engine never reads it.
pub open spec fn ideal_distance_spec(width: u32, height: u32, node_count: int) -> int {
    if node_count <= 0 {
        1
    } else {
        let r = floor_sqrt(
            ((width * height * (FIXED_ONE * FIXED_ONE)) / node_count) as nat,
        ) as int;
        if r < 1 {
            1
        } else {
            r
        }
    }
}

/// `sqrt(area) / 10` in sub-units.
pub open spec fn initial_temperature_spec(width: u32, height: u32) -> int {
    (floor_sqrt((width * height * (FIXED_ONE * FIXED_ONE)) as nat) as int) / 10
}

/// The linear cooling schedule: temperature falls to zero as the
/// iteration counter reaches the budget.
pub open spec fn temperature_spec(p: SimulationParameters, iteration: int) -> int {
    if iteration >= p.max_iterations {
        0
    } else {
        (p.max_iterations - iteration) * p.initial_temperature / (p.max_iterations as int)
    }
}

impl SimulationParameters {
    pub open spec fn wf(self) -> bool {
        &&& 1 <= self.ideal_distance <= IDEAL_LIMIT
        &&& self.epsilon == EPSILON
        &&& 0 <= self.initial_temperature <= TEMP_LIMIT
    }

    /// Compute the session parameters from the viewport dimensions and
    /// the node count, as of session start.
    pub fn new(width: u32, height: u32, node_count: usize, max_iterations: u32) -> (p:
        SimulationParameters)
        ensures
            p.wf(),
            p.area == width * height,
            p.ideal_distance == ideal_distance_spec(width, height, node_count as int),
            p.epsilon == EPSILON,
            p.max_iterations == max_iterations,
            p.initial_temperature == initial_temperature_spec(width, height),
    {
        proof {
            assert(width * height <= 0xffff_ffffu64 * 0xffff_ffffu64) by (nonlinear_arith)
                requires
                    width <= 0xffff_ffffu64 && height <= 0xffff_ffffu64,
            ;
            assert((1u128 << 126) == 0x4000_0000_0000_0000_0000_0000_0000_0000u128) by (bit_vector);
        }
        let area: u64 = (width as u64) * (height as u64);
        proof {
            assert(area * (FIXED_ONE * FIXED_ONE) < 0x10_0000_0000_0000_0000_0000) by (nonlinear_arith)
                requires
                    area < 0x1_0000_0000_0000_0000,
            ;
        }
        let scaled: u128 = (area as u128) * ((FIXED_ONE as u128) * (FIXED_ONE as u128));
        let root_area: u64 = isqrt_u128(scaled);
        proof {
            assert((0x3ff_ffff_ffffnat + 1) * (0x3ff_ffff_ffffnat + 1)
                == 0x10_0000_0000_0000_0000_0000nat) by (nonlinear_arith);
            assert(scaled < 0x10_0000_0000_0000_0000_0000nat);
            lemma_floor_sqrt_le(scaled as nat, 0x3ff_ffff_ffffnat);
            lemma_div_pos_is_pos(root_area as int, 10);
            lemma_div_is_ordered(root_area as int, IDEAL_LIMIT as int, 10);
        }
        let initial_temperature: i64 = (root_area / 10) as i64;
        let ideal_distance: i64 = if node_count == 0 {
            1
        } else {
            let per_node: u128 = scaled / (node_count as u128);
            let r: u64 = isqrt_u128(per_node);
            proof {
                lemma_div_is_ordered(0, scaled as int, node_count as int);
                lemma_div_is_ordered(per_node as int, scaled as int, 1);
                lemma_floor_sqrt_le(per_node as nat, 0x3ff_ffff_ffffnat);
            }
            if r < 1 {
                1
            } else {
                r as i64
            }
        };
        SimulationParameters {
            area,
            ideal_distance,
            epsilon: EPSILON,
            max_iterations,
            initial_temperature,
        }
    }
}

/// The temperature of the cooling schedule at a given iteration.
pub fn temperature_at(p: &SimulationParameters, iteration: u32) -> (t: i64)
    requires
        p.wf(),
    ensures
        t == temperature_spec(*p, iteration as int),
        0 <= t <= p.initial_temperature,
{
    if iteration >= p.max_iterations {
        0
    } else {
        let remaining: i128 = (p.max_iterations - iteration) as i128;
        let num: i128 = mul_i128(
            remaining,
            p.initial_temperature as i128,
            Ghost(0x1_0000_0000),
            Ghost(TEMP_LIMIT as int),
        );
        let t: i128 = num / (p.max_iterations as i128);
        proof {
            let maxi = p.max_iterations as int;
            let init = p.initial_temperature as int;
            lemma_mul_nonnegative(maxi - iteration, init);
            lemma_div_pos_is_pos((maxi - iteration) * init, maxi);
            lemma_mul_inequality(maxi - iteration, maxi, init);
            lemma_div_is_ordered((maxi - iteration) * init, maxi * init, maxi);
            lemma_div_multiples_vanish(init, maxi);
        }
        t as i64
    }
}

impl SimulationState {
    /// The engine's lifecycle invariant: the counter stays within the
    /// budget and the temperature always equals the schedule's value.
    pub open spec fn wf(self, p: SimulationParameters) -> bool {
        &&& self.iteration <= p.max_iterations
        &&& self.temperature == temperature_spec(p, self.iteration as int)
    }

    /// Fresh state at session start: no steps taken yet.
    pub fn new(p: &SimulationParameters) -> (s: SimulationState)
        requires
            p.wf(),
        ensures
            s.iteration == 0,
            s.wf(*p),
    {
        SimulationState { iteration: 0, temperature: temperature_at(p, 0) }
    }

    /// The layout is frozen once the iteration budget is spent.
    pub fn converged(&self, p: &SimulationParameters) -> (c: bool)
        ensures
            c == (self.iteration >= p.max_iterations),
    {
        self.iteration >= p.max_iterations
    }
}

/// The temperature never increases from one iteration to a later one.
pub proof fn lemma_temperature_monotonic(p: SimulationParameters, i1: int, i2: int)
    requires
        p.wf(),
        0 <= i1 <= i2,
    ensures
        temperature_spec(p, i2) <= temperature_spec(p, i1),
{
    let maxi = p.max_iterations as int;
    let init = p.initial_temperature as int;
    if i2 >= maxi {
        if i1 < maxi {
            lemma_mul_nonnegative(maxi - i1, init);
            lemma_div_pos_is_pos((maxi - i1) * init, maxi);
        }
    } else {
        lemma_mul_inequality(maxi - i2, maxi - i1, init);
        lemma_div_is_ordered((maxi - i2) * init, (maxi - i1) * init, maxi);
    }
}

/// Every scheduled temperature lies between zero and the initial one.
pub proof fn lemma_temperature_bounds(p: SimulationParameters, i: int)
    requires
        p.wf(),
        0 <= i,
    ensures
        0 <= temperature_spec(p, i) <= p.initial_temperature,
{
    let maxi = p.max_iterations as int;
    let init = p.initial_temperature as int;
    if i < maxi {
        lemma_mul_nonnegative(maxi - i, init);
        lemma_div_pos_is_pos((maxi - i) * init, maxi);
        lemma_mul_inequality(maxi - i, maxi, init);
        lemma_div_is_ordered((maxi - i) * init, maxi * init, maxi);
        lemma_div_multiples_vanish(init, maxi);
    }
}

/// The temperature is spent exactly when the budget is: the final
/// iteration moves nodes by no distance at all.
pub proof fn lemma_temperature_exhausted(p: SimulationParameters)
    requires
        p.wf(),
    ensures
        temperature_spec(p, p.max_iterations as int) == 0,
{
}

/// The distance used to normalize a force direction: the Euclidean
/// length of `(dx, dy)` rounded down, floored at `EPSILON`.
pub open spec fn floored_mag_of(dx: int, dy: int) -> int {
    let m = floor_sqrt((dx * dx + dy * dy) as nat) as int;
    if m < EPSILON {
        EPSILON as int
    } else {
        m
    }
}

/// The repulsive force one node exerts on another, per component:
/// `(diff / m) * (k^2 / m)`, computed exactly as
/// `(diff * k^2) / m^2` with truncating division.
pub open spec fn pair_repulsion(pv: Vec2, pu: Vec2, k: int) -> (int, int) {
    let dx = pv.x - pu.x;
    let dy = pv.y - pu.y;
    let m = floored_mag_of(dx, dy);
    (sdiv_spec(dx * (k * k), m * m), sdiv_spec(dy * (k * k), m * m))
}

/// The attractive force along an edge, per component:
/// `(diff / m) * (m^2 / k)`, computed exactly as `(diff * m) / k`.
pub open spec fn pair_attraction(pv: Vec2, pu: Vec2, k: int) -> (int, int) {
    let dx = pv.x - pu.x;
    let dy = pv.y - pu.y;
    let m = floored_mag_of(dx, dy);
    (sdiv_spec(dx * m, k), sdiv_spec(dy * m, k))
}

/// Accumulate a force contribution into a displacement, saturating at
/// the displacement bound.
pub open spec fn disp_add(d: Vec2, cx: int, cy: int) -> Vec2 {
    Vec2 {
        x: clip_spec(d.x + cx, DISP_LIMIT as int) as i64,
        y: clip_spec(d.y + cy, DISP_LIMIT as int) as i64,
    }
}

/// Newton's third law, exactly: the repulsive contribution `u` makes to
/// `v` is the negation of the one `v` makes to `u`.  Truncating
/// division makes this hold with no tolerance at all.
pub proof fn lemma_repulsion_antisymmetric(pv: Vec2, pu: Vec2, k: int)
    requires
        1 <= k,
    ensures
        pair_repulsion(pv, pu, k).0 == -pair_repulsion(pu, pv, k).0,
        pair_repulsion(pv, pu, k).1 == -pair_repulsion(pu, pv, k).1,
{
    let dx = pv.x - pu.x;
    let dy = pv.y - pu.y;
    assert(dx * dx == (-dx) * (-dx) && dy * dy == (-dy) * (-dy)) by (nonlinear_arith);
    let m = floored_mag_of(dx, dy);
    assert(floored_mag_of(pu.x - pv.x, pu.y - pv.y) == m);
    assert(m * m > 0) by (nonlinear_arith)
        requires
            m >= EPSILON,
    ;
    assert((-dx) * (k * k) == -(dx * (k * k)) && (-dy) * (k * k) == -(dy * (k * k)))
        by (nonlinear_arith);
    lemma_sdiv_neg(dx * (k * k), m * m);
    lemma_sdiv_neg(dy * (k * k), m * m);
}

/// Displacement accumulated on node `v` by repulsion from the first
/// `j` nodes, skipping `v` itself.
pub open spec fn repulsion_disp(nodes: Seq<Node>, v: int, j: int, k: int) -> Vec2
    decreases j,
{
    if j <= 0 {
        Vec2::spec_zero()
    } else {
        let prev = repulsion_disp(nodes, v, j - 1, k);
        if j - 1 == v {
            prev
        } else {
            let c = pair_repulsion(nodes[v].position, nodes[j - 1].position, k);
            disp_add(prev, c.0, c.1)
        }
    }
}

/// Repulsion pass: every node's displacement is reset and then
/// re-accumulated over all other nodes (all ordered pairs).
pub open spec fn repulsion_phase_spec(nodes: Seq<Node>, k: int) -> Seq<Node> {
    Seq::new(
        nodes.len(),
        |i: int|
            Node {
                id: nodes[i].id,
                position: nodes[i].position,
                displacement: repulsion_disp(nodes, i, nodes.len() as int, k),
            },
    )
}

/// One edge's attraction applied to both endpoints, source first.
pub open spec fn apply_edge(nodes: Seq<Node>, e: Edge, k: int) -> Seq<Node>
    recommends
        e.source < nodes.len(),
        e.target < nodes.len(),
{
    let v = e.source as int;
    let u = e.target as int;
    let c = pair_attraction(nodes[v].position, nodes[u].position, k);
    let step1 = nodes.update(
        v,
        Node {
            id: nodes[v].id,
            position: nodes[v].position,
            displacement: disp_add(nodes[v].displacement, -c.0, -c.1),
        },
    );
    step1.update(
        u,
        Node {
            id: step1[u].id,
            position: step1[u].position,
            displacement: disp_add(step1[u].displacement, c.0, c.1),
        },
    )
}

/// Attraction pass over the first `j` edges.
pub open spec fn attraction_prefix_spec(nodes: Seq<Node>, edges: Seq<Edge>, j: int, k: int) -> Seq<
    Node,
>
    decreases j,
{
    if j <= 0 {
        nodes
    } else {
        apply_edge(attraction_prefix_spec(nodes, edges, j - 1, k), edges[j - 1], k)
    }
}

/// Where a node lands after one cooled move: along its displacement,
/// by at most the temperature, clamped into the coordinate range.
pub open spec fn cooled_position(nd: Node, temp: int) -> Vec2 {
    let m = floored_mag_of(nd.displacement.x as int, nd.displacement.y as int);
    let cap = if m < temp {
        m
    } else {
        temp
    };
    Vec2 {
        x: clip_spec(nd.position.x + sdiv_spec(nd.displacement.x * cap, m), COORD_LIMIT as int)
            as i64,
        y: clip_spec(nd.position.y + sdiv_spec(nd.displacement.y * cap, m), COORD_LIMIT as int)
            as i64,
    }
}

/// Movement pass: every node takes its cooled move.
pub open spec fn move_phase_spec(nodes: Seq<Node>, temp: int) -> Seq<Node> {
    Seq::new(
        nodes.len(),
        |i: int|
            Node {
                id: nodes[i].id,
                position: cooled_position(nodes[i], temp),
                displacement: nodes[i].displacement,
            },
    )
}

/// All three passes of one simulation step.
pub open spec fn step_nodes_spec(nodes: Seq<Node>, edges: Seq<Edge>, k: int, temp: int) -> Seq<
    Node,
> {
    move_phase_spec(
        attraction_prefix_spec(repulsion_phase_spec(nodes, k), edges, edges.len() as int, k),
        temp,
    )
}

/// One engine call, including the frozen cases: a spent iteration
/// budget or a degenerate (empty) graph leaves everything unchanged.
pub open spec fn step_spec(
    nodes: Seq<Node>,
    edges: Seq<Edge>,
    state: SimulationState,
    p: SimulationParameters,
) -> (Seq<Node>, SimulationState) {
    if state.iteration >= p.max_iterations || nodes.len() == 0 {
        (nodes, state)
    } else {
        (
            step_nodes_spec(nodes, edges, p.ideal_distance as int, state.temperature as int),
            SimulationState {
                iteration: (state.iteration + 1) as u32,
                temperature: temperature_spec(p, state.iteration as int + 1) as i64,
            },
        )
    }
}

/// `steps` engine calls in a row.
pub open spec fn run_spec(
    nodes: Seq<Node>,
    edges: Seq<Edge>,
    state: SimulationState,
    p: SimulationParameters,
    steps: nat,
) -> (Seq<Node>, SimulationState)
    decreases steps,
{
    if steps == 0 {
        (nodes, state)
    } else {
        let next = step_spec(nodes, edges, state, p);
        run_spec(next.0, edges, next.1, p, (steps - 1) as nat)
    }
}

/// Convergence determinism: the layout after any number of steps is a
/// function of the initial placement, the edges, the engine state and
/// the parameters alone, so equal inputs always yield equal layouts —
/// there is no hidden randomness inside the engine.
pub proof fn lemma_run_deterministic(
    nodes1: Seq<Node>,
    edges1: Seq<Edge>,
    state1: SimulationState,
    nodes2: Seq<Node>,
    edges2: Seq<Edge>,
    state2: SimulationState,
    p: SimulationParameters,
    steps: nat,
)
    requires
        nodes1 == nodes2,
        edges1 == edges2,
        state1 == state2,
    ensures
        run_spec(nodes1, edges1, state1, p, steps) == run_spec(nodes2, edges2, state2, p, steps),
{
}

/// Normalizing distance between two in-range positions.
fn floored_diff_magnitude(pv: Vec2, pu: Vec2) -> (m: i64)
    requires
        pv.bounded(COORD_LIMIT as int),
        pu.bounded(COORD_LIMIT as int),
    ensures
        m == floored_mag_of(pv.x - pu.x, pv.y - pu.y),
        EPSILON <= m <= 0x3ff_ffff_ffff,
{
    let d = Vec2 { x: pv.x - pu.x, y: pv.y - pu.y };
    let mg = d.magnitude();
    proof {
        assert((0x3ff_ffff_ffffnat + 1) * (0x3ff_ffff_ffffnat + 1)
            == 0x10_0000_0000_0000_0000_0000nat) by (nonlinear_arith);
        assert(d.x * d.x + d.y * d.y < 0x10_0000_0000_0000_0000_0000) by (nonlinear_arith)
            requires
                -0x200_0000_0000 <= d.x <= 0x200_0000_0000,
                -0x200_0000_0000 <= d.y <= 0x200_0000_0000,
        ;
        lemma_floor_sqrt_le((d.x * d.x + d.y * d.y) as nat, 0x3ff_ffff_ffffnat);
    }
    if mg < EPSILON {
        EPSILON
    } else {
        mg
    }
}

/// Normalizing length of an in-range displacement.
fn floored_disp_magnitude(d: Vec2) -> (m: i64)
    requires
        d.bounded(DISP_LIMIT as int),
    ensures
        m == floored_mag_of(d.x as int, d.y as int),
        EPSILON <= m,
        d.x <= m && -m <= d.x,
        d.y <= m && -m <= d.y,
{
    let mg = d.magnitude();
    if mg < EPSILON {
        EPSILON
    } else {
        mg
    }
}

/// Repulsion pass of one step: reset every displacement and accumulate
/// `f_r` over all ordered pairs of distinct nodes.
fn repulsion_phase(graph: &mut Graph, k: i64)
    requires
        old(graph).wf(),
        1 <= k <= IDEAL_LIMIT,
    ensures
        final(graph).wf(),
        final(graph).spec_edges() == old(graph).spec_edges(),
        final(graph).spec_nodes() == repulsion_phase_spec(old(graph).spec_nodes(), k as int),
{
    let ghost orig = graph.spec_nodes();
    let n = graph.node_count();
    let mut v: usize = 0;
    while v < n
        invariant
            graph.wf(),
            1 <= k <= IDEAL_LIMIT,
            n == graph.spec_nodes().len(),
            n == orig.len(),
            v <= n,
            graph.spec_edges() == old(graph).spec_edges(),
            forall|i: int|
                0 <= i < n ==> {
                    let nd = #[trigger] graph.spec_nodes()[i];
                    nd.id == orig[i].id && nd.position == orig[i].position
                },
            forall|i: int|
                0 <= i < v ==> (#[trigger] graph.spec_nodes()[i]).displacement == repulsion_disp(
                    orig,
                    i,
                    n as int,
                    k as int,
                ),
            forall|i: int|
                v <= i < n ==> (#[trigger] graph.spec_nodes()[i]).displacement
                    == orig[i].displacement,
        decreases n - v,
    {
        let pv = graph.node_at(v).position;
        let mut acc = Vec2::zero();
        let mut u: usize = 0;
        while u < n
            invariant
                graph.wf(),
                1 <= k <= IDEAL_LIMIT,
                n == graph.spec_nodes().len(),
                n == orig.len(),
                v < n,
                u <= n,
                forall|i: int|
                    0 <= i < n ==> {
                        let nd = #[trigger] graph.spec_nodes()[i];
                        nd.id == orig[i].id && nd.position == orig[i].position
                    },
                pv == orig[v as int].position,
                acc == repulsion_disp(orig, v as int, u as int, k as int),
                acc.bounded(DISP_LIMIT as int),
            decreases n - u,
        {
            if u != v {
                let pu = graph.node_at(u).position;
                proof {
                    assert(crate::graph::node_state_bounded(graph.spec_nodes()[v as int]));
                    assert(crate::graph::node_state_bounded(graph.spec_nodes()[u as int]));
                    assert(pv == graph.spec_nodes()[v as int].position);
                }
                let dx = pv.x - pu.x;
                let dy = pv.y - pu.y;
                let m = floored_diff_magnitude(pv, pu);
                let kk = mul_i128(
                    k as i128,
                    k as i128,
                    Ghost(IDEAL_LIMIT as int),
                    Ghost(IDEAL_LIMIT as int),
                );
                let m2 = mul_i128(
                    m as i128,
                    m as i128,
                    Ghost(0x3ff_ffff_ffff),
                    Ghost(0x3ff_ffff_ffff),
                );
                proof {
                    assert(m2 > 0) by (nonlinear_arith)
                        requires
                            m2 == m * m,
                            m >= EPSILON,
                    ;
                }
                let cx = sdiv_i128(
                    mul_i128(dx as i128, kk, Ghost(0x200_0000_0000), Ghost(0x10_0000_0000_0000_0000_0000)),
                    m2,
                );
                let cy = sdiv_i128(
                    mul_i128(dy as i128, kk, Ghost(0x200_0000_0000), Ghost(0x10_0000_0000_0000_0000_0000)),
                    m2,
                );
                acc = Vec2 {
                    x: clip_i128((acc.x as i128) + cx, DISP_LIMIT),
                    y: clip_i128((acc.y as i128) + cy, DISP_LIMIT),
                };
            }
            u += 1;
        }
        graph.set_displacement(v, acc);
        v += 1;
    }
    proof {
        assert(graph.spec_nodes() =~= repulsion_phase_spec(orig, k as int));
    }
}

/// The attraction pass only redistributes displacement: lengths,
/// identifiers and positions all stay as they were.
proof fn lemma_attraction_prefix_shape(nodes: Seq<Node>, edges: Seq<Edge>, j: int, k: int)
    requires
        0 <= j <= edges.len(),
        forall|t: int|
            0 <= t < edges.len() ==> (#[trigger] edges[t]).source < nodes.len()
                && edges[t].target < nodes.len(),
    ensures
        attraction_prefix_spec(nodes, edges, j, k).len() == nodes.len(),
        forall|i: int|
            0 <= i < nodes.len() ==> {
                let nd = #[trigger] attraction_prefix_spec(nodes, edges, j, k)[i];
                nd.id == nodes[i].id && nd.position == nodes[i].position
            },
    decreases j,
{
    if j > 0 {
        lemma_attraction_prefix_shape(nodes, edges, j - 1, k);
    }
}

/// Attraction pass of one step: accumulate `f_a` along every edge,
/// pulling both endpoints together.
fn attraction_phase(graph: &mut Graph, k: i64)
    requires
        old(graph).wf(),
        1 <= k <= IDEAL_LIMIT,
    ensures
        final(graph).wf(),
        final(graph).spec_edges() == old(graph).spec_edges(),
        final(graph).spec_nodes() == attraction_prefix_spec(
            old(graph).spec_nodes(),
            old(graph).spec_edges(),
            old(graph).spec_edges().len() as int,
            k as int,
        ),
{
    let ghost orig = graph.spec_nodes();
    let ghost oedges = graph.spec_edges();
    let ecount = graph.edge_count();
    let mut j: usize = 0;
    while j < ecount
        invariant
            graph.wf(),
            1 <= k <= IDEAL_LIMIT,
            graph.spec_edges() == oedges,
            ecount == oedges.len(),
            j <= ecount,
            forall|t: int|
                0 <= t < oedges.len() ==> (#[trigger] oedges[t]).source < orig.len()
                    && oedges[t].target < orig.len(),
            graph.spec_nodes() == attraction_prefix_spec(orig, oedges, j as int, k as int),
        decreases ecount - j,
    {
        proof {
            lemma_attraction_prefix_shape(orig, oedges, j as int, k as int);
            lemma_attraction_prefix_shape(orig, oedges, j as int + 1, k as int);
        }
        let e = graph.edge_at(j);
        let v = e.source;
        let u = e.target;
        let pv = graph.node_at(v).position;
        let pu = graph.node_at(u).position;
        proof {
            assert(crate::graph::node_state_bounded(graph.spec_nodes()[v as int]));
            assert(crate::graph::node_state_bounded(graph.spec_nodes()[u as int]));
        }
        let dx = pv.x - pu.x;
        let dy = pv.y - pu.y;
        let m = floored_diff_magnitude(pv, pu);
        let cx = sdiv_i128(
            mul_i128(dx as i128, m as i128, Ghost(0x200_0000_0000), Ghost(0x3ff_ffff_ffff)),
            k as i128,
        );
        let cy = sdiv_i128(
            mul_i128(dy as i128, m as i128, Ghost(0x200_0000_0000), Ghost(0x3ff_ffff_ffff)),
            k as i128,
        );
        let dv = graph.node_at(v).displacement;
        let nv = Vec2 {
            x: clip_i128((dv.x as i128) - cx, DISP_LIMIT),
            y: clip_i128((dv.y as i128) - cy, DISP_LIMIT),
        };
        graph.set_displacement(v, nv);
        let du = graph.node_at(u).displacement;
        let nu = Vec2 {
            x: clip_i128((du.x as i128) + cx, DISP_LIMIT),
            y: clip_i128((du.y as i128) + cy, DISP_LIMIT),
        };
        graph.set_displacement(u, nu);
        proof {
            assert(graph.spec_nodes() =~= attraction_prefix_spec(
                orig,
                oedges,
                j as int + 1,
                k as int,
            ));
        }
        j += 1;
    }
}

/// Movement pass of one step: move every node along its displacement,
/// capped by the temperature.
fn move_phase(graph: &mut Graph, temperature: i64)
    requires
        old(graph).wf(),
        0 <= temperature <= TEMP_LIMIT,
    ensures
        final(graph).wf(),
        final(graph).spec_edges() == old(graph).spec_edges(),
        final(graph).spec_nodes() == move_phase_spec(old(graph).spec_nodes(), temperature as int),
{
    let ghost orig = graph.spec_nodes();
    let n = graph.node_count();
    let mut v: usize = 0;
    while v < n
        invariant
            graph.wf(),
            0 <= temperature <= TEMP_LIMIT,
            n == graph.spec_nodes().len(),
            n == orig.len(),
            v <= n,
            graph.spec_edges() == old(graph).spec_edges(),
            forall|i: int|
                0 <= i < v ==> #[trigger] graph.spec_nodes()[i] == (Node {
                    id: orig[i].id,
                    position: cooled_position(orig[i], temperature as int),
                    displacement: orig[i].displacement,
                }),
            forall|i: int| v <= i < n ==> #[trigger] graph.spec_nodes()[i] == orig[i],
        decreases n - v,
    {
        let nd = graph.node_at(v);
        proof {
            assert(crate::graph::node_state_bounded(graph.spec_nodes()[v as int]));
        }
        let m = floored_disp_magnitude(nd.displacement);
        let cap = if m < temperature {
            m
        } else {
            temperature
        };
        let mx = sdiv_i128(
            mul_i128(
                nd.displacement.x as i128,
                cap as i128,
                Ghost(DISP_LIMIT as int),
                Ghost(TEMP_LIMIT as int),
            ),
            m as i128,
        );
        let my = sdiv_i128(
            mul_i128(
                nd.displacement.y as i128,
                cap as i128,
                Ghost(DISP_LIMIT as int),
                Ghost(TEMP_LIMIT as int),
            ),
            m as i128,
        );
        let next = Vec2 {
            x: clip_i128((nd.position.x as i128) + mx, COORD_LIMIT),
            y: clip_i128((nd.position.y as i128) + my, COORD_LIMIT),
        };
        graph.set_position(v, next);
        v += 1;
    }
    proof {
        assert(graph.spec_nodes() =~= move_phase_spec(orig, temperature as int));
    }
}

/// Advance the layout by exactly one simulation step; a no-op once the
/// iteration budget is spent or when the graph has no nodes at all.
/// Returns whether the layout is now frozen.  Calling `step` once
/// `iteration == max_iterations` leaves every node position unchanged.
pub fn step(graph: &mut Graph, state: &mut SimulationState, params: &SimulationParameters) -> (converged: bool)
    requires
        old(graph).wf(),
        params.wf(),
        old(state).wf(*params),
    ensures
        final(graph).wf(),
        final(state).wf(*params),
        final(graph).spec_edges() == old(graph).spec_edges(),
        (final(graph).spec_nodes(), *final(state)) == step_spec(
            old(graph).spec_nodes(),
            old(graph).spec_edges(),
            *old(state),
            *params,
        ),
        old(state).iteration >= params.max_iterations ==> final(graph).spec_nodes() == old(
            graph,
        ).spec_nodes() && *final(state) == *old(state),
        converged == (final(state).iteration >= params.max_iterations || old(
            graph,
        ).spec_nodes().len() == 0),
{
    let n = graph.node_count();
    if state.iteration >= params.max_iterations || n == 0 {
        return true;
    }
    repulsion_phase(graph, params.ideal_distance);
    attraction_phase(graph, params.ideal_distance);
    proof {
        lemma_temperature_bounds(*params, old(state).iteration as int);
    }
    move_phase(graph, state.temperature);
    state.iteration = state.iteration + 1;
    state.temperature = temperature_at(params, state.iteration);
    state.iteration >= params.max_iterations
}

/// Run up to `steps` simulation steps back to back.
pub fn advance(
    graph: &mut Graph,
    state: &mut SimulationState,
    params: &SimulationParameters,
    steps: u32,
)
    requires
        old(graph).wf(),
        params.wf(),
        old(state).wf(*params),
    ensures
        final(graph).wf(),
        final(state).wf(*params),
        final(graph).spec_edges() == old(graph).spec_edges(),
        (final(graph).spec_nodes(), *final(state)) == run_spec(
            old(graph).spec_nodes(),
            old(graph).spec_edges(),
            *old(state),
            *params,
            steps as nat,
        ),
{
    let ghost onodes = graph.spec_nodes();
    let ghost oedges = graph.spec_edges();
    let ghost ostate = *state;
    let mut i: u32 = 0;
    while i < steps
        invariant
            graph.wf(),
            params.wf(),
            state.wf(*params),
            i <= steps,
            graph.spec_edges() == oedges,
            run_spec(onodes, oedges, ostate, *params, steps as nat) == run_spec(
                graph.spec_nodes(),
                oedges,
                *state,
                *params,
                (steps - i) as nat,
            ),
        decreases steps - i,
    {
        let _converged = step(graph, state, params);
        i += 1;
    }
}

} // verus!
