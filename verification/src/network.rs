//! One frame of the network: the routing tree, each satellite's health,
//! and what the scene draws for it.
use vstd::prelude::*;
use crate::components::{Satellite, SatelliteModel, SimulationState};
use crate::geometry::{Point, in_scene, line_of_sight, dist2};
use crate::handover::{
    SatData, loss_predicted, predict_link_loss, predictive_reroute, reroute_upto, snapshot_ok, tree_shape,
    distinct_positions, resolved_parents, lemma_resolve_distinct, lemma_shortcut_walk,
};
use crate::metrics::{calculate_satellite_metrics, frame_delta, metrics_step};
use crate::routing::{Network, Parent, connected, search, relay_search, scene_ok, edge, visible, leads_to_station, station_point, relay_path};
use crate::text::{has_text, text_contains};
use crate::visuals::{Tint, health_tint, parent_line, interpret_metrics_to_color, parent_line_tint, inspector_scale};

verus! {

/// A satellite may relay for others when its session is not being set up
/// (no "BROADCAST" or "INIT" and a non-empty status), or when it is
/// rerouting predictively ("RFP").
pub open spec fn ready_for_relay(status: Seq<char>) -> bool {
    (!has_text(status, "BROADCAST"@) && !has_text(status, "INIT"@) && status.len() != 0) || has_text(status, "RFP"@)
}

/// Whether a satellite with this status may relay, as `ready_for_relay` says.
pub fn relay_ready(status: &str) -> (ready: bool)
    ensures
        ready == ready_for_relay(status@),
{
    (!text_contains(status, "BROADCAST") && !text_contains(status, "INIT") && status.unicode_len() != 0)
        || text_contains(status, "RFP")
}

/// Which satellites may join the tree through another satellite: the live
/// ones that are ready to relay.
pub open spec fn relay_eligibility(sats: Seq<Satellite>) -> Seq<bool> {
    Seq::new(sats.len(), |i: int| !sats[i].is_dead && ready_for_relay(sats[i].status_msg@))
}

/// The network as the routing layer sees it.
pub open spec fn snapshot(state: SimulationState, sats: Seq<Satellite>, pos: Seq<Point>) -> Network {
    Network {
        pos,
        eligible: relay_eligibility(sats),
        radius: state.earth_radius,
        max_range: state.max_isl_distance,
        fast_lock: state.satnet_options.opt_fast_link_lock,
    }
}

/// The breadth-first routing tree with its link-loss predictions.
pub open spec fn routing_tree(net: Network, future: Seq<Point>) -> Seq<SatData> {
    let s = search(net);
    Seq::new(
        net.pos.len(),
        |i: int| SatData {
            pos: net.pos[i],
            has_path: s.marked[i],
            parent: s.parent[i],
            will_lose_link: loss_predicted(net, future, s.parent, i),
        },
    )
}

/// The routing layer's view of every satellite for this frame: the tree,
/// its predictions, then predictive rerouting when that option is on.
pub open spec fn network_topology(state: SimulationState, sats: Seq<Satellite>, pos: Seq<Point>, future: Seq<Point>) -> Seq<SatData> {
    let net = snapshot(state, sats, pos);
    let base = routing_tree(net, future);
    if state.satnet_options.opt_rfp_predictable {
        reroute_upto(net, future, base, base.len())
    } else {
        base
    }
}

/// Positions fit the exact geometry and the lists agree in length.
pub open spec fn frame_input_ok(state: SimulationState, n: nat, pos: Seq<Point>, future: Seq<Point>) -> bool {
    &&& pos.len() == n
    &&& snapshot_ok(Network { pos, eligible: Seq::empty(), radius: state.earth_radius, max_range: state.max_isl_distance, fast_lock: state.satnet_options.opt_fast_link_lock }, future)
}

proof fn lemma_no_self_link(a: Point, r: int)
    ensures
        !line_of_sight(a, a, r),
{
    assert(a.x * (a.x - a.x) == 0) by (nonlinear_arith);
    assert(a.y * (a.y - a.y) == 0) by (nonlinear_arith);
    assert(a.z * (a.z - a.z) == 0) by (nonlinear_arith);
    assert((a.x - a.x) * (a.x - a.x) == 0) by (nonlinear_arith);
    assert((a.y - a.y) * (a.y - a.y) == 0) by (nonlinear_arith);
    assert((a.z - a.z) * (a.z - a.z) == 0) by (nonlinear_arith);
    let aa = a.x * a.x + a.y * a.y + a.z * a.z;
    let rr = (1001 * r) * (1001 * r);
    assert(aa * 0 - 0 * 0 == 0) by (nonlinear_arith);
    assert(rr * 0 == 0) by (nonlinear_arith);
}

proof fn lemma_routing_tree_shape(state: SimulationState, sats: Seq<Satellite>, pos: Seq<Point>, future: Seq<Point>)
    requires
        pos.len() == sats.len(),
        sats.len() <= usize::MAX,
    ensures
        routing_tree(snapshot(state, sats, pos), future).len() == sats.len(),
        tree_shape(routing_tree(snapshot(state, sats, pos), future)),
{
    let net = snapshot(state, sats, pos);
    crate::routing::lemma_search_wf(net);
    let s = search(net);
    let base = routing_tree(net, future);
    assert forall|i: int| 0 <= i < base.len() implies {
        &&& (#[trigger] base[i].parent == Parent::Unlinked <==> !base[i].has_path)
        &&& base[i].will_lose_link ==> base[i].has_path
        &&& base[i].parent is Satellite ==> {
            let j = base[i].parent->0;
            j < base.len() && j != i && base[j as int].has_path
        }
    } by {
        assert(base[i].parent == s.parent[i]);
        if s.parent[i] is Satellite {
            let j = s.parent[i]->0;
            assert(edge(net, j as int, i));
            if j == i {
                lemma_no_self_link(pos[i], state.earth_radius as int);
            }
        }
    }
}

/// Whatever the positions, the routing view of a frame has the tree shape:
/// a satellite has a parent exactly when it has a route, a parent satellite
/// is another routed satellite, and only routed satellites are predicted to
/// lose their link.
pub proof fn topology_has_tree_shape(
    state: SimulationState,
    sats: Seq<Satellite>,
    pos: Seq<Point>,
    future: Seq<Point>,
)
    requires
        pos.len() == sats.len(),
        sats.len() <= usize::MAX,
    ensures
        network_topology(state, sats, pos, future).len() == sats.len(),
        tree_shape(network_topology(state, sats, pos, future)),
{
    let net = snapshot(state, sats, pos);
    let base = routing_tree(net, future);
    lemma_routing_tree_shape(state, sats, pos, future);
    if state.satnet_options.opt_rfp_predictable {
        crate::handover::lemma_reroute_shape(net, future, base, base.len());
    }
}

/// Without predictive rerouting, a satellite of the frame's routing view is
/// predicted to lose its link only when it has a parent (the station or a
/// satellite) and its current link to that parent is already longer than
/// four fifths of the usable range (with the hardware lock the whole range;
/// without it four fifths of it).
pub proof fn predicted_losses_are_long_links(
    state: SimulationState,
    sats: Seq<Satellite>,
    pos: Seq<Point>,
    future: Seq<Point>,
)
    requires
        pos.len() == sats.len(),
        !state.satnet_options.opt_rfp_predictable,
    ensures
        forall|i: int| 0 <= i < sats.len() && (#[trigger] network_topology(state, sats, pos, future)[i]).will_lose_link ==> {
            let p = network_topology(state, sats, pos, future)[i].parent;
            let pp = if p is Satellite { pos[p->0 as int] } else { station_point(state.earth_radius) };
            let d = dist2(pos[i], pp);
            let r = state.max_isl_distance as int;
            &&& (p == Parent::Station || (p is Satellite && p->0 < pos.len()))
            &&& r >= 0 ==> if state.satnet_options.opt_fast_link_lock {
                25 * d > 16 * (r * r)
            } else {
                625 * d > 256 * (r * r)
            }
        },
{
}

/// Only a live satellite whose status shows it ready to relay joins the
/// routing tree through another satellite: one that is not setting up a
/// session (its status has neither "BROADCAST" nor "INIT" and is not empty),
/// or one that is rerouting predictively (its status has "RFP").
pub proof fn only_ready_satellites_relay(
    state: SimulationState,
    sats: Seq<Satellite>,
    pos: Seq<Point>,
    future: Seq<Point>,
)
    requires
        pos.len() == sats.len(),
        sats.len() <= usize::MAX,
    ensures
        forall|i: int| 0 <= i < sats.len() && (#[trigger] network_topology(state, sats, pos, future)[i]).parent is Satellite
            ==> {
            let m = sats[i].status_msg@;
            &&& !sats[i].is_dead
            &&& (!has_text(m, "BROADCAST"@) && !has_text(m, "INIT"@) && m.len() != 0) || has_text(m, "RFP"@)
        },
{
    let net = snapshot(state, sats, pos);
    crate::routing::lemma_search_wf(net);
    let s = search(net);
    let base = routing_tree(net, future);
    lemma_routing_tree_shape(state, sats, pos, future);
    if state.satnet_options.opt_rfp_predictable {
        crate::handover::lemma_reroute_keeps_satellite_parents(net, future, base, base.len());
    }
    assert forall|i: int| 0 <= i < sats.len() && (#[trigger] network_topology(state, sats, pos, future)[i]).parent is Satellite
        implies {
        let m = sats[i].status_msg@;
        &&& !sats[i].is_dead
        &&& (!has_text(m, "BROADCAST"@) && !has_text(m, "INIT"@) && m.len() != 0) || has_text(m, "RFP"@)
    } by {
        assert(base[i].parent is Satellite);
        assert(s.parent[i] is Satellite);
        assert(net.eligible[i]);
    }
}

/// A live satellite ready to relay (as `only_ready_satellites_relay` reads
/// its status) that can link to a routed satellite, within the usable range
/// and in sight, is routed too.
pub proof fn ready_neighbours_join(
    state: SimulationState,
    sats: Seq<Satellite>,
    pos: Seq<Point>,
    future: Seq<Point>,
    i: int,
    j: int,
)
    requires
        pos.len() == sats.len(),
        sats.len() <= usize::MAX,
        0 <= i < sats.len(),
        0 <= j < sats.len(),
        network_topology(state, sats, pos, future)[j].has_path,
        !sats[i].is_dead,
        ({
            let m = sats[i].status_msg@;
            (!has_text(m, "BROADCAST"@) && !has_text(m, "INIT"@) && m.len() != 0) || has_text(m, "RFP"@)
        }),
        state.max_isl_distance >= 0,
        ({
            let d = dist2(pos[j], pos[i]);
            let r = state.max_isl_distance as int;
            if state.satnet_options.opt_fast_link_lock { d <= r * r } else { 25 * d <= 16 * (r * r) }
        }),
        line_of_sight(pos[j], pos[i], state.earth_radius as int),
    ensures
        network_topology(state, sats, pos, future)[i].has_path,
{
    let net = snapshot(state, sats, pos);
    crate::routing::lemma_search_wf(net);
    crate::routing::search_is_shortest_hop(net);
    let s = search(net);
    let base = routing_tree(net, future);
    lemma_routing_tree_shape(state, sats, pos, future);
    if state.satnet_options.opt_rfp_predictable {
        crate::handover::lemma_reroute_shape(net, future, base, base.len());
    }
    assert(base[j].has_path);
    assert(s.marked[j]);
    assert(connected(net, j));
    let path = choose|path: Seq<int>| #[trigger] relay_path(net, path) && path.last() == j;
    crate::routing::lemma_path_extend(net, path, i);
    assert(relay_path(net, path.push(i)));
    assert(path.push(i).last() == i);
    assert(s.marked[i]);
    assert(base[i].has_path);
}

/// Builds the routing layer's view of the network for this frame, from each
/// satellite's current and predicted positions (thousandths of a scene unit).
pub fn building_network_topology(
    sim_state: &SimulationState,
    sats: &Vec<Satellite>,
    positions: &Vec<Point>,
    future_positions: &Vec<Point>,
) -> (sat_list: Vec<SatData>)
    requires
        frame_input_ok(*sim_state, sats.len() as nat, positions@, future_positions@),
    ensures
        sat_list@ == network_topology(*sim_state, sats@, positions@, future_positions@),
        sat_list.len() == sats.len(),
        forall|i: int| 0 <= i < sats.len() ==> (#[trigger] sat_list@[i].has_path <==> connected(
            snapshot(*sim_state, sats@, positions@),
            i,
        )),
        tree_shape(sat_list@),
        !sim_state.satnet_options.opt_rfp_predictable ==> forall|i: int| 0 <= i < sats.len() && #[trigger] sat_list@[i].has_path
            ==> leads_to_station(crate::handover::parents_of(sat_list@), i as usize),
        !sim_state.satnet_options.opt_rfp_predictable && distinct_positions(sat_list@) ==> forall|i: int|
            0 <= i < sats.len() && #[trigger] sat_list@[i].has_path ==> leads_to_station(
                resolved_parents(sat_list@, station_point(sim_state.earth_radius)),
                i as usize,
            ),
{
    let ghost net = snapshot(*sim_state, sats@, positions@);
    let n = sats.len();
    let mut eligible: Vec<bool> = Vec::new();
    for i in 0..n
        invariant
            n == sats.len(),
            eligible@ =~= relay_eligibility(sats@).subrange(0, i as int),
    {
        let e = !sats[i].is_dead && relay_ready(sats[i].status_msg.as_str());
        eligible.push(e);
    }
    assert(eligible@ =~= relay_eligibility(sats@));
    let radius = sim_state.earth_radius;
    let max_range = sim_state.max_isl_distance;
    let fast = sim_state.satnet_options.opt_fast_link_lock;
    let (marked, parent) = relay_search(positions, &eligible, radius, max_range, fast);
    let ghost s = search(net);
    let mut sat_list: Vec<SatData> = Vec::new();
    for i in 0..n
        invariant
            n == sats.len(),
            n == positions.len(),
            s == search(net),
            marked@ == s.marked,
            parent@ == s.parent,
            marked@.len() == n,
            parent@.len() == n,
            frame_input_ok(*sim_state, n as nat, positions@, future_positions@),
            radius == sim_state.earth_radius,
            max_range == sim_state.max_isl_distance,
            fast == sim_state.satnet_options.opt_fast_link_lock,
            net == snapshot(*sim_state, sats@, positions@),
            sat_list@ =~= routing_tree(net, future_positions@).subrange(0, i as int),
    {
        let lose = predict_link_loss(positions, future_positions, parent[i], i, radius, max_range, fast);
        sat_list.push(SatData { pos: positions[i], has_path: marked[i], parent: parent[i], will_lose_link: lose });
        assert(lose == loss_predicted(net, future_positions@, s.parent, i as int));
        assert(sat_list@[i as int] == routing_tree(net, future_positions@)[i as int]);
    }
    assert(sat_list@ =~= routing_tree(net, future_positions@));
    proof {
        assert forall|i: int| 0 <= i < sat_list@.len() implies {
            &&& (#[trigger] sat_list@[i].parent == Parent::Unlinked <==> !sat_list@[i].has_path)
            &&& sat_list@[i].will_lose_link ==> sat_list@[i].has_path
            &&& sat_list@[i].parent is Satellite ==> {
                let j = sat_list@[i].parent->0;
                j < sat_list@.len() && j != i && sat_list@[j as int].has_path
            }
        } by {
            assert(sat_list@[i].parent == parent@[i]);
            if parent@[i] is Satellite {
                let j = parent@[i]->0;
                assert(edge(net, j as int, i));
                if j == i {
                    lemma_no_self_link(positions@[i], radius as int);
                }
            }
        }
        assert(crate::handover::parents_of(sat_list@) =~= parent@);
        if distinct_positions(sat_list@) {
            let st = station_point(sim_state.earth_radius);
            let rp = resolved_parents(sat_list@, st);
            assert forall|x: int| 0 <= x < parent@.len() implies #[trigger] rp[x] == parent@[x] || rp[x] == Parent::Station by {
                assert(sat_list@[x].parent == parent@[x]);
                lemma_resolve_distinct(sat_list@, st, x);
            }
            assert forall|i: int| 0 <= i < sats.len() && #[trigger] sat_list@[i].has_path implies leads_to_station(rp, i as usize) by {
                assert(marked@[i]);
                lemma_shortcut_walk(parent@, rp, i as usize);
            }
        }
    }
    if sim_state.satnet_options.opt_rfp_predictable {
        predictive_reroute(&mut sat_list, future_positions, radius, max_range, fast, Ghost(net));
    }
    sat_list
}

/// What the scene draws for one satellite in a frame.
#[derive(Debug, Clone, Copy, PartialEq, Eq, Structural)]
pub struct SatelliteFrame {
    /// Where the satellite's traffic goes; the line is drawn towards it.
    pub parent: Parent,
    pub link_line: Option<Tint>,
    pub color: Tint,
    /// Display scale, thousandths.
    pub scale: u32,
}

/// A satellite after its memory is flushed: empty, alive, without status
/// and without an open session.
pub open spec fn ram_flushed(s: SatelliteModel) -> SatelliteModel {
    SatelliteModel { ram_usage: 0, is_dead: false, status_msg: Seq::empty(), connection_timer: -1_000_000, ..s }
}

/// Flushes a satellite's memory, as `ram_flushed` says.
pub fn reset_satellite_ram(sat: &mut Satellite)
    ensures
        final(sat)@ == ram_flushed(old(sat)@),
{
    sat.ram_usage = 0;
    sat.is_dead = false;
    sat.status_msg = String::new();
    sat.connection_timer = -1_000_000;
}

/// Satellite `i`'s health after the frame, before any memory flush.
pub open spec fn stepped(state: SimulationState, sats: Seq<Satellite>, topo: Seq<SatData>, frame_time: u32, i: int) -> SatelliteModel {
    metrics_step(
        sats[i]@,
        state.current_protocol,
        state.satnet_options,
        topo[i].has_path,
        topo[i].will_lose_link,
        frame_delta(frame_time, state.sim_speed),
    )
}

/// What the scene draws for satellite `i`, from its health after the frame.
pub open spec fn frame_of(state: SimulationState, topo: Seq<SatData>, m: SatelliteModel, i: int) -> SatelliteFrame {
    SatelliteFrame {
        parent: topo[i].parent,
        link_line: parent_line(state.current_protocol, topo[i].parent != Parent::Unlinked, topo[i].has_path, m.status_msg),
        color: health_tint(m),
        scale: if state.selected_satellite_id == Some(m.id) { 2500u32 } else { 1000u32 },
    }
}

/// One frame of the network, unless the simulation is paused: builds the
/// routing view, advances every satellite's health, decides what to draw,
/// and finally carries out a pending memory flush of all satellites.
pub fn update_networks(
    frame_time: u32,
    sim_state: &mut SimulationState,
    sats: &mut Vec<Satellite>,
    positions: &Vec<Point>,
    future_positions: &Vec<Point>,
) -> (frames: Vec<SatelliteFrame>)
    requires
        frame_input_ok(*old(sim_state), old(sats).len() as nat, positions@, future_positions@),
    ensures
        old(sim_state).is_paused ==> {
            &&& *final(sim_state) == *old(sim_state)
            &&& final(sats)@ == old(sats)@
            &&& frames.len() == 0
        },
        !old(sim_state).is_paused ==> {
            let st = *old(sim_state);
            let topo = network_topology(st, old(sats)@, positions@, future_positions@);
            &&& *final(sim_state) == SimulationState { reset_ram: false, ..st }
            &&& final(sats).len() == old(sats).len()
            &&& frames.len() == old(sats).len()
            &&& forall|i: int| 0 <= i < old(sats).len() ==> {
                let m = stepped(st, old(sats)@, topo, frame_time, i);
                &&& (#[trigger] final(sats)@[i])@ == (if st.reset_ram { ram_flushed(m) } else { m })
                &&& frames@[i] == frame_of(st, topo, m, i)
            }
        },
{
    if sim_state.is_paused {
        return Vec::new();
    }
    let ghost st = *sim_state;
    let ghost start = sats@;
    let topo = building_network_topology(sim_state, sats, positions, future_positions);
    let n = sats.len();
    let mut frames: Vec<SatelliteFrame> = Vec::new();
    for i in 0..n
        invariant
            n == sats.len(),
            n == start.len(),
            n == topo.len(),
            *sim_state == st,
            topo@ == network_topology(st, start, positions@, future_positions@),
            frames.len() == i,
            forall|k: int| i <= k < n ==> #[trigger] sats@[k] == start[k],
            forall|k: int| 0 <= k < i ==> (#[trigger] sats@[k])@ == stepped(st, start, topo@, frame_time, k),
            forall|k: int| 0 <= k < i ==> #[trigger] frames@[k] == frame_of(st, topo@, stepped(st, start, topo@, frame_time, k), k),
    {
        let d = topo[i];
        let ghost before = sats@;
        let ghost frames_before = frames@;
        calculate_satellite_metrics(frame_time, sim_state, &mut sats[i], d.has_path, d.will_lose_link);
        let line = parent_line_tint(
            sim_state.current_protocol,
            d.parent != Parent::Unlinked,
            d.has_path,
            sats[i].status_msg.as_str(),
        );
        let color = interpret_metrics_to_color(&sats[i]);
        let scale = inspector_scale(sim_state.selected_satellite_id, sats[i].id);
        frames.push(SatelliteFrame { parent: d.parent, link_line: line, color, scale });
        proof {
            assert(sats@[i as int]@ == stepped(st, start, topo@, frame_time, i as int));
            assert(frames@[i as int] == frame_of(st, topo@, sats@[i as int]@, i as int));
            assert forall|k: int| 0 <= k < n && k != i implies sats@[k] == before[k] by {}
            assert forall|k: int| 0 <= k < i + 1 implies {
                let m = stepped(st, start, topo@, frame_time, k);
                &&& (#[trigger] sats@[k])@ == m
                &&& frames@[k] == frame_of(st, topo@, m, k)
            } by {
                if k < i {
                    assert(sats@[k] == before[k]);
                    assert(frames@[k] == frames_before[k]);
                }
            }
        }
    }
    if sim_state.reset_ram {
        for i in 0..n
            invariant
                n == sats.len(),
                n == start.len(),
                *sim_state == st,
                st.reset_ram,
                topo@ == network_topology(st, start, positions@, future_positions@),
                forall|k: int| i <= k < n ==> (#[trigger] sats@[k])@ == stepped(st, start, topo@, frame_time, k),
                forall|k: int| 0 <= k < i ==> (#[trigger] sats@[k])@ == ram_flushed(stepped(st, start, topo@, frame_time, k)),
        {
            let ghost before = sats@;
            reset_satellite_ram(&mut sats[i]);
            proof {
                assert forall|k: int| 0 <= k < n && k != i implies sats@[k] == before[k] by {}
            }
        }
        sim_state.reset_ram = false;
    }
    frames
}

} // verus!
