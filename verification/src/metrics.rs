//! The health model of one satellite: how a routing protocol's session,
//! processor load and memory evolve from frame to frame.
use vstd::prelude::*;
use crate::components::{RoutingProtocol, SatelliteModel, Satellite, SimulationSatnetPlugin, SimulationState};
use crate::text::{has_text, tenths_text, text_contains, append_tenths};

verus! {

/// Memory (millionths of a megabyte) at which a satellite fails.
pub const RAM_LIMIT: i64 = 25_000_000;

/// The value of `x` saturated to the range of `i64`.
pub open spec fn clamp64(x: int) -> int {
    if x > i64::MAX { i64::MAX as int } else if x < i64::MIN { i64::MIN as int } else { x }
}

/// Saturating addition.
pub fn add_saturating(a: i64, b: i64) -> (r: i64)
    ensures
        r == clamp64(a + b),
{
    let s: i128 = a as i128 + b as i128;
    if s > i64::MAX as i128 {
        i64::MAX
    } else if s < i64::MIN as i128 {
        i64::MIN
    } else {
        s as i64
    }
}

/// Simulated time (millionths of a second) that passes in a frame of
/// `frame_time` millionths of a second at speed `sim_speed` (millionths).
pub open spec fn frame_delta(frame_time: u32, sim_speed: u32) -> int {
    (frame_time as int * sim_speed as int) / 1_000_000
}

/// Computes `frame_delta`.
pub fn scaled_delta(frame_time: u32, sim_speed: u32) -> (d: i64)
    ensures
        d == frame_delta(frame_time, sim_speed),
        0 <= d <= 18_446_744_073_709,
{
    assert(frame_time as u64 * sim_speed as u64 <= 0xffff_ffff * 0xffff_ffffu64) by (nonlinear_arith);
    let p: u64 = frame_time as u64 * sim_speed as u64;
    (p / 1_000_000) as i64
}

pub open spec fn with_status(s: SatelliteModel, msg: Seq<char>) -> SatelliteModel {
    SatelliteModel { status_msg: msg, ..s }
}

pub open spec fn with_cpu(s: SatelliteModel, cpu: int) -> SatelliteModel {
    SatelliteModel { cpu_load: cpu, ..s }
}

pub open spec fn with_ram(s: SatelliteModel, ram: int) -> SatelliteModel {
    SatelliteModel { ram_usage: ram, ..s }
}

pub open spec fn with_timer(s: SatelliteModel, t: int) -> SatelliteModel {
    SatelliteModel { connection_timer: t, ..s }
}

/// Adding `amount` of memory; at the limit the satellite dies.
pub open spec fn ram_added(s: SatelliteModel, amount: int) -> SatelliteModel {
    let r = clamp64(s.ram_usage + amount);
    if r >= RAM_LIMIT {
        SatelliteModel {
            ram_usage: r,
            is_dead: true,
            status_msg: "DEAD: RAM Overflow - system failure"@,
            cpu_load: 0,
            ..s
        }
    } else {
        with_ram(s, r)
    }
}

pub open spec fn ghost_link_text(t: int) -> Seq<char> {
    "GHOST LINK: Missing Hello packets ("@ + tenths_text(t) + "s/6s)"@
}

pub open spec fn ospf_init_text(t: int) -> Seq<char> {
    "OSPF INIT: ("@ + tenths_text(t) + "s/10s)"@
}

pub open spec fn broadcast_text(t: int) -> Seq<char> {
    "OSPF BROADCAST: Electing DR/BDR ("@ + tenths_text(t) + "s/5s)"@
}

pub open spec fn connected_text(opts: SimulationSatnetPlugin) -> Seq<char> {
    "CONNECTED"@
        + (if opts.opt_p2p_mapping { " [P2P]"@ } else { Seq::empty() })
        + (if opts.opt_low_footprint_top { " [AdjacencyList]"@ } else { Seq::empty() })
}

/// A status marked "CRITICAL" pins the processor and memory near their limits.
pub open spec fn critical_pinned(s: SatelliteModel) -> SatelliteModel {
    if has_text(s.status_msg, "CRITICAL"@) {
        with_ram(with_cpu(s, 99_000_000), 24_000_000)
    } else {
        s
    }
}

/// Plain OSPF without a hardware lock keeps a lost link as a "ghost" until
/// the six-second hello timeout, then reports a critical state.
pub open spec fn ghost_link_step(s: SatelliteModel, opts: SimulationSatnetPlugin, delta: int) -> SatelliteModel {
    let s2 = if has_text(s.status_msg, "CONNECTED"@) {
        with_status(with_timer(s, 0), "GHOST LINK: Missing Hello packets (0.0s/6s)"@)
    } else {
        s
    };
    if has_text(s2.status_msg, "GHOST LINK"@) {
        if s2.connection_timer < 6_000_000 {
            let t = clamp64(s2.connection_timer + delta);
            let s3 = with_cpu(with_status(with_timer(s2, t), ghost_link_text(t)), 40_000_000);
            if !opts.opt_low_footprint_top { ram_added(s3, 2 * delta) } else { s3 }
        } else {
            critical_pinned(with_timer(with_status(s2, "CRITICAL: Waiting for Hello Timeout"@), -1_000_000))
        }
    } else {
        critical_pinned(s2)
    }
}

/// A frame in which the satellite has no route to the ground.
pub open spec fn lost_access_step(
    s: SatelliteModel,
    protocol: RoutingProtocol,
    opts: SimulationSatnetPlugin,
    delta: int,
) -> SatelliteModel {
    let s1 = with_cpu(s, 2_000_000);
    if protocol == RoutingProtocol::SatnetOSPF {
        if opts.opt_rfp_predictable {
            with_ram(with_status(s1, "RFP ACTIVE: Rerouted seamlessly"@), 1_800_000)
        } else if opts.opt_fast_link_lock {
            with_timer(with_ram(with_status(s1, "LINK LOST: HW Lock Flag Triggered"@), 1_000_000), -1_000_000)
        } else {
            ghost_link_step(s1, opts, delta)
        }
    } else {
        with_timer(with_ram(with_status(s1, "NO ROUTE TO GROUND"@), 1_000_000), -1_000_000)
    }
}

/// Whether a session has to be (re)started when access is available.
pub open spec fn needs_new_session(s: SatelliteModel) -> bool {
    ||| s.connection_timer < 0
    ||| has_text(s.status_msg, "NO ROUTE"@)
    ||| has_text(s.status_msg, "LINK LOST"@)
    ||| has_text(s.status_msg, "CRITICAL"@)
    ||| has_text(s.status_msg, "GHOST LINK"@)
    ||| has_text(s.status_msg, "BROADCAST"@)
    ||| s.status_msg.len() == 0
}

/// Handshake length of SATNET-OSPF, millionths of a second.
pub open spec fn satnet_handshake(opts: SimulationSatnetPlugin) -> int {
    if opts.opt_p2p_mapping { 300_000 } else { 5_000_000 }
}

/// Base processor load of SATNET-OSPF, millionths of a percent.
pub open spec fn satnet_base_cpu(opts: SimulationSatnetPlugin) -> int {
    if opts.opt_p2p_mapping { 12_000_000 } else { 24_000_000 }
}

pub open spec fn satnet_report(s: SatelliteModel, opts: SimulationSatnetPlugin, will_lose_link: bool) -> SatelliteModel {
    let base = satnet_base_cpu(opts);
    let s1 = with_cpu(s, base);
    if s1.connection_timer < satnet_handshake(opts) {
        if opts.opt_p2p_mapping {
            with_status(s1, "P2P ADJACENCY: Immediate (No DR/BDR)"@)
        } else {
            with_cpu(with_status(s1, broadcast_text(s1.connection_timer)), base + 20_000_000)
        }
    } else if !opts.opt_low_footprint_top && s1.ram_usage > 20_000_000 {
        with_cpu(with_status(s1, "CONNECTED [DB OVERFLOW: Performance Degaded]"@), 80_000_000)
    } else if will_lose_link && opts.opt_rfp_predictable {
        with_cpu(with_status(s1, "RFP: Pre-prerouting to next node..."@), base + 5_000_000)
    } else {
        with_status(s1, connected_text(opts))
    }
}

pub open spec fn satnet_connected_step(
    s: SatelliteModel,
    opts: SimulationSatnetPlugin,
    will_lose_link: bool,
    delta: int,
) -> SatelliteModel {
    if opts.opt_low_footprint_top {
        let s1 = if s.ram_usage < 1_800_000 { with_ram(s, 1_800_000) } else { s };
        satnet_report(s1, opts, will_lose_link)
    } else {
        let s1 = if s.ram_usage < 8_500_000 { with_ram(s, 8_500_000) } else { s };
        let s2 = ram_added(s1, 2 * delta);
        if s2.is_dead { s2 } else { satnet_report(s2, opts, will_lose_link) }
    }
}

/// Memory of a contact-graph router after `t` seconds of storing and forwarding.
pub open spec fn cgr_ram(t: int) -> int {
    let r = 5_000_000 + t + t / 2;
    if r < 25_000_000 { r } else { 25_000_000 }
}

/// A frame in which the satellite has a route to the ground.
pub open spec fn with_access_step(
    s: SatelliteModel,
    protocol: RoutingProtocol,
    opts: SimulationSatnetPlugin,
    will_lose_link: bool,
    delta: int,
) -> SatelliteModel {
    let s1 = if needs_new_session(s) {
        with_ram(with_status(with_timer(s, 0), "INIT"@), 8_500_000)
    } else {
        s
    };
    let s2 = with_timer(s1, clamp64(s1.connection_timer + delta));
    let t = s2.connection_timer;
    match protocol {
        RoutingProtocol::TerrestrialOSPF => {
            let s3 = with_ram(with_cpu(s2, 85_000_000), 32_400_000);
            if t < 10_000_000 {
                with_status(s3, ospf_init_text(t))
            } else {
                with_cpu(with_status(s3, "TIMEOUT: Link dropped before SPF Conv."@), 99_500_000)
            }
        },
        RoutingProtocol::SatnetOSPF => satnet_connected_step(s2, opts, will_lose_link, delta),
        RoutingProtocol::ContactGraphRouting => {
            let r = cgr_ram(t);
            let s3 = with_ram(with_cpu(s2, 20_000_000), r);
            if r > 25_000_000 {
                with_status(s3, "RAM OVERFLOW: Buffer Full!"@)
            } else {
                with_status(s3, "STORE & FORWARD: Routing data"@)
            }
        },
        RoutingProtocol::CentralizedSDN => {
            let s3 = with_cpu(with_ram(s2, 4_500_000), 15_000_000);
            if t < 4_000_000 {
                with_status(s3, "AWAITING SDN CONTROLLER FLOW..."@)
            } else {
                with_status(s3, "SDN ROUTE ACTIVE"@)
            }
        },
    }
}

/// One frame of the health model for a satellite, given whether it has a
/// route to the ground, whether its link is predicted to break, and the
/// simulated time `delta` that passed.
pub open spec fn metrics_step(
    s: SatelliteModel,
    protocol: RoutingProtocol,
    opts: SimulationSatnetPlugin,
    has_network_access: bool,
    will_lose_link: bool,
    delta: int,
) -> SatelliteModel {
    if s.is_dead {
        s
    } else if will_lose_link && opts.opt_rfp_predictable {
        with_status(s, "RFP: Pre-routing to next node..."@)
    } else if !has_network_access {
        lost_access_step(s, protocol, opts, delta)
    } else {
        with_access_step(s, protocol, opts, will_lose_link, delta)
    }
}

/// A live satellite that has a route in a frame (and is not handing over
/// predictively) restarts its session when the session is broken or still
/// unsettled: a negative timer, or a status with "NO ROUTE", "LINK LOST",
/// "CRITICAL", "GHOST LINK" or "BROADCAST", or no status at all. Then its
/// timer holds just this frame's time, and under SATNET-OSPF its memory
/// starts again from 8.5 MB (growing by this frame's allowance without the
/// low-footprint topology). Any other session keeps counting its timer.
pub proof fn session_restart_laws(
    s: SatelliteModel,
    protocol: RoutingProtocol,
    opts: SimulationSatnetPlugin,
    will_lose_link: bool,
    delta: int,
)
    requires
        !s.is_dead,
        !(will_lose_link && opts.opt_rfp_predictable),
        0 <= delta <= 18_446_744_073_709,
    ensures
        ({
            let r = metrics_step(s, protocol, opts, true, will_lose_link, delta);
            let m = s.status_msg;
            let restart = s.connection_timer < 0 || has_text(m, "NO ROUTE"@) || has_text(m, "LINK LOST"@)
                || has_text(m, "CRITICAL"@) || has_text(m, "GHOST LINK"@) || has_text(m, "BROADCAST"@)
                || m.len() == 0;
            &&& restart ==> r.connection_timer == delta
            &&& restart && protocol == RoutingProtocol::SatnetOSPF && opts.opt_low_footprint_top
                ==> r.ram_usage == 8_500_000
            &&& restart && protocol == RoutingProtocol::SatnetOSPF && !opts.opt_low_footprint_top
                ==> r.ram_usage == 8_500_000 + 2 * delta
            &&& !restart && s.connection_timer + delta <= i64::MAX ==> r.connection_timer == s.connection_timer + delta
        }),
{
}

/// What a frame without a route does to a live satellite (that is not
/// handing over predictively): its processor drops to 2 %. Outside
/// SATNET-OSPF it reports no route, with 1 MB of memory and no session.
/// Under SATNET-OSPF with predictive rerouting its memory is 1.8 MB; with
/// the hardware lock (and no predictive rerouting) it holds 1 MB and no
/// session. Plain SATNET-OSPF keeps a ghost link: a connected session turns
/// into one with its timer at zero, a ghost link younger than six seconds
/// ages by this frame at 40 % processor, and an older one becomes critical,
/// with no session, 99 % processor and 24 MB of memory.
pub proof fn lost_route_laws(
    s: SatelliteModel,
    protocol: RoutingProtocol,
    opts: SimulationSatnetPlugin,
    will_lose_link: bool,
    delta: int,
)
    requires
        !s.is_dead,
        !(will_lose_link && opts.opt_rfp_predictable),
        0 <= delta <= 18_446_744_073_709,
        i64::MIN <= s.connection_timer <= i64::MAX,
    ensures
        ({
            let r = metrics_step(s, protocol, opts, false, will_lose_link, delta);
            let m = s.status_msg;
            let plain = protocol == RoutingProtocol::SatnetOSPF && !opts.opt_rfp_predictable && !opts.opt_fast_link_lock;
            let t0 = if has_text(m, "CONNECTED"@) { 0 } else { s.connection_timer };
            let ghost_link = has_text(m, "CONNECTED"@) || has_text(m, "GHOST LINK"@);
            &&& protocol != RoutingProtocol::SatnetOSPF ==> r.cpu_load == 2_000_000 && r.ram_usage == 1_000_000
                && r.connection_timer == -1_000_000 && r.status_msg == "NO ROUTE TO GROUND"@
            &&& protocol == RoutingProtocol::SatnetOSPF && opts.opt_rfp_predictable ==> r.cpu_load == 2_000_000
                && r.ram_usage == 1_800_000 && r.connection_timer == s.connection_timer
            &&& protocol == RoutingProtocol::SatnetOSPF && !opts.opt_rfp_predictable && opts.opt_fast_link_lock
                ==> r.cpu_load == 2_000_000 && r.ram_usage == 1_000_000 && r.connection_timer == -1_000_000
            &&& plain && ghost_link && t0 < 6_000_000 && t0 + delta <= i64::MAX ==> r.connection_timer == t0 + delta
                && (r.is_dead || r.cpu_load == 40_000_000)
            &&& plain && ghost_link && t0 >= 6_000_000 ==> r.connection_timer == -1_000_000 && r.cpu_load == 99_000_000
                && r.ram_usage == 24_000_000
        }),
{
    let m = s.status_msg;
    if has_text(m, "CONNECTED"@) {
        let g = "GHOST LINK: Missing Hello packets (0.0s/6s)"@;
        reveal_strlit("GHOST LINK: Missing Hello packets (0.0s/6s)");
        reveal_strlit("GHOST LINK");
        assert(g.subrange(0, 10) =~= "GHOST LINK"@);
        crate::text::lemma_text_at(g, "GHOST LINK"@, 0);
    }
    reveal_strlit("CRITICAL: Waiting for Hello Timeout");
    reveal_strlit("CRITICAL");
    assert("CRITICAL: Waiting for Hello Timeout"@.subrange(0, 8) =~= "CRITICAL"@);
    crate::text::lemma_text_at("CRITICAL: Waiting for Hello Timeout"@, "CRITICAL"@, 0);
}

/// What a frame with a route does, protocol by protocol, to a live
/// satellite (that is not handing over predictively), with `t` the
/// session's age after this frame (this frame alone when the session
/// restarts, as `session_restart_laws` says). Terrestrial OSPF holds
/// 32.4 MB at 85 % processor until ten seconds, then 99.5 %; the SDN
/// controller mode holds 4.5 MB at 15 %; contact-graph routing runs at 20 %
/// with 5 MB plus 1.5 MB a second, capped at 25 MB; SATNET-OSPF during its
/// handshake (0.3 s with the point-to-point mapping, 5 s without) runs at
/// 12 % with the mapping and at 44 % while electing without it.
pub proof fn route_step_laws(
    s: SatelliteModel,
    protocol: RoutingProtocol,
    opts: SimulationSatnetPlugin,
    will_lose_link: bool,
    delta: int,
)
    requires
        !s.is_dead,
        !(will_lose_link && opts.opt_rfp_predictable),
        0 <= delta <= 18_446_744_073_709,
        s.connection_timer + delta <= i64::MAX,
    ensures
        ({
            let r = metrics_step(s, protocol, opts, true, will_lose_link, delta);
            let m = s.status_msg;
            let restart = s.connection_timer < 0 || has_text(m, "NO ROUTE"@) || has_text(m, "LINK LOST"@)
                || has_text(m, "CRITICAL"@) || has_text(m, "GHOST LINK"@) || has_text(m, "BROADCAST"@)
                || m.len() == 0;
            let t = if restart { delta } else { s.connection_timer + delta };
            &&& r.connection_timer == t
            &&& protocol == RoutingProtocol::TerrestrialOSPF ==> r.ram_usage == 32_400_000
                && r.cpu_load == (if t < 10_000_000 { 85_000_000int } else { 99_500_000int })
            &&& protocol == RoutingProtocol::CentralizedSDN ==> r.ram_usage == 4_500_000 && r.cpu_load == 15_000_000
            &&& protocol == RoutingProtocol::ContactGraphRouting ==> r.cpu_load == 20_000_000
                && r.ram_usage == (if 5_000_000 + t + t / 2 < 25_000_000 { 5_000_000 + t + t / 2 } else { 25_000_000 })
            &&& protocol == RoutingProtocol::SatnetOSPF && !r.is_dead && t < (if opts.opt_p2p_mapping { 300_000int } else { 5_000_000int })
                ==> r.cpu_load == (if opts.opt_p2p_mapping { 12_000_000int } else { 44_000_000int })
        }),
{
}

/// Adds `amount` of memory use; when the memory reaches the limit the
/// satellite dies. Returns whether it is still alive.
pub fn update_ram_is_ok(sat: &mut Satellite, amount: i64) -> (ok: bool)
    ensures
        final(sat)@ == ram_added(old(sat)@, amount as int),
        ok == (clamp64(old(sat).ram_usage + amount) < RAM_LIMIT),
{
    sat.ram_usage = add_saturating(sat.ram_usage, amount);
    if sat.ram_usage >= RAM_LIMIT {
        sat.is_dead = true;
        sat.status_msg = String::from_str("DEAD: RAM Overflow - system failure");
        sat.cpu_load = 0;
        return false;
    }
    true
}

fn status_has(sat: &Satellite, pat: &str) -> (b: bool)
    ensures
        b == has_text(sat.status_msg@, pat@),
{
    text_contains(sat.status_msg.as_str(), pat)
}

fn lost_access(sat: &mut Satellite, protocol: RoutingProtocol, opts: SimulationSatnetPlugin, delta: i64)
    requires
        0 <= delta <= 18_446_744_073_709,
    ensures
        final(sat)@ == lost_access_step(old(sat)@, protocol, opts, delta as int),
{
    sat.cpu_load = 2_000_000;
    if protocol == RoutingProtocol::SatnetOSPF {
        if opts.opt_rfp_predictable {
            sat.status_msg = String::from_str("RFP ACTIVE: Rerouted seamlessly");
            sat.ram_usage = 1_800_000;
        } else if opts.opt_fast_link_lock {
            sat.status_msg = String::from_str("LINK LOST: HW Lock Flag Triggered");
            sat.ram_usage = 1_000_000;
            sat.connection_timer = -1_000_000;
        } else {
            if status_has(sat, "CONNECTED") {
                sat.connection_timer = 0;
                sat.status_msg = String::from_str("GHOST LINK: Missing Hello packets (0.0s/6s)");
            }
            if status_has(sat, "GHOST LINK") {
                if sat.connection_timer < 6_000_000 {
                    sat.connection_timer = add_saturating(sat.connection_timer, delta);
                    let mut msg = String::from_str("GHOST LINK: Missing Hello packets (");
                    append_tenths(&mut msg, sat.connection_timer);
                    msg.append("s/6s)");
                    sat.status_msg = msg;
                    sat.cpu_load = 40_000_000;
                    if !opts.opt_low_footprint_top {
                        if !update_ram_is_ok(sat, delta * 2) {
                            return;
                        }
                    }
                    return;
                } else {
                    sat.status_msg = String::from_str("CRITICAL: Waiting for Hello Timeout");
                    sat.connection_timer = -1_000_000;
                }
            }
            if status_has(sat, "CRITICAL") {
                sat.cpu_load = 99_000_000;
                sat.ram_usage = 24_000_000;
            }
        }
    } else {
        sat.status_msg = String::from_str("NO ROUTE TO GROUND");
        sat.ram_usage = 1_000_000;
        sat.connection_timer = -1_000_000;
    }
}

fn satnet_connected(sat: &mut Satellite, opts: SimulationSatnetPlugin, will_lose_link: bool, delta: i64)
    requires
        0 <= delta <= 18_446_744_073_709,
        !old(sat).is_dead,
    ensures
        final(sat)@ == satnet_connected_step(old(sat)@, opts, will_lose_link, delta as int),
{
    let handshake_time: i64 = if opts.opt_p2p_mapping { 300_000 } else { 5_000_000 };
    let base_cpu: i64 = if opts.opt_p2p_mapping { 12_000_000 } else { 24_000_000 };
    if opts.opt_low_footprint_top {
        if sat.ram_usage < 1_800_000 {
            sat.ram_usage = 1_800_000;
        }
    } else {
        if sat.ram_usage < 8_500_000 {
            sat.ram_usage = 8_500_000;
        }
        if !update_ram_is_ok(sat, delta * 2) {
            return;
        }
    }
    sat.cpu_load = base_cpu;
    if sat.connection_timer < handshake_time {
        if opts.opt_p2p_mapping {
            sat.status_msg = String::from_str("P2P ADJACENCY: Immediate (No DR/BDR)");
        } else {
            let mut msg = String::from_str("OSPF BROADCAST: Electing DR/BDR (");
            append_tenths(&mut msg, sat.connection_timer);
            msg.append("s/5s)");
            sat.status_msg = msg;
            sat.cpu_load = sat.cpu_load + 20_000_000;
        }
    } else {
        if !opts.opt_low_footprint_top && sat.ram_usage > 20_000_000 {
            sat.status_msg = String::from_str("CONNECTED [DB OVERFLOW: Performance Degaded]");
            sat.cpu_load = 80_000_000;
        } else if will_lose_link && opts.opt_rfp_predictable {
            sat.status_msg = String::from_str("RFP: Pre-prerouting to next node...");
            sat.cpu_load = sat.cpu_load + 5_000_000;
        } else {
            let mut msg = String::from_str("CONNECTED");
            if opts.opt_p2p_mapping {
                msg.append(" [P2P]");
            }
            if opts.opt_low_footprint_top {
                msg.append(" [AdjacencyList]");
            }
            sat.status_msg = msg;
        }
    }
}

fn with_access(
    sat: &mut Satellite,
    protocol: RoutingProtocol,
    opts: SimulationSatnetPlugin,
    will_lose_link: bool,
    delta: i64,
)
    requires
        0 <= delta <= 18_446_744_073_709,
        !old(sat).is_dead,
    ensures
        final(sat)@ == with_access_step(old(sat)@, protocol, opts, will_lose_link, delta as int),
{
    if sat.connection_timer < 0
        || status_has(sat, "NO ROUTE")
        || status_has(sat, "LINK LOST")
        || status_has(sat, "CRITICAL")
        || status_has(sat, "GHOST LINK")
        || status_has(sat, "BROADCAST")
        || sat.status_msg.as_str().unicode_len() == 0
    {
        sat.connection_timer = 0;
        sat.status_msg = String::from_str("INIT");
        sat.ram_usage = 8_500_000;
    }
    sat.connection_timer = add_saturating(sat.connection_timer, delta);
    match protocol {
        RoutingProtocol::TerrestrialOSPF => {
            sat.cpu_load = 85_000_000;
            sat.ram_usage = 32_400_000;
            if sat.connection_timer < 10_000_000 {
                let mut msg = String::from_str("OSPF INIT: (");
                append_tenths(&mut msg, sat.connection_timer);
                msg.append("s/10s)");
                sat.status_msg = msg;
            } else {
                sat.status_msg = String::from_str("TIMEOUT: Link dropped before SPF Conv.");
                sat.cpu_load = 99_500_000;
            }
        },
        RoutingProtocol::SatnetOSPF => {
            satnet_connected(sat, opts, will_lose_link, delta);
        },
        RoutingProtocol::ContactGraphRouting => {
            sat.cpu_load = 20_000_000;
            let t: i128 = sat.connection_timer as i128;
            let r: i128 = 5_000_000 + t + t / 2;
            sat.ram_usage = if r < 25_000_000 { r as i64 } else { 25_000_000 };
            if sat.ram_usage > 25_000_000 {
                sat.status_msg = String::from_str("RAM OVERFLOW: Buffer Full!");
            } else {
                sat.status_msg = String::from_str("STORE & FORWARD: Routing data");
            }
        },
        RoutingProtocol::CentralizedSDN => {
            sat.ram_usage = 4_500_000;
            sat.cpu_load = 15_000_000;
            if sat.connection_timer < 4_000_000 {
                sat.status_msg = String::from_str("AWAITING SDN CONTROLLER FLOW...");
            } else {
                sat.status_msg = String::from_str("SDN ROUTE ACTIVE");
            }
        },
    }
}

/// Advances a satellite's health by one frame of `frame_time` millionths of
/// a second, scaled by the simulation speed.
pub fn calculate_satellite_metrics(
    frame_time: u32,
    sim_state: &SimulationState,
    sat: &mut Satellite,
    has_network_access: bool,
    will_lose_link: bool,
)
    ensures
        final(sat)@ == metrics_step(
            old(sat)@,
            sim_state.current_protocol,
            sim_state.satnet_options,
            has_network_access,
            will_lose_link,
            frame_delta(frame_time, sim_state.sim_speed),
        ),
{
    if sat.is_dead {
        return;
    }
    if will_lose_link && sim_state.satnet_options.opt_rfp_predictable {
        sat.status_msg = String::from_str("RFP: Pre-routing to next node...");
        return;
    }
    let delta = scaled_delta(frame_time, sim_state.sim_speed);
    if !has_network_access {
        lost_access(sat, sim_state.current_protocol, sim_state.satnet_options, delta);
        return;
    }
    with_access(sat, sim_state.current_protocol, sim_state.satnet_options, will_lose_link, delta);
}

/// The health model never touches a satellite's identity or orbit.
pub open spec fn same_body(a: SatelliteModel, b: SatelliteModel) -> bool {
    &&& a.id == b.id
    &&& a.orbit_radius == b.orbit_radius
    &&& a.current_angle == b.current_angle
    &&& a.orbit_speed == b.orbit_speed
    &&& a.inclination == b.inclination
    &&& a.lan == b.lan
}

proof fn lemma_ram_added_body(s: SatelliteModel, amount: int)
    ensures
        same_body(s, ram_added(s, amount)),
        ram_added(s, amount).is_dead == (s.is_dead || clamp64(s.ram_usage + amount) >= RAM_LIMIT),
{
}

/// A failed satellite stays exactly as it is, whatever happens around it;
/// every frame keeps the satellite's identity and orbit; and a live
/// satellite can only fail under SATNET-OSPF without the low-footprint
/// topology, by reaching the memory limit.
pub proof fn health_step_laws(
    s: SatelliteModel,
    protocol: RoutingProtocol,
    opts: SimulationSatnetPlugin,
    has_network_access: bool,
    will_lose_link: bool,
    delta: int,
)
    ensures
        s.is_dead ==> metrics_step(s, protocol, opts, has_network_access, will_lose_link, delta) == s,
        same_body(s, metrics_step(s, protocol, opts, has_network_access, will_lose_link, delta)),
        !s.is_dead && metrics_step(s, protocol, opts, has_network_access, will_lose_link, delta).is_dead ==> {
            &&& protocol == RoutingProtocol::SatnetOSPF
            &&& !opts.opt_low_footprint_top
            &&& metrics_step(s, protocol, opts, has_network_access, will_lose_link, delta).ram_usage >= RAM_LIMIT
        },
{
    let s1 = with_cpu(s, 2_000_000);
    let s2 = if has_text(s1.status_msg, "CONNECTED"@) {
        with_status(with_timer(s1, 0), "GHOST LINK: Missing Hello packets (0.0s/6s)"@)
    } else {
        s1
    };
    let t = clamp64(s2.connection_timer + delta);
    lemma_ram_added_body(with_cpu(with_status(with_timer(s2, t), ghost_link_text(t)), 40_000_000), 2 * delta);
    let a1 = if needs_new_session(s) {
        with_ram(with_status(with_timer(s, 0), "INIT"@), 8_500_000)
    } else {
        s
    };
    let a2 = with_timer(a1, clamp64(a1.connection_timer + delta));
    let b1 = if a2.ram_usage < 8_500_000 { with_ram(a2, 8_500_000) } else { a2 };
    lemma_ram_added_body(b1, 2 * delta);
}

/// With the hardware link lock (and without predictive rerouting), a
/// SATNET-OSPF satellite that loses its route reports the lost link at once
/// and closes its session; it never lingers as a ghost link.
pub proof fn hardware_lock_reports_lost_links(
    s: SatelliteModel,
    opts: SimulationSatnetPlugin,
    will_lose_link: bool,
    delta: int,
)
    requires
        !s.is_dead,
        opts.opt_fast_link_lock,
        !opts.opt_rfp_predictable,
    ensures
        ({
            let r = metrics_step(s, RoutingProtocol::SatnetOSPF, opts, false, will_lose_link, delta);
            &&& r.status_msg == "LINK LOST: HW Lock Flag Triggered"@
            &&& r.connection_timer == -1_000_000
            &&& r.ram_usage == 1_000_000
            &&& r.cpu_load == 2_000_000
            &&& !r.is_dead
        }),
{
}

/// With predictive rerouting, a SATNET-OSPF satellite whose link is about
/// to break or already lost keeps reporting a rerouted service and does not
/// fail.
pub proof fn predictive_rerouting_keeps_service(
    s: SatelliteModel,
    opts: SimulationSatnetPlugin,
    has_network_access: bool,
    will_lose_link: bool,
    delta: int,
)
    requires
        !s.is_dead,
        opts.opt_rfp_predictable,
        will_lose_link || !has_network_access,
    ensures
        ({
            let r = metrics_step(s, RoutingProtocol::SatnetOSPF, opts, has_network_access, will_lose_link, delta);
            &&& !r.is_dead
            &&& r.status_msg == (if will_lose_link { "RFP: Pre-routing to next node..."@ } else {
                "RFP ACTIVE: Rerouted seamlessly"@
            })
        }),
{
}

/// With the point-to-point mapping, SATNET-OSPF never holds a broadcast
/// DR/BDR election: no frame reports one.
pub proof fn p2p_mapping_skips_election(
    s: SatelliteModel,
    opts: SimulationSatnetPlugin,
    has_network_access: bool,
    will_lose_link: bool,
    delta: int,
    t: int,
)
    requires
        !s.is_dead,
        opts.opt_p2p_mapping,
        has_network_access,
    ensures
        metrics_step(s, RoutingProtocol::SatnetOSPF, opts, has_network_access, will_lose_link, delta).status_msg
            != broadcast_text(t),
{
    let r = metrics_step(s, RoutingProtocol::SatnetOSPF, opts, has_network_access, will_lose_link, delta);
    reveal_strlit("OSPF BROADCAST: Electing DR/BDR (");
    reveal_strlit("RFP: Pre-routing to next node...");
    reveal_strlit("P2P ADJACENCY: Immediate (No DR/BDR)");
    reveal_strlit("CONNECTED [DB OVERFLOW: Performance Degaded]");
    reveal_strlit("RFP: Pre-prerouting to next node...");
    reveal_strlit("CONNECTED");
    reveal_strlit("DEAD: RAM Overflow - system failure");
    let b = broadcast_text(t);
    assert(b[0] == 'O');
    let c = connected_text(opts);
    assert(c[0] == 'C');
    assert(r.status_msg.len() > 0 && r.status_msg[0] != 'O');
}

/// With the low-footprint topology, a live SATNET-OSPF satellite never
/// fails and never reports a link-state database overflow.
pub proof fn low_footprint_prevents_overflow(
    s: SatelliteModel,
    opts: SimulationSatnetPlugin,
    has_network_access: bool,
    will_lose_link: bool,
    delta: int,
)
    requires
        !s.is_dead,
        opts.opt_low_footprint_top,
    ensures
        !metrics_step(s, RoutingProtocol::SatnetOSPF, opts, has_network_access, will_lose_link, delta).is_dead,
        metrics_step(s, RoutingProtocol::SatnetOSPF, opts, has_network_access, will_lose_link, delta).status_msg
            != "CONNECTED [DB OVERFLOW: Performance Degaded]"@,
{
    health_step_laws(s, RoutingProtocol::SatnetOSPF, opts, has_network_access, will_lose_link, delta);
    let r = metrics_step(s, RoutingProtocol::SatnetOSPF, opts, has_network_access, will_lose_link, delta);
    reveal_strlit("CONNECTED [DB OVERFLOW: Performance Degaded]");
    reveal_strlit("CONNECTED");
    reveal_strlit(" [P2P]");
    reveal_strlit(" [AdjacencyList]");
    let lit = "CONNECTED [DB OVERFLOW: Performance Degaded]"@;
    assert(lit.subrange(0, 9) =~= "CONNECTED"@);
    crate::text::lemma_text_at(lit, "CONNECTED"@, 0);
    reveal_strlit("RFP: Pre-routing to next node...");
    reveal_strlit("RFP ACTIVE: Rerouted seamlessly");
    reveal_strlit("LINK LOST: HW Lock Flag Triggered");
    reveal_strlit("GHOST LINK: Missing Hello packets (0.0s/6s)");
    reveal_strlit("GHOST LINK: Missing Hello packets (");
    reveal_strlit("CRITICAL: Waiting for Hello Timeout");
    reveal_strlit("P2P ADJACENCY: Immediate (No DR/BDR)");
    reveal_strlit("OSPF BROADCAST: Electing DR/BDR (");
    reveal_strlit("RFP: Pre-prerouting to next node...");
    assert forall|t: int| (#[trigger] ghost_link_text(t))[0] == 'G' by {}
    assert forall|t: int| (#[trigger] broadcast_text(t))[0] == 'O' by {}
    if has_network_access && !(will_lose_link && opts.opt_rfp_predictable) {
        let c = connected_text(opts);
        if c == lit {
            if opts.opt_p2p_mapping {
                assert(c[11] == 'P');
            } else {
                assert(c[11] == 'A');
            }
            assert(lit[11] == 'D');
        }
    }
}

} // verus!
