//! The control panel's decisions: what each control does to the settings,
//! how the optimisations depend on each other, and what the inspector shows.
use vstd::prelude::*;
use crate::components::{RoutingProtocol, Satellite, SimulationSatnetPlugin, SimulationState};
use crate::text::{decimal_text, tenths_text, append_tenths, append_decimal};

verus! {

/// A colour with 8-bit channels.
#[derive(Debug, Clone, Copy, PartialEq, Eq, Structural)]
pub struct Rgb8 {
    pub r: u8,
    pub g: u8,
    pub b: u8,
}

/// The optimisations after enforcing their order: each one stays on only
/// when the one before it is on.
pub open spec fn chained(o: SimulationSatnetPlugin) -> SimulationSatnetPlugin {
    let low = o.opt_low_footprint_top && o.opt_p2p_mapping;
    let fast = o.opt_fast_link_lock && low;
    let rfp = o.opt_rfp_predictable && fast;
    SimulationSatnetPlugin {
        opt_p2p_mapping: o.opt_p2p_mapping,
        opt_low_footprint_top: low,
        opt_fast_link_lock: fast,
        opt_rfp_predictable: rfp,
    }
}

/// The optimisations are enabled in order: predictive rerouting needs the
/// hardware lock, which needs the low-footprint topology, which needs the
/// point-to-point mapping.
pub open spec fn in_order(o: SimulationSatnetPlugin) -> bool {
    &&& o.opt_rfp_predictable ==> o.opt_fast_link_lock
    &&& o.opt_fast_link_lock ==> o.opt_low_footprint_top
    &&& o.opt_low_footprint_top ==> o.opt_p2p_mapping
}

/// Switches off every optimisation whose predecessor is off, as `chained` says.
pub fn enforce_optimization_order(opts: &mut SimulationSatnetPlugin)
    ensures
        *final(opts) == chained(*old(opts)),
        in_order(*final(opts)),
{
    if !opts.opt_p2p_mapping {
        opts.opt_low_footprint_top = false;
    }
    if !opts.opt_low_footprint_top {
        opts.opt_fast_link_lock = false;
    }
    if !opts.opt_fast_link_lock {
        opts.opt_rfp_predictable = false;
    }
}

/// Enforcing the order changes nothing on settings already in order, and
/// enforcing it twice is the same as once.
pub proof fn chained_laws(o: SimulationSatnetPlugin)
    ensures
        in_order(chained(o)),
        in_order(o) ==> chained(o) == o,
        chained(chained(o)) == chained(o),
{
}

pub open spec fn flag(b: bool) -> nat {
    if b { 1 } else { 0 }
}

/// How many optimisations are on.
pub open spec fn level_of(o: SimulationSatnetPlugin) -> nat {
    flag(o.opt_p2p_mapping) + flag(o.opt_low_footprint_top) + flag(o.opt_fast_link_lock) + flag(o.opt_rfp_predictable)
}

/// Counts the optimisations that are on.
pub fn optimization_level(opts: &SimulationSatnetPlugin) -> (level: u8)
    ensures
        level == level_of(*opts),
{
    let mut level: u8 = 0;
    if opts.opt_p2p_mapping {
        level = level + 1;
    }
    if opts.opt_low_footprint_top {
        level = level + 1;
    }
    if opts.opt_fast_link_lock {
        level = level + 1;
    }
    if opts.opt_rfp_predictable {
        level = level + 1;
    }
    level
}

/// With the optimisations in order, the level says exactly which are on:
/// the first `level` of them.
pub proof fn level_names_the_stage(o: SimulationSatnetPlugin)
    requires
        in_order(o),
    ensures
        o.opt_p2p_mapping == (level_of(o) >= 1),
        o.opt_low_footprint_top == (level_of(o) >= 2),
        o.opt_fast_link_lock == (level_of(o) >= 3),
        o.opt_rfp_predictable == (level_of(o) >= 4),
{
}

/// The badge shown for an optimisation level.
pub open spec fn level_badge_text(level: u8) -> Seq<char> {
    if level == 0 {
        "● Vanilla OSPF (no optimizations)"@
    } else if level == 1 {
        "● OSPF + P2P  [faster handshake]"@
    } else if level == 2 {
        "● OSPF + P2P + LF  [stable memory]"@
    } else if level == 3 {
        "● OSPF + HW Lock  [no ghost links]"@
    } else if level == 4 {
        "⚡ FULL SATNET-OSPF"@
    } else {
        ""@
    }
}

pub open spec fn level_badge_rgb(level: u8) -> Rgb8 {
    if level == 0 {
        Rgb8 { r: 255, g: 0, b: 0 }
    } else if level == 1 {
        Rgb8 { r: 255, g: 255, b: 0 }
    } else if level == 2 {
        Rgb8 { r: 255, g: 165, b: 0 }
    } else if level == 3 {
        Rgb8 { r: 100, g: 220, b: 100 }
    } else if level == 4 {
        Rgb8 { r: 0, g: 200, b: 255 }
    } else {
        Rgb8 { r: 255, g: 255, b: 255 }
    }
}

/// The text and colour of the badge for an optimisation level.
pub fn level_badge(level: u8) -> (badge: (&'static str, Rgb8))
    ensures
        badge.0@ == level_badge_text(level),
        badge.1 == level_badge_rgb(level),
{
    if level == 0 {
        ("● Vanilla OSPF (no optimizations)", Rgb8 { r: 255, g: 0, b: 0 })
    } else if level == 1 {
        ("● OSPF + P2P  [faster handshake]", Rgb8 { r: 255, g: 255, b: 0 })
    } else if level == 2 {
        ("● OSPF + P2P + LF  [stable memory]", Rgb8 { r: 255, g: 165, b: 0 })
    } else if level == 3 {
        ("● OSPF + HW Lock  [no ghost links]", Rgb8 { r: 100, g: 220, b: 100 })
    } else if level == 4 {
        ("⚡ FULL SATNET-OSPF", Rgb8 { r: 0, g: 200, b: 255 })
    } else {
        ("", Rgb8 { r: 255, g: 255, b: 255 })
    }
}

/// What the user did on the control panel.
#[derive(Debug, Clone, Copy, PartialEq, Eq, Structural)]
pub enum GuiEvent {
    TogglePause,
    ChooseProtocol(RoutingProtocol),
    SetP2pMapping(bool),
    SetLowFootprint(bool),
    SetFastLinkLock(bool),
    SetPredictiveRfp(bool),
    /// Millionths.
    SetSpeed(u32),
    /// Thousandths of a scene unit.
    SetEarthRadius(i64),
    /// Thousandths of a scene unit.
    SetMaxIslDistance(i64),
    SnapBackToReality,
    ResetAllRam,
    ClickSatellite(u32),
}

/// `v` limited to `lo..=hi`.
pub open spec fn clamp_to(v: int, lo: int, hi: int) -> int {
    if v < lo { lo } else if v > hi { hi } else { v }
}

/// The settings after one control-panel event. Switching an optimisation
/// keeps the enable-in-order chain (as `chained` says). Sliders keep their values
/// within their ranges (speed 0 to 5, planet radius 1 to 8, link range 0 to
/// 25 units); clicking a satellite selects it, or clears the selection when
/// it was already selected.
pub open spec fn after_event(s: SimulationState, ev: GuiEvent) -> SimulationState {
    match ev {
        GuiEvent::TogglePause => SimulationState { is_paused: !s.is_paused, ..s },
        GuiEvent::ChooseProtocol(p) => SimulationState { current_protocol: p, ..s },
        GuiEvent::SetP2pMapping(b) => SimulationState {
            satnet_options: chained(SimulationSatnetPlugin { opt_p2p_mapping: b, ..s.satnet_options }),
            ..s
        },
        GuiEvent::SetLowFootprint(b) => SimulationState {
            satnet_options: chained(SimulationSatnetPlugin { opt_low_footprint_top: b, ..s.satnet_options }),
            ..s
        },
        GuiEvent::SetFastLinkLock(b) => SimulationState {
            satnet_options: chained(SimulationSatnetPlugin { opt_fast_link_lock: b, ..s.satnet_options }),
            ..s
        },
        GuiEvent::SetPredictiveRfp(b) => SimulationState {
            satnet_options: chained(SimulationSatnetPlugin { opt_rfp_predictable: b, ..s.satnet_options }),
            ..s
        },
        GuiEvent::SetSpeed(v) => SimulationState { sim_speed: clamp_to(v as int, 0, 5_000_000) as u32, ..s },
        GuiEvent::SetEarthRadius(v) => SimulationState { earth_radius: clamp_to(v as int, 1_000, 8_000) as i64, ..s },
        GuiEvent::SetMaxIslDistance(v) => SimulationState {
            max_isl_distance: clamp_to(v as int, 0, 25_000) as i64,
            ..s
        },
        GuiEvent::SnapBackToReality => SimulationState {
            sim_speed: 800_000,
            earth_radius: 2_500,
            max_isl_distance: 2_000,
            ..s
        },
        GuiEvent::ResetAllRam => SimulationState { reset_ram: true, ..s },
        GuiEvent::ClickSatellite(id) => SimulationState {
            selected_satellite_id: if s.selected_satellite_id == Some(id) { None } else { Some(id) },
            ..s
        },
    }
}

/// Applies one control-panel event, as `after_event` says. An option event
/// leaves the optimisations in order, and no event breaks that order.
#[verifier::rlimit(40)]
pub fn apply_gui_event(sim_state: &mut SimulationState, ev: GuiEvent)
    ensures
        *final(sim_state) == after_event(*old(sim_state), ev),
        in_order(old(sim_state).satnet_options) ==> in_order(final(sim_state).satnet_options),
        (ev is SetP2pMapping || ev is SetLowFootprint || ev is SetFastLinkLock || ev is SetPredictiveRfp)
            ==> in_order(final(sim_state).satnet_options),
{
    match ev {
        GuiEvent::TogglePause => {
            sim_state.is_paused = !sim_state.is_paused;
        },
        GuiEvent::ChooseProtocol(p) => {
            sim_state.current_protocol = p;
        },
        GuiEvent::SetP2pMapping(b) => {
            sim_state.satnet_options.opt_p2p_mapping = b;
            enforce_optimization_order(&mut sim_state.satnet_options);
        },
        GuiEvent::SetLowFootprint(b) => {
            sim_state.satnet_options.opt_low_footprint_top = b;
            enforce_optimization_order(&mut sim_state.satnet_options);
        },
        GuiEvent::SetFastLinkLock(b) => {
            sim_state.satnet_options.opt_fast_link_lock = b;
            enforce_optimization_order(&mut sim_state.satnet_options);
        },
        GuiEvent::SetPredictiveRfp(b) => {
            sim_state.satnet_options.opt_rfp_predictable = b;
            enforce_optimization_order(&mut sim_state.satnet_options);
        },
        GuiEvent::SetSpeed(v) => {
            sim_state.sim_speed = if v > 5_000_000 { 5_000_000 } else { v };
        },
        GuiEvent::SetEarthRadius(v) => {
            sim_state.earth_radius = if v < 1_000 { 1_000 } else if v > 8_000 { 8_000 } else { v };
        },
        GuiEvent::SetMaxIslDistance(v) => {
            sim_state.max_isl_distance = if v < 0 { 0 } else if v > 25_000 { 25_000 } else { v };
        },
        GuiEvent::SnapBackToReality => {
            sim_state.sim_speed = 800_000;
            sim_state.earth_radius = 2_500;
            sim_state.max_isl_distance = 2_000;
        },
        GuiEvent::ResetAllRam => {
            sim_state.reset_ram = true;
        },
        GuiEvent::ClickSatellite(id) => {
            let is_selected = match sim_state.selected_satellite_id {
                Some(s) => s == id,
                None => false,
            };
            if is_selected {
                sim_state.selected_satellite_id = None;
            } else {
                sim_state.selected_satellite_id = Some(id);
            }
        },
    }
}

/// Clicking the same satellite twice leaves the selection as it was when
/// that satellite or none was selected; toggling pause twice restores it.
pub proof fn toggles_undo(s: SimulationState, id: u32)
    ensures
        (s.selected_satellite_id == Some(id) || s.selected_satellite_id.is_none()) ==> after_event(
            after_event(s, GuiEvent::ClickSatellite(id)),
            GuiEvent::ClickSatellite(id),
        ) == s,
        after_event(after_event(s, GuiEvent::TogglePause), GuiEvent::TogglePause) == s,
{
}

/// Label of the pause button.
pub fn pause_button_label(is_paused: bool) -> (label: &'static str)
    ensures
        label@ == (if is_paused { "play"@ } else { "pause"@ }),
{
    if is_paused { "play" } else { "pause" }
}

/// "Speed: <speed with one decimal>x".
pub fn speed_label(sim_speed: u32) -> (label: String)
    ensures
        label@ == "Speed: "@ + tenths_text(sim_speed as int) + "x"@,
{
    let mut label = String::from_str("Speed: ");
    append_tenths(&mut label, sim_speed as i64);
    label.append("x");
    label
}

pub open spec fn id_text(id: u32) -> Seq<char> {
    decimal_text(id as nat)
}

/// "Sat #<id>: [<status>]", the inspector's list entry for a satellite.
pub fn satellite_entry_label(sat: &Satellite) -> (label: String)
    ensures
        label@ == "Sat #"@ + id_text(sat.id) + ": ["@ + sat.status_msg@ + "]"@,
{
    let mut label = String::from_str("Sat #");
    append_decimal(&mut label, sat.id as u64);
    label.append(": [");
    label.append(sat.status_msg.as_str());
    label.append("]");
    label
}

/// The inspector's detail lines for the selected satellite.
pub fn satellite_details(sat: &Satellite) -> (lines: Vec<String>)
    ensures
        lines.len() == 5,
        lines@[0]@ == "Details Sat #"@ + id_text(sat.id),
        lines@[1]@ == "Status: "@ + sat.status_msg@,
        lines@[2]@ == "Connection Time: "@ + tenths_text(sat.connection_timer as int) + "s"@,
        lines@[3]@ == "CPU load: "@ + tenths_text(sat.cpu_load as int) + "%"@,
        lines@[4]@ == "RAM: "@ + tenths_text(sat.ram_usage as int) + " / 25.0 MB"@,
{
    let mut title = String::from_str("Details Sat #");
    append_decimal(&mut title, sat.id as u64);
    let mut status = String::from_str("Status: ");
    status.append(sat.status_msg.as_str());
    let mut timer = String::from_str("Connection Time: ");
    append_tenths(&mut timer, sat.connection_timer);
    timer.append("s");
    let mut cpu = String::from_str("CPU load: ");
    append_tenths(&mut cpu, sat.cpu_load);
    cpu.append("%");
    let mut ram = String::from_str("RAM: ");
    append_tenths(&mut ram, sat.ram_usage);
    ram.append(" / 25.0 MB");
    let mut lines: Vec<String> = Vec::new();
    lines.push(title);
    lines.push(status);
    lines.push(timer);
    lines.push(cpu);
    lines.push(ram);
    lines
}

/// Share of the memory limit in use, thousandths, limited to 0..=1000.
pub open spec fn ram_share(ram_usage: int) -> int {
    clamp_to(ram_usage / 25_000, 0, 1000)
}

/// Computes `ram_share`.
pub fn ram_ratio(ram_usage: i64) -> (share: u16)
    ensures
        share == ram_share(ram_usage as int),
{
    if ram_usage < 0 {
        return 0;
    }
    let q = ram_usage / 25_000;
    if q > 1000 { 1000 } else { q as u16 }
}

/// Colour of the memory bar: red above 80 % of the limit, yellow above
/// half, green otherwise.
pub fn ram_bar_color(ram_usage: i64) -> (c: Rgb8)
    ensures
        c == (if ram_usage > 20_000_000 {
            Rgb8 { r: 255, g: 0, b: 0 }
        } else if ram_usage > 12_500_000 {
            Rgb8 { r: 255, g: 255, b: 0 }
        } else {
            Rgb8 { r: 0, g: 255, b: 0 }
        }),
{
    if ram_usage > 20_000_000 {
        Rgb8 { r: 255, g: 0, b: 0 }
    } else if ram_usage > 12_500_000 {
        Rgb8 { r: 255, g: 255, b: 0 }
    } else {
        Rgb8 { r: 0, g: 255, b: 0 }
    }
}

/// The link-state database warning shows above 15 MB without the
/// low-footprint topology.
pub fn lsdb_warning(ram_usage: i64, opts: &SimulationSatnetPlugin) -> (warn: bool)
    ensures
        warn == (ram_usage > 15_000_000 && !opts.opt_low_footprint_top),
{
    ram_usage > 15_000_000 && !opts.opt_low_footprint_top
}

/// Satellite `x` is listed before satellite `y`: smaller id first, the
/// earlier one first among equal ids.
pub open spec fn listed_before(ids: Seq<u32>, x: int, y: int) -> bool {
    ids[x] < ids[y] || (ids[x] == ids[y] && x < y)
}

/// Index `x` occurs in `order`.
pub open spec fn appears(order: Seq<usize>, x: int) -> bool {
    exists|a: int| 0 <= a < order.len() && #[trigger] order[a] == x
}

/// The inspector's list order: every satellite index exactly once, sorted
/// by id, equal ids keeping their original order.
pub open spec fn inspector_sorted(ids: Seq<u32>, order: Seq<usize>) -> bool {
    &&& order.len() == ids.len()
    &&& forall|a: int| 0 <= a < order.len() ==> (#[trigger] order[a]) < ids.len()
    &&& forall|a: int, b: int| 0 <= a < b < order.len() ==> listed_before(ids, #[trigger] order[a] as int, #[trigger] order[b] as int)
    &&& forall|x: int| 0 <= x < ids.len() ==> #[trigger] appears(order, x)
}

/// The order in which the inspector lists satellites with these ids, as
/// `inspector_sorted` says (a stable sort by id).
pub fn inspector_order(ids: &Vec<u32>) -> (order: Vec<usize>)
    ensures
        inspector_sorted(ids@, order@),
{
    let n = ids.len();
    let mut order: Vec<usize> = Vec::new();
    for x in 0..n
        invariant
            n == ids.len(),
            order.len() == x,
            forall|a: int| 0 <= a < order.len() ==> (#[trigger] order@[a]) < x,
            forall|a: int, b: int| 0 <= a < b < order.len() ==> listed_before(ids@, #[trigger] order@[a] as int, #[trigger] order@[b] as int),
            forall|y: int| 0 <= y < x ==> #[trigger] appears(order@, y),
    {
        let key = ids[x];
        let mut p: usize = 0;
        while p < order.len() && ids[order[p]] <= key
            invariant
                n == ids.len(),
                x < n,
                key == ids@[x as int],
                order.len() == x,
                p <= order.len(),
                forall|a: int| 0 <= a < order.len() ==> (#[trigger] order@[a]) < x,
                forall|a: int| 0 <= a < p ==> ids@[#[trigger] order@[a] as int] <= key,
            decreases order.len() - p,
        {
            p = p + 1;
        }
        let ghost before = order@;
        proof {
            assert forall|a: int| p <= a < before.len() implies ids@[#[trigger] before[a] as int] > key by {
                if p < before.len() {
                    assert(ids@[before[p as int] as int] > key);
                    if a > p {
                        assert(listed_before(ids@, before[p as int] as int, before[a] as int));
                    }
                }
            }
        }
        order.insert(p, x);
        proof {
            assert(order@ == before.insert(p as int, x));
            assert forall|a: int| 0 <= a < order.len() implies (#[trigger] order@[a]) < x + 1 by {
                if a < p {
                    assert(order@[a] == before[a]);
                } else if a > p {
                    assert(order@[a] == before[a - 1]);
                }
            }
            assert forall|a: int, b: int| 0 <= a < b < order.len() implies listed_before(ids@, #[trigger] order@[a] as int, #[trigger] order@[b] as int) by {
                if a < p && b < p {
                    assert(order@[a] == before[a] && order@[b] == before[b]);
                } else if a < p && b == p {
                    assert(order@[a] == before[a]);
                } else if a < p && b > p {
                    assert(order@[a] == before[a] && order@[b] == before[b - 1]);
                } else if a == p {
                    assert(order@[b] == before[b - 1]);
                } else {
                    assert(order@[a] == before[a - 1] && order@[b] == before[b - 1]);
                }
            }
            assert forall|y: int| 0 <= y < x + 1 implies #[trigger] appears(order@, y) by {
                if y == x {
                    assert(order@[p as int] == y);
                } else {
                    assert(appears(before, y));
                    let a = choose|a: int| 0 <= a < before.len() && #[trigger] before[a] == y;
                    if a < p {
                        assert(order@[a] == y);
                    } else {
                        assert(order@[a + 1] == y);
                    }
                }
            }
        }
    }
    order
}

} // verus!
