use space_router::components::{RoutingProtocol, Satellite, SimulationSatnetPlugin, SimulationState};
use space_router::metrics::{add_saturating, calculate_satellite_metrics, scaled_delta, update_ram_is_ok};

fn sat(status: &str, timer: i64, ram: i64) -> Satellite {
    Satellite {
        id: 7,
        orbit_radius: 4_000,
        current_angle: 0,
        orbit_speed: 400_000,
        inclination: 785_398,
        lan: 0,
        connection_timer: timer,
        ram_usage: ram,
        cpu_load: 5_000_000,
        status_msg: status.to_string(),
        is_dead: false,
    }
}

fn state(protocol: RoutingProtocol, p2p: bool, low: bool, fast: bool, rfp: bool) -> SimulationState {
    let mut s = SimulationState::default();
    s.current_protocol = protocol;
    s.sim_speed = 1_000_000;
    s.earth_radius = 2_500;
    s.max_isl_distance = 6_000;
    s.satnet_options = SimulationSatnetPlugin {
        opt_p2p_mapping: p2p,
        opt_fast_link_lock: fast,
        opt_rfp_predictable: rfp,
        opt_low_footprint_top: low,
    };
    s
}

const FRAME: u32 = 100_000;

#[test]
fn delta_scales_with_speed() {
    assert_eq!(scaled_delta(100_000, 1_000_000), 100_000);
    assert_eq!(scaled_delta(16_667, 800_000), 13_333);
    assert_eq!(scaled_delta(u32::MAX, u32::MAX), 18_446_744_065_119);
    assert_eq!(add_saturating(i64::MAX, 1), i64::MAX);
    assert_eq!(add_saturating(i64::MIN, -1), i64::MIN);
    assert_eq!(add_saturating(-5, 3), -2);
}

#[test]
fn dead_satellite_is_untouched() {
    let st = state(RoutingProtocol::SatnetOSPF, false, false, false, false);
    let mut s = sat("DEAD: RAM Overflow - system failure", 3, 26_000_000);
    s.is_dead = true;
    s.cpu_load = 0;
    calculate_satellite_metrics(FRAME, &st, &mut s, true, true);
    assert!(s.is_dead);
    assert_eq!(s.status_msg, "DEAD: RAM Overflow - system failure");
    assert_eq!((s.connection_timer, s.ram_usage, s.cpu_load), (3, 26_000_000, 0));
}

#[test]
fn ram_limit_kills() {
    let mut s = sat("CONNECTED", 0, 24_900_000);
    assert!(!update_ram_is_ok(&mut s, 200_000));
    assert!(s.is_dead);
    assert_eq!(s.ram_usage, 25_100_000);
    assert_eq!(s.cpu_load, 0);
    assert_eq!(s.status_msg, "DEAD: RAM Overflow - system failure");
    let mut t = sat("CONNECTED", 0, 1_000_000);
    assert!(update_ram_is_ok(&mut t, 200_000));
    assert!(!t.is_dead);
    assert_eq!(t.ram_usage, 1_200_000);
}

#[test]
fn terrestrial_ospf_handshake_then_timeout() {
    let st = state(RoutingProtocol::TerrestrialOSPF, false, false, false, false);
    let mut s = sat("OK", 0, 1_000_000);
    calculate_satellite_metrics(FRAME, &st, &mut s, true, false);
    assert_eq!(s.status_msg, "OSPF INIT: (0.1s/10s)");
    assert_eq!((s.connection_timer, s.ram_usage, s.cpu_load), (100_000, 32_400_000, 85_000_000));
    s.connection_timer = 9_950_000;
    calculate_satellite_metrics(FRAME, &st, &mut s, true, false);
    assert_eq!(s.status_msg, "TIMEOUT: Link dropped before SPF Conv.");
    assert_eq!(s.cpu_load, 99_500_000);
    assert_eq!(s.connection_timer, 10_050_000);
}

#[test]
fn vanilla_satnet_keeps_electing() {
    let st = state(RoutingProtocol::SatnetOSPF, false, false, false, false);
    let mut s = sat("OK", 0, 1_000_000);
    calculate_satellite_metrics(FRAME, &st, &mut s, true, false);
    assert_eq!(s.status_msg, "OSPF BROADCAST: Electing DR/BDR (0.1s/5s)");
    assert_eq!((s.connection_timer, s.ram_usage, s.cpu_load), (100_000, 8_700_000, 44_000_000));
    calculate_satellite_metrics(FRAME, &st, &mut s, true, false);
    assert_eq!(s.status_msg, "OSPF BROADCAST: Electing DR/BDR (0.1s/5s)");
    assert_eq!((s.connection_timer, s.ram_usage), (100_000, 8_700_000));
}

#[test]
fn p2p_satnet_connects_after_handshake() {
    let st = state(RoutingProtocol::SatnetOSPF, true, false, false, false);
    let mut s = sat("OK", 0, 1_000_000);
    calculate_satellite_metrics(FRAME, &st, &mut s, true, false);
    assert_eq!(s.status_msg, "P2P ADJACENCY: Immediate (No DR/BDR)");
    assert_eq!(s.cpu_load, 12_000_000);
    calculate_satellite_metrics(FRAME, &st, &mut s, true, false);
    calculate_satellite_metrics(FRAME, &st, &mut s, true, false);
    assert_eq!(s.connection_timer, 300_000);
    assert_eq!(s.status_msg, "CONNECTED [P2P]");
    assert_eq!(s.ram_usage, 9_100_000);
}

#[test]
fn low_footprint_keeps_memory_low() {
    let st = state(RoutingProtocol::SatnetOSPF, true, true, false, false);
    let mut s = sat("OK", 0, 1_000_000);
    for _ in 0..10 {
        calculate_satellite_metrics(FRAME, &st, &mut s, true, false);
    }
    assert_eq!(s.status_msg, "CONNECTED [P2P] [AdjacencyList]");
    assert_eq!(s.ram_usage, 1_800_000);
    assert!(!s.is_dead);
}

#[test]
fn db_overflow_then_failure_without_low_footprint() {
    let st = state(RoutingProtocol::SatnetOSPF, true, false, false, false);
    let mut s = sat("CONNECTED [P2P]", 1_000_000, 20_000_000);
    calculate_satellite_metrics(FRAME, &st, &mut s, true, false);
    assert_eq!(s.status_msg, "CONNECTED [DB OVERFLOW: Performance Degaded]");
    assert_eq!((s.ram_usage, s.cpu_load), (20_200_000, 80_000_000));
    s.ram_usage = 24_900_000;
    calculate_satellite_metrics(FRAME, &st, &mut s, true, false);
    assert!(s.is_dead);
    assert_eq!(s.status_msg, "DEAD: RAM Overflow - system failure");
}

#[test]
fn ghost_link_then_critical() {
    let st = state(RoutingProtocol::SatnetOSPF, false, false, false, false);
    let mut s = sat("CONNECTED", 2_000_000, 9_000_000);
    calculate_satellite_metrics(FRAME, &st, &mut s, false, false);
    assert_eq!(s.status_msg, "GHOST LINK: Missing Hello packets (0.1s/6s)");
    assert_eq!((s.connection_timer, s.ram_usage, s.cpu_load), (100_000, 9_200_000, 40_000_000));
    s.connection_timer = 6_000_000;
    calculate_satellite_metrics(FRAME, &st, &mut s, false, false);
    assert_eq!(s.status_msg, "CRITICAL: Waiting for Hello Timeout");
    assert_eq!((s.connection_timer, s.ram_usage, s.cpu_load), (-1_000_000, 24_000_000, 99_000_000));
    calculate_satellite_metrics(FRAME, &st, &mut s, true, false);
    assert_eq!(s.status_msg, "OSPF BROADCAST: Electing DR/BDR (0.1s/5s)");
}

#[test]
fn hardware_lock_reports_link_loss() {
    let st = state(RoutingProtocol::SatnetOSPF, true, true, true, false);
    let mut s = sat("CONNECTED [P2P] [AdjacencyList]", 2_000_000, 1_800_000);
    calculate_satellite_metrics(FRAME, &st, &mut s, false, false);
    assert_eq!(s.status_msg, "LINK LOST: HW Lock Flag Triggered");
    assert_eq!((s.connection_timer, s.ram_usage, s.cpu_load), (-1_000_000, 1_000_000, 2_000_000));
}

#[test]
fn predictive_rerouting_statuses() {
    let st = state(RoutingProtocol::SatnetOSPF, true, true, true, true);
    let mut s = sat("CONNECTED [P2P] [AdjacencyList]", 2_000_000, 1_800_000);
    calculate_satellite_metrics(FRAME, &st, &mut s, true, true);
    assert_eq!(s.status_msg, "RFP: Pre-routing to next node...");
    assert_eq!((s.connection_timer, s.ram_usage, s.cpu_load), (2_000_000, 1_800_000, 5_000_000));
    calculate_satellite_metrics(FRAME, &st, &mut s, false, false);
    assert_eq!(s.status_msg, "RFP ACTIVE: Rerouted seamlessly");
    assert_eq!((s.ram_usage, s.cpu_load), (1_800_000, 2_000_000));
}

#[test]
fn other_protocols_without_route() {
    let st = state(RoutingProtocol::CentralizedSDN, false, false, false, false);
    let mut s = sat("SDN ROUTE ACTIVE", 5_000_000, 4_500_000);
    calculate_satellite_metrics(FRAME, &st, &mut s, false, false);
    assert_eq!(s.status_msg, "NO ROUTE TO GROUND");
    assert_eq!((s.connection_timer, s.ram_usage, s.cpu_load), (-1_000_000, 1_000_000, 2_000_000));
    calculate_satellite_metrics(FRAME, &st, &mut s, true, false);
    assert_eq!(s.status_msg, "AWAITING SDN CONTROLLER FLOW...");
    assert_eq!((s.connection_timer, s.ram_usage, s.cpu_load), (100_000, 4_500_000, 15_000_000));
    s.connection_timer = 3_900_000;
    calculate_satellite_metrics(FRAME, &st, &mut s, true, false);
    assert_eq!(s.status_msg, "SDN ROUTE ACTIVE");
}

#[test]
fn contact_graph_buffers_fill() {
    let st = state(RoutingProtocol::ContactGraphRouting, false, false, false, false);
    let mut s = sat("OK", 0, 1_000_000);
    calculate_satellite_metrics(FRAME, &st, &mut s, true, false);
    assert_eq!(s.status_msg, "STORE & FORWARD: Routing data");
    assert_eq!((s.connection_timer, s.ram_usage, s.cpu_load), (100_000, 5_150_000, 20_000_000));
    s.connection_timer = 20_000_000;
    calculate_satellite_metrics(FRAME, &st, &mut s, true, false);
    assert_eq!(s.ram_usage, 25_000_000);
    assert_eq!(s.status_msg, "STORE & FORWARD: Routing data");
}

#[test]
fn flushed_satellite_starts_a_new_session() {
    let st = state(RoutingProtocol::TerrestrialOSPF, false, false, false, false);
    let mut s = sat("", -1_000_000, 0);
    calculate_satellite_metrics(FRAME, &st, &mut s, true, false);
    assert_eq!(s.status_msg, "OSPF INIT: (0.1s/10s)");
    assert_eq!(s.connection_timer, 100_000);
}
