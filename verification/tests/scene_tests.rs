use space_router::components::{Earth, GroundStation, RoutingProtocol, Satellite, SimulationSatnetPlugin, SimulationState};
use space_router::constellation::{advance_orbits, setup_constellation};
use space_router::geometry::Point;
use space_router::network::{reset_satellite_ram, update_networks, SatelliteFrame};
use space_router::routing::Parent;
use space_router::visuals::{get_protocol_line_color, inspector_scale, interpret_metrics_to_color, parent_line_tint, Tint};

fn sat(id: u32, status: &str) -> Satellite {
    Satellite {
        id,
        orbit_radius: 4_000,
        current_angle: 0,
        orbit_speed: 400_000,
        inclination: 0,
        lan: 0,
        connection_timer: 0,
        ram_usage: 1_000_000,
        cpu_load: 5_000_000,
        status_msg: status.to_string(),
        is_dead: false,
    }
}

#[test]
fn defaults() {
    assert_eq!(RoutingProtocol::default(), RoutingProtocol::TerrestrialOSPF);
    let s = SimulationState::default();
    assert_eq!(s.sim_speed, 0);
    assert!(!s.is_paused && !s.reset_ram);
    assert_eq!(s.selected_satellite_id, None);
    assert_eq!(s.satnet_options, SimulationSatnetPlugin::default());
    assert!(!s.satnet_options.opt_p2p_mapping);
    let _ = (Earth, GroundStation {});
}

#[test]
fn constellation_layout() {
    let mut st = SimulationState::default();
    st.selected_satellite_id = Some(3);
    let sats = setup_constellation(&mut st);
    assert_eq!((st.sim_speed, st.earth_radius, st.max_isl_distance, st.reset_ram), (1_000_000, 2_500, 6_000, false));
    assert_eq!(st.selected_satellite_id, Some(3));
    assert_eq!(sats.len(), 48);
    for (i, s) in sats.iter().enumerate() {
        assert_eq!(s.id as usize, i);
        assert_eq!(s.status_msg, "OK");
        assert_eq!(s.orbit_radius, 4_000);
        assert_eq!(s.inclination, 785_398);
    }
    assert_eq!(sats[1].current_angle, 785_398);
    assert_eq!(sats[8].lan, 1_047_197);
    assert_eq!(sats[8].current_angle, 0);
    assert_eq!(sats[47].lan, 5_235_987);
    assert_eq!(sats[47].current_angle, 5_497_786);
}

#[test]
fn orbits_advance_unless_paused() {
    let mut st = SimulationState::default();
    st.sim_speed = 1_000_000;
    let mut sats = vec![sat(0, "OK"), sat(1, "OK")];
    sats[1].orbit_speed = -400_000;
    advance_orbits(100_000, &st, &mut sats);
    assert_eq!(sats[0].current_angle, 40_000);
    assert_eq!(sats[1].current_angle, -40_000);
    st.is_paused = true;
    advance_orbits(100_000, &st, &mut sats);
    assert_eq!(sats[0].current_angle, 40_000);
}

#[test]
fn colours() {
    let mut s = sat(0, "CONNECTED [P2P]");
    assert_eq!(interpret_metrics_to_color(&s), Tint { r: 0, g: 1000, b: 0 });
    s.status_msg = "RFP ACTIVE: Rerouted seamlessly".to_string();
    assert_eq!(interpret_metrics_to_color(&s), Tint { r: 0, g: 500, b: 1000 });
    s.status_msg = "GHOST LINK: Missing Hello packets (0.1s/6s)".to_string();
    assert_eq!(interpret_metrics_to_color(&s), Tint { r: 0, g: 0, b: 1000 });
    s.status_msg = "OSPF INIT: (0.1s/10s)".to_string();
    assert_eq!(interpret_metrics_to_color(&s), Tint { r: 1000, g: 500, b: 0 });
    s.status_msg = "LINK LOST: HW Lock Flag Triggered".to_string();
    assert_eq!(interpret_metrics_to_color(&s), Tint { r: 500, g: 500, b: 500 });
    s.status_msg = "SDN ROUTE ACTIVE".to_string();
    assert_eq!(interpret_metrics_to_color(&s), Tint { r: 0, g: 1000, b: 0 });
    s.cpu_load = 99_000_000;
    assert_eq!(interpret_metrics_to_color(&s), Tint { r: 1000, g: 0, b: 0 });
    s.cpu_load = 0;
    s.is_dead = true;
    assert_eq!(interpret_metrics_to_color(&s), Tint { r: 1000, g: 0, b: 0 });
    assert_eq!(get_protocol_line_color(&RoutingProtocol::TerrestrialOSPF), Tint { r: 1000, g: 300, b: 0 });
    assert_eq!(get_protocol_line_color(&RoutingProtocol::CentralizedSDN), Tint { r: 0, g: 800, b: 1000 });
    assert_eq!(parent_line_tint(RoutingProtocol::SatnetOSPF, true, true, "x"), Some(Tint { r: 0, g: 1000, b: 0 }));
    assert_eq!(parent_line_tint(RoutingProtocol::SatnetOSPF, true, false, "GHOST LINK: x"), Some(Tint { r: 1000, g: 0, b: 0 }));
    assert_eq!(parent_line_tint(RoutingProtocol::SatnetOSPF, true, false, "NO ROUTE TO GROUND"), None);
    assert_eq!(parent_line_tint(RoutingProtocol::SatnetOSPF, false, true, "CONNECTED"), None);
    assert_eq!(inspector_scale(Some(4), 4), 2500);
    assert_eq!(inspector_scale(Some(4), 5), 1000);
    assert_eq!(inspector_scale(None, 4), 1000);
}

fn frame_state() -> SimulationState {
    let mut st = SimulationState::default();
    st.current_protocol = RoutingProtocol::SatnetOSPF;
    st.sim_speed = 1_000_000;
    st.earth_radius = 2_500;
    st.max_isl_distance = 6_000;
    st.selected_satellite_id = Some(1);
    st.satnet_options.opt_p2p_mapping = true;
    st.satnet_options.opt_low_footprint_top = true;
    st.satnet_options.opt_fast_link_lock = true;
    st
}

#[test]
fn network_frame() {
    let mut st = frame_state();
    let mut sats = vec![sat(0, "CONNECTED [P2P] [AdjacencyList]"), sat(1, "CONNECTED [P2P] [AdjacencyList]")];
    sats[0].connection_timer = 2_000_000;
    sats[1].connection_timer = 2_000_000;
    let pos = vec![Point { x: 0, y: 4_000, z: 0 }, Point { x: 0, y: -4_000, z: 0 }];
    let frames = update_networks(100_000, &mut st, &mut sats, &pos, &pos);
    assert_eq!(
        frames[0],
        SatelliteFrame { parent: Parent::Station, link_line: Some(Tint { r: 0, g: 1000, b: 0 }), color: Tint { r: 0, g: 1000, b: 0 }, scale: 1000 }
    );
    assert_eq!(
        frames[1],
        SatelliteFrame { parent: Parent::Unlinked, link_line: None, color: Tint { r: 500, g: 500, b: 500 }, scale: 2500 }
    );
    assert_eq!(sats[0].connection_timer, 2_100_000);
    assert_eq!(sats[1].status_msg, "LINK LOST: HW Lock Flag Triggered");
}

#[test]
fn paused_frame_changes_nothing() {
    let mut st = frame_state();
    st.is_paused = true;
    st.reset_ram = true;
    let mut sats = vec![sat(0, "OK")];
    let pos = vec![Point { x: 0, y: 4_000, z: 0 }];
    let frames = update_networks(100_000, &mut st, &mut sats, &pos, &pos);
    assert!(frames.is_empty());
    assert!(st.reset_ram);
    assert_eq!(sats[0].status_msg, "OK");
    assert_eq!(sats[0].connection_timer, 0);
}

#[test]
fn ram_reset_after_frame() {
    let mut st = frame_state();
    st.reset_ram = true;
    let mut sats = vec![sat(0, "OK")];
    sats[0].is_dead = true;
    let pos = vec![Point { x: 0, y: 4_000, z: 0 }];
    let frames = update_networks(100_000, &mut st, &mut sats, &pos, &pos);
    assert_eq!(frames[0].color, Tint { r: 1000, g: 0, b: 0 });
    assert!(!st.reset_ram);
    assert!(!sats[0].is_dead);
    assert_eq!((sats[0].ram_usage, sats[0].connection_timer), (0, -1_000_000));
    assert_eq!(sats[0].status_msg, "");
    let mut t = sat(3, "CONNECTED");
    t.ram_usage = 24_000_000;
    reset_satellite_ram(&mut t);
    assert_eq!((t.ram_usage, t.connection_timer, t.is_dead, t.status_msg.as_str()), (0, -1_000_000, false, ""));
}
