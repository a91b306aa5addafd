use space_router::components::{RoutingProtocol, Satellite, SimulationSatnetPlugin, SimulationState};
use space_router::gui::{
    apply_gui_event, enforce_optimization_order, inspector_order, level_badge, lsdb_warning, optimization_level,
    pause_button_label, ram_bar_color, ram_ratio, satellite_details, satellite_entry_label, speed_label, GuiEvent, Rgb8,
};

fn opts(p2p: bool, low: bool, fast: bool, rfp: bool) -> SimulationSatnetPlugin {
    SimulationSatnetPlugin { opt_p2p_mapping: p2p, opt_low_footprint_top: low, opt_fast_link_lock: fast, opt_rfp_predictable: rfp }
}

#[test]
fn optimisations_follow_their_order() {
    let mut o = opts(false, true, true, true);
    enforce_optimization_order(&mut o);
    assert_eq!(o, opts(false, false, false, false));
    let mut o = opts(true, true, false, true);
    enforce_optimization_order(&mut o);
    assert_eq!(o, opts(true, true, false, false));
    let mut o = opts(true, true, true, true);
    enforce_optimization_order(&mut o);
    assert_eq!(o, opts(true, true, true, true));
    assert_eq!(optimization_level(&o), 4);
    assert_eq!(optimization_level(&opts(true, false, false, false)), 1);
    assert_eq!(optimization_level(&opts(false, false, false, true)), 1);
}

#[test]
fn badges() {
    assert_eq!(level_badge(0), ("● Vanilla OSPF (no optimizations)", Rgb8 { r: 255, g: 0, b: 0 }));
    assert_eq!(level_badge(2), ("● OSPF + P2P + LF  [stable memory]", Rgb8 { r: 255, g: 165, b: 0 }));
    assert_eq!(level_badge(4), ("⚡ FULL SATNET-OSPF", Rgb8 { r: 0, g: 200, b: 255 }));
    assert_eq!(level_badge(9), ("", Rgb8 { r: 255, g: 255, b: 255 }));
}

#[test]
fn panel_events() {
    let mut s = SimulationState::default();
    apply_gui_event(&mut s, GuiEvent::TogglePause);
    assert!(s.is_paused);
    assert_eq!(pause_button_label(s.is_paused), "play");
    apply_gui_event(&mut s, GuiEvent::TogglePause);
    assert_eq!(pause_button_label(s.is_paused), "pause");
    apply_gui_event(&mut s, GuiEvent::ChooseProtocol(RoutingProtocol::SatnetOSPF));
    assert_eq!(s.current_protocol, RoutingProtocol::SatnetOSPF);
    apply_gui_event(&mut s, GuiEvent::SetP2pMapping(true));
    apply_gui_event(&mut s, GuiEvent::SetLowFootprint(true));
    apply_gui_event(&mut s, GuiEvent::SetFastLinkLock(true));
    apply_gui_event(&mut s, GuiEvent::SetPredictiveRfp(true));
    assert_eq!(s.satnet_options, opts(true, true, true, true));
    apply_gui_event(&mut s, GuiEvent::SetSpeed(9_000_000));
    assert_eq!(s.sim_speed, 5_000_000);
    apply_gui_event(&mut s, GuiEvent::SetEarthRadius(500));
    assert_eq!(s.earth_radius, 1_000);
    apply_gui_event(&mut s, GuiEvent::SetMaxIslDistance(30_000));
    assert_eq!(s.max_isl_distance, 25_000);
    apply_gui_event(&mut s, GuiEvent::SnapBackToReality);
    assert_eq!((s.sim_speed, s.earth_radius, s.max_isl_distance), (800_000, 2_500, 2_000));
    apply_gui_event(&mut s, GuiEvent::ResetAllRam);
    assert!(s.reset_ram);
    apply_gui_event(&mut s, GuiEvent::ClickSatellite(5));
    assert_eq!(s.selected_satellite_id, Some(5));
    apply_gui_event(&mut s, GuiEvent::ClickSatellite(6));
    assert_eq!(s.selected_satellite_id, Some(6));
    apply_gui_event(&mut s, GuiEvent::ClickSatellite(6));
    assert_eq!(s.selected_satellite_id, None);
}

#[test]
fn inspector_lists_by_id() {
    assert_eq!(inspector_order(&vec![5, 3, 5, 1]), vec![3, 1, 0, 2]);
    assert_eq!(inspector_order(&vec![]), Vec::<usize>::new());
    assert_eq!(inspector_order(&vec![2, 2, 2]), vec![0, 1, 2]);
}

#[test]
fn inspector_texts() {
    let s = Satellite {
        id: 12,
        orbit_radius: 4_000,
        current_angle: 0,
        orbit_speed: 400_000,
        inclination: 0,
        lan: 0,
        connection_timer: 2_345_000,
        ram_usage: 8_500_000,
        cpu_load: 12_000_000,
        status_msg: "CONNECTED [P2P]".to_string(),
        is_dead: false,
    };
    assert_eq!(satellite_entry_label(&s), "Sat #12: [CONNECTED [P2P]]");
    assert_eq!(
        satellite_details(&s),
        vec![
            "Details Sat #12".to_string(),
            "Status: CONNECTED [P2P]".to_string(),
            "Connection Time: 2.3s".to_string(),
            "CPU load: 12.0%".to_string(),
            "RAM: 8.5 / 25.0 MB".to_string(),
        ]
    );
    assert_eq!(speed_label(800_000), "Speed: 0.8x");
    assert_eq!(speed_label(0), "Speed: 0.0x");
}

#[test]
fn memory_bar() {
    assert_eq!(ram_ratio(12_500_000), 500);
    assert_eq!(ram_ratio(30_000_000), 1000);
    assert_eq!(ram_ratio(-5), 0);
    assert_eq!(ram_bar_color(20_000_001), Rgb8 { r: 255, g: 0, b: 0 });
    assert_eq!(ram_bar_color(20_000_000), Rgb8 { r: 255, g: 255, b: 0 });
    assert_eq!(ram_bar_color(12_500_000), Rgb8 { r: 0, g: 255, b: 0 });
    assert!(lsdb_warning(15_000_001, &opts(true, false, false, false)));
    assert!(!lsdb_warning(15_000_001, &opts(true, true, false, false)));
    assert!(!lsdb_warning(15_000_000, &opts(false, false, false, false)));
}

#[test]
fn option_events_keep_the_enable_order() {
    let mut s = SimulationState::default();
    apply_gui_event(&mut s, GuiEvent::SetPredictiveRfp(true));
    assert_eq!(s.satnet_options, opts(false, false, false, false));
    apply_gui_event(&mut s, GuiEvent::SetP2pMapping(true));
    apply_gui_event(&mut s, GuiEvent::SetLowFootprint(true));
    apply_gui_event(&mut s, GuiEvent::SetPredictiveRfp(true));
    assert_eq!(s.satnet_options, opts(true, true, false, false));
    apply_gui_event(&mut s, GuiEvent::SetFastLinkLock(true));
    apply_gui_event(&mut s, GuiEvent::SetPredictiveRfp(true));
    assert_eq!(s.satnet_options, opts(true, true, true, true));
    apply_gui_event(&mut s, GuiEvent::SetP2pMapping(false));
    assert_eq!(s.satnet_options, opts(false, false, false, false));
}
