use space_router::components::{RoutingProtocol, Satellite, SimulationSatnetPlugin, SimulationState};
use space_router::geometry::{distance_squared, has_line_of_sight, point_in_scene, Point};
use space_router::handover::{has_path_to_ground, SatData};
use space_router::network::{building_network_topology, relay_ready};
use space_router::routing::{relay_search, Parent};

fn p(x: i64, y: i64, z: i64) -> Point {
    Point { x, y, z }
}

fn sat(id: u32, status: &str) -> Satellite {
    Satellite {
        id,
        orbit_radius: 4_000,
        current_angle: 0,
        orbit_speed: 400_000,
        inclination: 0,
        lan: 0,
        connection_timer: 0,
        ram_usage: 1_000_000,
        cpu_load: 5_000_000,
        status_msg: status.to_string(),
        is_dead: false,
    }
}

fn state(fast: bool, rfp: bool) -> SimulationState {
    let mut s = SimulationState::default();
    s.current_protocol = RoutingProtocol::SatnetOSPF;
    s.sim_speed = 1_000_000;
    s.earth_radius = 2_500;
    s.max_isl_distance = 6_000;
    s.satnet_options = SimulationSatnetPlugin {
        opt_p2p_mapping: true,
        opt_fast_link_lock: fast,
        opt_rfp_predictable: rfp,
        opt_low_footprint_top: true,
    };
    s
}

#[test]
fn line_of_sight_cases() {
    assert!(!has_line_of_sight(p(0, 4_000, 0), p(0, -4_000, 0), 2_500));
    assert!(has_line_of_sight(p(4_000, 0, 0), p(0, 4_000, 0), 2_500));
    assert!(has_line_of_sight(p(0, 4_000, 0), p(0, 4_000, 0), -1) == false);
    assert!(has_line_of_sight(p(0, 4_000, 0), p(0, 2_500, 0), 2_500));
    assert!(!has_line_of_sight(p(4_000, 0, 0), p(0, 2_500, 0), 2_500));
    assert!(!has_line_of_sight(p(1, 2, 3), p(1, 2, 3), 0));
    assert!(has_line_of_sight(p(0, -4_000, 0), p(0, 4_000, 0), -5));
}

#[test]
fn line_of_sight_is_symmetric_on_samples() {
    let pts = [p(4_000, 0, 0), p(0, 4_000, 0), p(-3_000, 3_500, 100), p(0, -4_000, 0), p(2_600, 0, 0)];
    for a in pts.iter() {
        for b in pts.iter() {
            assert_eq!(has_line_of_sight(*a, *b, 2_500), has_line_of_sight(*b, *a, 2_500));
        }
    }
}

#[test]
fn distances() {
    assert_eq!(distance_squared(p(1, 2, 3), p(4, 6, 3)), 25);
    assert_eq!(distance_squared(p(-1_000_000, -1_000_000, -1_000_000), p(1_000_000, 1_000_000, 1_000_000)), 12_000_000_000_000);
    assert!(point_in_scene(p(1_000_000, -1_000_000, 0)));
    assert!(!point_in_scene(p(1_000_001, 0, 0)));
}

#[test]
fn readiness_follows_status() {
    assert!(relay_ready("OK"));
    assert!(relay_ready("CONNECTED [P2P]"));
    assert!(!relay_ready("INIT"));
    assert!(!relay_ready("OSPF INIT: (0.1s/10s)"));
    assert!(!relay_ready("OSPF BROADCAST: Electing DR/BDR (0.1s/5s)"));
    assert!(!relay_ready(""));
    assert!(relay_ready("RFP ACTIVE: Rerouted seamlessly"));
}

#[test]
fn search_reaches_through_links() {
    let pos = vec![p(0, 4_000, 0), p(4_000, 0, 0), p(0, -4_000, 0)];
    let (marked, parent) = relay_search(&pos, &vec![true, true, true], 2_500, 6_000, true);
    assert_eq!(marked, vec![true, true, true]);
    assert_eq!(parent, vec![Parent::Station, Parent::Satellite(0), Parent::Satellite(1)]);
    let (marked, parent) = relay_search(&pos, &vec![true, true, true], 2_500, 6_000, false);
    assert_eq!(marked, vec![true, false, false]);
    assert_eq!(parent, vec![Parent::Station, Parent::Unlinked, Parent::Unlinked]);
    let (marked, _) = relay_search(&pos, &vec![true, false, true], 2_500, 6_000, true);
    assert_eq!(marked, vec![true, false, false]);
    let (marked, parent) = relay_search(&pos, &vec![false, true, true], 2_500, 6_000, true);
    assert_eq!(marked, vec![true, true, true]);
    assert_eq!(parent[0], Parent::Station);
}

fn data_at(x: i64, parent: Parent) -> SatData {
    SatData { pos: p(x, 9_000, 0), has_path: parent != Parent::Unlinked, parent, will_lose_link: false }
}

fn chain_of(parents: &[Parent]) -> Vec<SatData> {
    parents.iter().enumerate().map(|(i, parent)| data_at(1_000 * i as i64, *parent)).collect()
}

const STATION: Point = Point { x: 0, y: 2_500, z: 0 };

#[test]
fn ground_paths() {
    let chain = chain_of(&[Parent::Station, Parent::Satellite(0), Parent::Satellite(1)]);
    assert!(has_path_to_ground(&chain, 2, STATION));
    assert!(has_path_to_ground(&chain, 0, STATION));
    let cycle = chain_of(&[Parent::Satellite(1), Parent::Satellite(2), Parent::Satellite(0)]);
    assert!(!has_path_to_ground(&cycle, 0, STATION));
    let self_loop = chain_of(&[Parent::Satellite(0)]);
    assert!(!has_path_to_ground(&self_loop, 0, STATION));
    let dead_end = chain_of(&[Parent::Unlinked, Parent::Satellite(0)]);
    assert!(!has_path_to_ground(&dead_end, 1, STATION));
    let dangling = chain_of(&[Parent::Satellite(9)]);
    assert!(has_path_to_ground(&dangling, 0, STATION));
    let dangling_chain = chain_of(&[Parent::Satellite(5), Parent::Satellite(0)]);
    assert!(has_path_to_ground(&dangling_chain, 1, STATION));
}

#[test]
fn ground_paths_follow_positions() {
    // Satellite 2's parent is satellite 1, but satellite 0 stands at the
    // same point and comes first: the walk continues from satellite 0,
    // which has no route.
    let shadowed = vec![
        data_at(5_000, Parent::Unlinked),
        data_at(5_000, Parent::Station),
        data_at(7_000, Parent::Satellite(1)),
    ];
    assert!(!has_path_to_ground(&shadowed, 2, STATION));
    assert!(has_path_to_ground(&shadowed, 1, STATION));
    // A parent satellite standing where the station is counts as the ground,
    // even though that satellite itself has no route.
    let mut at_station = chain_of(&[Parent::Unlinked, Parent::Satellite(0)]);
    at_station[0].pos = STATION;
    assert!(has_path_to_ground(&at_station, 1, STATION));
    assert!(!has_path_to_ground(&at_station, 0, STATION));
}

#[test]
fn topology_predicts_and_reroutes() {
    let sats = vec![sat(0, "OK"), sat(1, "CONNECTED"), sat(2, "CONNECTED"), sat(3, "OK")];
    let pos = vec![p(0, 4_000, 0), p(4_000, 0, 0), p(0, -4_000, 0), p(3_000, 3_500, 0)];
    let future = vec![p(0, 4_000, 0), p(5_000, 0, 0), p(0, -4_000, 0), p(3_000, 3_500, 0)];
    let plain = building_network_topology(&state(true, false), &sats, &pos, &future);
    assert_eq!(
        plain,
        vec![
            SatData { pos: pos[0], has_path: true, parent: Parent::Station, will_lose_link: false },
            SatData { pos: pos[1], has_path: true, parent: Parent::Satellite(0), will_lose_link: true },
            SatData { pos: pos[2], has_path: true, parent: Parent::Satellite(1), will_lose_link: false },
            SatData { pos: pos[3], has_path: true, parent: Parent::Station, will_lose_link: false },
        ]
    );
    let rerouted = building_network_topology(&state(true, true), &sats, &pos, &future);
    assert_eq!(rerouted[1], SatData { pos: pos[1], has_path: true, parent: Parent::Satellite(3), will_lose_link: true });
    assert_eq!(rerouted[2].parent, Parent::Satellite(1));
    assert!(has_path_to_ground(&rerouted, 2, p(0, 2_500, 0)));
}

#[test]
fn short_range_without_lock() {
    let sats = vec![sat(0, "OK"), sat(1, "CONNECTED"), sat(2, "CONNECTED")];
    let pos = vec![p(0, 4_000, 0), p(4_000, 0, 0), p(0, -4_000, 0)];
    let topo = building_network_topology(&state(false, false), &sats, &pos, &pos);
    assert_eq!(topo[0].parent, Parent::Station);
    assert_eq!(topo[1], SatData { pos: pos[1], has_path: false, parent: Parent::Unlinked, will_lose_link: false });
    assert_eq!(topo[2].has_path, false);
}

#[test]
fn dead_satellites_do_not_relay() {
    let mut sats = vec![sat(0, "OK"), sat(1, "CONNECTED"), sat(2, "CONNECTED")];
    sats[1].is_dead = true;
    let pos = vec![p(0, 4_000, 0), p(4_000, 0, 0), p(0, -4_000, 0)];
    let topo = building_network_topology(&state(true, false), &sats, &pos, &pos);
    assert!(topo[0].has_path);
    assert!(!topo[1].has_path);
    assert!(!topo[2].has_path);
}

#[test]
fn smaller_planet_never_blocks_more() {
    let a = p(4_000, 1_000, 0);
    let b = p(-4_000, 1_000, 0);
    assert!(has_line_of_sight(a, b, 999));
    assert!(!has_line_of_sight(a, b, 1_000));
    assert!(!has_line_of_sight(a, b, 2_500));
    let radii = [-1, 0, 500, 998, 999, 1_000, 2_500];
    for (k, large) in radii.iter().enumerate() {
        if has_line_of_sight(a, b, *large) {
            for small in &radii[..k] {
                assert!(has_line_of_sight(a, b, *small));
            }
        }
    }
}

#[test]
fn search_takes_fewest_hops() {
    // Satellite 2 sees the station; 0 and 3 are one link from it; 1 is one
    // link from either of them, so it hangs three hops from the ground.
    let pos = vec![p(4_000, 0, 0), p(0, -4_000, 0), p(0, 4_000, 0), p(-4_000, 0, 0)];
    let (marked, parent) = relay_search(&pos, &vec![true, true, true, true], 2_500, 6_000, true);
    assert_eq!(marked, vec![true, true, true, true]);
    assert_eq!(
        parent,
        vec![Parent::Satellite(2), Parent::Satellite(0), Parent::Station, Parent::Satellite(2)]
    );
}
