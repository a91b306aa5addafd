//! The simulation's data: protocol choice, global settings and satellites.
//!
//! Readings are fixed-point integers: lengths in thousandths of a scene unit,
//! angles in millionths of a radian, times in millionths of a second, memory
//! in millionths of a megabyte, processor load in millionths of a percent and
//! the simulation speed in millionths.
use vstd::prelude::*;

verus! {

/// The routing protocol that the simulated network runs.
#[derive(Debug, Clone, Copy, PartialEq, Eq, Structural)]
pub enum RoutingProtocol {
    TerrestrialOSPF,
    SatnetOSPF,
    ContactGraphRouting,
    CentralizedSDN,
}

impl Default for RoutingProtocol {
    fn default() -> (p: Self)
        ensures
            p == RoutingProtocol::TerrestrialOSPF,
    {
        RoutingProtocol::TerrestrialOSPF
    }
}

/// The SATNET-OSPF optimisations, meant to be enabled in this order:
/// point-to-point mapping, low-footprint topology, hardware link lock,
/// predictive rerouting.
#[derive(Debug, Clone, Copy, PartialEq, Eq, Structural)]
pub struct SimulationSatnetPlugin {
    pub opt_p2p_mapping: bool,
    pub opt_fast_link_lock: bool,
    pub opt_rfp_predictable: bool,
    pub opt_low_footprint_top: bool,
}

impl Default for SimulationSatnetPlugin {
    fn default() -> (o: Self)
        ensures
            !o.opt_p2p_mapping,
            !o.opt_fast_link_lock,
            !o.opt_rfp_predictable,
            !o.opt_low_footprint_top,
    {
        SimulationSatnetPlugin {
            opt_p2p_mapping: false,
            opt_fast_link_lock: false,
            opt_rfp_predictable: false,
            opt_low_footprint_top: false,
        }
    }
}

/// Global settings of the simulation.
#[derive(Debug, Clone, Copy, PartialEq, Eq, Structural)]
pub struct SimulationState {
    pub current_protocol: RoutingProtocol,
    /// Speed-up factor, in millionths.
    pub sim_speed: u32,
    pub is_paused: bool,
    /// Thousandths of a scene unit.
    pub earth_radius: i64,
    /// Longest inter-satellite link, in thousandths of a scene unit.
    pub max_isl_distance: i64,
    pub selected_satellite_id: Option<u32>,
    pub satnet_options: SimulationSatnetPlugin,
    pub reset_ram: bool,
}

impl Default for SimulationState {
    fn default() -> (s: Self)
        ensures
            s.current_protocol == RoutingProtocol::TerrestrialOSPF,
            s.sim_speed == 0,
            !s.is_paused,
            s.earth_radius == 0,
            s.max_isl_distance == 0,
            s.selected_satellite_id.is_none(),
            s.satnet_options == (SimulationSatnetPlugin {
                opt_p2p_mapping: false,
                opt_fast_link_lock: false,
                opt_rfp_predictable: false,
                opt_low_footprint_top: false,
            }),
            !s.reset_ram,
    {
        SimulationState {
            current_protocol: RoutingProtocol::default(),
            sim_speed: 0,
            is_paused: false,
            earth_radius: 0,
            max_isl_distance: 0,
            selected_satellite_id: None,
            satnet_options: SimulationSatnetPlugin::default(),
            reset_ram: false,
        }
    }
}

/// Marks the planet in the scene.
#[derive(Debug, Clone, Copy, PartialEq, Eq, Structural)]
pub struct Earth;

/// Marks the ground station in the scene.
#[derive(Debug, Clone, Copy, PartialEq, Eq, Structural)]
pub struct GroundStation {}

/// One satellite: its orbit and its health as the routing layer sees it.
#[derive(Debug, Clone)]
pub struct Satellite {
    pub id: u32,
    /// Thousandths of a scene unit.
    pub orbit_radius: i64,
    /// Millionths of a radian.
    pub current_angle: i64,
    /// Millionths of a radian per second.
    pub orbit_speed: i64,
    /// Millionths of a radian.
    pub inclination: i64,
    /// Longitude of the ascending node, millionths of a radian.
    pub lan: i64,
    /// Millionths of a second; negative while no session is open.
    pub connection_timer: i64,
    /// Millionths of a megabyte.
    pub ram_usage: i64,
    /// Millionths of a percent.
    pub cpu_load: i64,
    pub status_msg: String,
    pub is_dead: bool,
}

/// The mathematical value of a satellite.
pub struct SatelliteModel {
    pub id: u32,
    pub orbit_radius: int,
    pub current_angle: int,
    pub orbit_speed: int,
    pub inclination: int,
    pub lan: int,
    pub connection_timer: int,
    pub ram_usage: int,
    pub cpu_load: int,
    pub status_msg: Seq<char>,
    pub is_dead: bool,
}

impl View for Satellite {
    type V = SatelliteModel;

    open spec fn view(&self) -> SatelliteModel {
        SatelliteModel {
            id: self.id,
            orbit_radius: self.orbit_radius as int,
            current_angle: self.current_angle as int,
            orbit_speed: self.orbit_speed as int,
            inclination: self.inclination as int,
            lan: self.lan as int,
            connection_timer: self.connection_timer as int,
            ram_usage: self.ram_usage as int,
            cpu_load: self.cpu_load as int,
            status_msg: self.status_msg@,
            is_dead: self.is_dead,
        }
    }
}

} // verus!
