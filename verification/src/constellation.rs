//! The starting constellation and the advance of satellites along their orbits.
use vstd::prelude::*;
use crate::components::{Satellite, SatelliteModel, SimulationState};
use crate::metrics::{clamp64, frame_delta, scaled_delta, add_saturating};

verus! {

/// Number of orbital planes.
pub const NUM_PLANES: u32 = 6;

/// Satellites in each plane.
pub const SATS_PER_PLANE: u32 = 8;

/// A full turn, millionths of a radian (rounded down).
pub const FULL_TURN: i64 = 6_283_185;

/// Angle of slot `k` of `count` evenly spaced slots, millionths of a radian.
pub open spec fn slot_angle(k: int, count: int) -> int {
    (k * FULL_TURN) / count
}

/// Satellite number `i` of the starting constellation, for a planet of
/// radius `earth_radius` (thousandths of a scene unit): plane `i / 8`,
/// slot `i % 8`, orbiting 1.5 units above the surface at 0.4 rad/s on a
/// 45-degree inclination, healthy and idle.
pub open spec fn initial_satellite(i: int, earth_radius: int) -> SatelliteModel {
    SatelliteModel {
        id: i as u32,
        orbit_radius: earth_radius + 1_500,
        current_angle: slot_angle(i % 8, 8),
        orbit_speed: 400_000,
        inclination: FULL_TURN / 8,
        lan: slot_angle(i / 8, 6),
        connection_timer: 0,
        ram_usage: 1_000_000,
        cpu_load: 5_000_000,
        status_msg: "OK"@,
        is_dead: false,
    }
}

/// Sets the scene's starting values and returns the constellation: six
/// planes of eight satellites, numbered from zero plane by plane.
pub fn setup_constellation(sim_state: &mut SimulationState) -> (sats: Vec<Satellite>)
    ensures
        *final(sim_state) == (SimulationState {
            sim_speed: 1_000_000,
            earth_radius: 2_500,
            max_isl_distance: 6_000,
            reset_ram: false,
            ..*old(sim_state)
        }),
        sats.len() == 48,
        forall|i: int| 0 <= i < 48 ==> (#[trigger] sats@[i])@ == initial_satellite(i, 2_500),
{
    sim_state.sim_speed = 1_000_000;
    sim_state.earth_radius = 2_500;
    sim_state.max_isl_distance = 6_000;
    sim_state.reset_ram = false;
    let inclination: i64 = FULL_TURN / 8;
    let mut sats: Vec<Satellite> = Vec::new();
    let mut sat_id: u32 = 0;
    for plane in 0..NUM_PLANES
        invariant
            sim_state.earth_radius == 2_500,
            sat_id == plane * 8,
            sats.len() == sat_id,
            inclination == FULL_TURN / 8,
            forall|i: int| 0 <= i < sats.len() ==> (#[trigger] sats@[i])@ == initial_satellite(i, 2_500),
    {
        let lan: i64 = plane as i64 * FULL_TURN / NUM_PLANES as i64;
        for sat in 0..SATS_PER_PLANE
            invariant
                sim_state.earth_radius == 2_500,
                plane < 6,
                sat_id == plane * 8 + sat,
                sats.len() == sat_id,
                inclination == FULL_TURN / 8,
                lan == slot_angle(plane as int, 6),
                forall|i: int| 0 <= i < sats.len() ==> (#[trigger] sats@[i])@ == initial_satellite(i, 2_500),
        {
            let starting_angle: i64 = sat as i64 * FULL_TURN / SATS_PER_PLANE as i64;
            sats.push(Satellite {
                id: sat_id,
                orbit_radius: sim_state.earth_radius + 1_500,
                current_angle: starting_angle,
                orbit_speed: 400_000,
                inclination,
                lan,
                connection_timer: 0,
                ram_usage: 1_000_000,
                cpu_load: 5_000_000,
                status_msg: String::from_str("OK"),
                is_dead: false,
            });
            proof {
                let i = sat_id as int;
                assert(i / 8 == plane as int && i % 8 == sat as int);
            }
            sat_id = sat_id + 1;
        }
    }
    sats
}

/// `p / d` rounded towards zero.
pub open spec fn div_toward_zero(p: int, d: int) -> int {
    if p >= 0 { p / d } else { -((-p) / d) }
}

/// Angle travelled (millionths of a radian) at `orbit_speed` during `delta`
/// millionths of a second.
pub open spec fn orbit_step(orbit_speed: int, delta: int) -> int {
    div_toward_zero(orbit_speed * delta, 1_000_000)
}

/// A satellite moved along its orbit for `delta` millionths of a second.
pub open spec fn orbit_moved(s: SatelliteModel, delta: int) -> SatelliteModel {
    SatelliteModel { current_angle: clamp64(s.current_angle + orbit_step(s.orbit_speed, delta)), ..s }
}

/// Moves every satellite along its orbit for one frame, unless paused.
pub fn advance_orbits(frame_time: u32, sim_state: &SimulationState, sats: &mut Vec<Satellite>)
    ensures
        final(sats).len() == old(sats).len(),
        forall|i: int| 0 <= i < old(sats).len() ==> (#[trigger] final(sats)@[i])@ == (if sim_state.is_paused {
            old(sats)@[i]@
        } else {
            orbit_moved(old(sats)@[i]@, frame_delta(frame_time, sim_state.sim_speed))
        }),
{
    if sim_state.is_paused {
        return;
    }
    let delta = scaled_delta(frame_time, sim_state.sim_speed);
    let n = sats.len();
    let ghost start = sats@;
    for i in 0..n
        invariant
            n == sats.len(),
            n == start.len(),
            delta == frame_delta(frame_time, sim_state.sim_speed),
            0 <= delta <= 18_446_744_073_709,
            !sim_state.is_paused,
            forall|k: int| i <= k < n ==> #[trigger] sats@[k] == start[k],
            forall|k: int| 0 <= k < i ==> (#[trigger] sats@[k])@ == orbit_moved(start[k]@, delta as int),
    {
        let speed = sats[i].orbit_speed as i128;
        assert(-9_223_372_036_854_775_808 * 18_446_744_073_709 <= speed * delta as i128 <= 9_223_372_036_854_775_807
            * 18_446_744_073_709) by (nonlinear_arith)
            requires
                -9_223_372_036_854_775_808 <= speed <= 9_223_372_036_854_775_807,
                0 <= delta <= 18_446_744_073_709,
        ;
        let p: i128 = speed * delta as i128;
        let step: i128 = if p >= 0 { p / 1_000_000 } else { -((-p) / 1_000_000) };
        let angle: i128 = sats[i].current_angle as i128 + step;
        let next: i64 = if angle > i64::MAX as i128 {
            i64::MAX
        } else if angle < i64::MIN as i128 {
            i64::MIN
        } else {
            angle as i64
        };
        let ghost before = sats@;
        sats[i].current_angle = next;
        proof {
            assert forall|k: int| 0 <= k < n && k != i implies sats@[k] == before[k] by {}
        }
    }
}

} // verus!
