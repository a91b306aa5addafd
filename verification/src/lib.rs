//! Routing decisions and health model for a simulated low-earth-orbit
//! satellite network.
use vstd::prelude::*;

pub mod components;
pub mod text;
pub mod metrics;
pub mod geometry;
pub mod routing;
pub mod handover;
pub mod visuals;
pub mod network;
pub mod constellation;
pub mod gui;

verus! {

} // verus!
