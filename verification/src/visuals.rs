//! What the scene shows of the network: satellite colours, link colours and
//! the inspector highlight.
use vstd::prelude::*;
use crate::components::{RoutingProtocol, Satellite, SatelliteModel};
use crate::text::{has_text, text_contains};

verus! {

/// A colour; each channel in thousandths of full intensity.
#[derive(Debug, Clone, Copy, PartialEq, Eq, Structural)]
pub struct Tint {
    pub r: u16,
    pub g: u16,
    pub b: u16,
}

pub open spec fn tint(r: u16, g: u16, b: u16) -> Tint {
    Tint { r, g, b }
}

/// Colour of a satellite from its health: red when failed or overloaded,
/// sky blue while rerouting predictively, blue for a ghost link, orange
/// while a session is being set up, green when connected, grey otherwise.
pub open spec fn health_tint(s: SatelliteModel) -> Tint {
    let m = s.status_msg;
    if s.is_dead || s.ram_usage > 25_000_000 || s.cpu_load >= 99_000_000 || has_text(m, "TIMEOUT"@)
        || has_text(m, "CRITICAL"@) {
        tint(1000, 0, 0)
    } else if has_text(m, "RFP"@) {
        tint(0, 500, 1000)
    } else if has_text(m, "GHOST LINK"@) {
        tint(0, 0, 1000)
    } else if has_text(m, "INIT"@) || has_text(m, "Election"@) || has_text(m, "AWAITING"@)
        || has_text(m, "BROADCAST"@) || has_text(m, "RFP ACTIVE"@) {
        tint(1000, 500, 0)
    } else if has_text(m, "CONNECTED"@) || has_text(m, "ACTIVE"@) || has_text(m, "HW LOCK"@) {
        tint(0, 1000, 0)
    } else {
        tint(500, 500, 500)
    }
}

/// The colour of a satellite, as `health_tint` says.
pub fn interpret_metrics_to_color(sat: &Satellite) -> (c: Tint)
    ensures
        c == health_tint(sat@),
{
    let m = sat.status_msg.as_str();
    if sat.is_dead || sat.ram_usage > 25_000_000 || sat.cpu_load >= 99_000_000 || text_contains(m, "TIMEOUT")
        || text_contains(m, "CRITICAL") {
        return Tint { r: 1000, g: 0, b: 0 };
    }
    if text_contains(m, "RFP") {
        return Tint { r: 0, g: 500, b: 1000 };
    }
    if text_contains(m, "GHOST LINK") {
        return Tint { r: 0, g: 0, b: 1000 };
    }
    if text_contains(m, "INIT") || text_contains(m, "Election") || text_contains(m, "AWAITING")
        || text_contains(m, "BROADCAST") || text_contains(m, "RFP ACTIVE") {
        return Tint { r: 1000, g: 500, b: 0 };
    }
    if text_contains(m, "CONNECTED") || text_contains(m, "ACTIVE") || text_contains(m, "HW LOCK") {
        return Tint { r: 0, g: 1000, b: 0 };
    }
    Tint { r: 500, g: 500, b: 500 }
}

/// How a satellite's colour follows from its health, marker by marker in
/// order of precedence: failed or overloaded (dead, memory above 25 MB,
/// processor at 99 % or more, a "TIMEOUT" or "CRITICAL" status) is red;
/// otherwise a status with "RFP" is sky blue; otherwise "GHOST LINK" is
/// blue; otherwise a session being set up ("INIT", "Election", "AWAITING",
/// "BROADCAST") is orange; otherwise "CONNECTED", "ACTIVE" or "HW LOCK" is
/// green; anything else is grey.
pub proof fn health_colour_laws(s: SatelliteModel)
    ensures
        ({
            let m = s.status_msg;
            let red = s.is_dead || s.ram_usage > 25_000_000 || s.cpu_load >= 99_000_000
                || has_text(m, "TIMEOUT"@) || has_text(m, "CRITICAL"@);
            let rfp = has_text(m, "RFP"@);
            let ghost_link = has_text(m, "GHOST LINK"@);
            let setup = has_text(m, "INIT"@) || has_text(m, "Election"@) || has_text(m, "AWAITING"@)
                || has_text(m, "BROADCAST"@);
            let up = has_text(m, "CONNECTED"@) || has_text(m, "ACTIVE"@) || has_text(m, "HW LOCK"@);
            let c = health_tint(s);
            &&& red ==> c == (Tint { r: 1000, g: 0, b: 0 })
            &&& !red && rfp ==> c == (Tint { r: 0, g: 500, b: 1000 })
            &&& !red && !rfp && ghost_link ==> c == (Tint { r: 0, g: 0, b: 1000 })
            &&& !red && !rfp && !ghost_link && setup ==> c == (Tint { r: 1000, g: 500, b: 0 })
            &&& !red && !rfp && !ghost_link && !setup && up ==> c == (Tint { r: 0, g: 1000, b: 0 })
            &&& !red && !rfp && !ghost_link && !setup && !up ==> c == (Tint { r: 500, g: 500, b: 500 })
        }),
{
    let m = s.status_msg;
    if has_text(m, "RFP ACTIVE"@) {
        reveal_strlit("RFP ACTIVE");
        reveal_strlit("RFP");
        assert("RFP ACTIVE"@.subrange(0, 3) =~= "RFP"@);
        crate::text::lemma_text_prefix(m, "RFP ACTIVE"@, "RFP"@);
    }
}

/// The colour of the routing links drawn for each protocol.
pub open spec fn protocol_tint(p: RoutingProtocol) -> Tint {
    match p {
        RoutingProtocol::TerrestrialOSPF => tint(1000, 300, 0),
        RoutingProtocol::SatnetOSPF => tint(0, 1000, 0),
        RoutingProtocol::ContactGraphRouting => tint(1000, 600, 0),
        RoutingProtocol::CentralizedSDN => tint(0, 800, 1000),
    }
}

/// The colour of routing links, as `protocol_tint` says.
pub fn get_protocol_line_color(protocol: &RoutingProtocol) -> (c: Tint)
    ensures
        c == protocol_tint(*protocol),
{
    match protocol {
        RoutingProtocol::TerrestrialOSPF => Tint { r: 1000, g: 300, b: 0 },
        RoutingProtocol::SatnetOSPF => Tint { r: 0, g: 1000, b: 0 },
        RoutingProtocol::ContactGraphRouting => Tint { r: 1000, g: 600, b: 0 },
        RoutingProtocol::CentralizedSDN => Tint { r: 0, g: 800, b: 1000 },
    }
}

/// The line from a satellite to its parent: in the protocol's colour while
/// it has a route, red while a ghost link lingers, none otherwise.
pub open spec fn parent_line(protocol: RoutingProtocol, has_parent: bool, has_access: bool, status: Seq<char>) -> Option<Tint> {
    if !has_parent {
        None
    } else if has_access {
        Some(protocol_tint(protocol))
    } else if has_text(status, "GHOST LINK"@) {
        Some(tint(1000, 0, 0))
    } else {
        None
    }
}

/// The line to draw towards a satellite's parent, as `parent_line` says.
pub fn parent_line_tint(protocol: RoutingProtocol, has_parent: bool, has_access: bool, status: &str) -> (line: Option<Tint>)
    ensures
        line == parent_line(protocol, has_parent, has_access, status@),
{
    if !has_parent {
        None
    } else if has_access {
        Some(get_protocol_line_color(&protocol))
    } else if text_contains(status, "GHOST LINK") {
        Some(Tint { r: 1000, g: 0, b: 0 })
    } else {
        None
    }
}

/// Link colours: orange for terrestrial OSPF, green for SATNET-OSPF, amber
/// for contact-graph routing, sky blue for the SDN controller; a satellite
/// without a parent draws no line, one with a route draws it in its
/// protocol's colour, and one without a route draws it red only while a
/// ghost link lingers.
pub proof fn link_colour_laws(protocol: RoutingProtocol, has_parent: bool, has_access: bool, status: Seq<char>)
    ensures
        protocol == RoutingProtocol::TerrestrialOSPF ==> protocol_tint(protocol) == (Tint { r: 1000, g: 300, b: 0 }),
        protocol == RoutingProtocol::SatnetOSPF ==> protocol_tint(protocol) == (Tint { r: 0, g: 1000, b: 0 }),
        protocol == RoutingProtocol::ContactGraphRouting ==> protocol_tint(protocol) == (Tint { r: 1000, g: 600, b: 0 }),
        protocol == RoutingProtocol::CentralizedSDN ==> protocol_tint(protocol) == (Tint { r: 0, g: 800, b: 1000 }),
        !has_parent ==> parent_line(protocol, has_parent, has_access, status) is None,
        has_parent && has_access ==> parent_line(protocol, has_parent, has_access, status) == Some(protocol_tint(protocol)),
        has_parent && !has_access ==> parent_line(protocol, has_parent, has_access, status) == (if has_text(status, "GHOST LINK"@) {
            Some(Tint { r: 1000, g: 0, b: 0 })
        } else {
            None
        }),
{
}

/// Display scale (thousandths) of a satellite: enlarged when it is the one
/// selected in the inspector.
pub fn inspector_scale(selected_satellite_id: Option<u32>, id: u32) -> (scale: u32)
    ensures
        scale == (if selected_satellite_id == Some(id) { 2500u32 } else { 1000u32 }),
{
    match selected_satellite_id {
        Some(s) => if s == id { 2500 } else { 1000 },
        None => 1000,
    }
}

} // verus!
