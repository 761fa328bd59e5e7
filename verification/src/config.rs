//! Ground station settings, with the defaults used where a setting is not
//! given.

use vstd::prelude::*;

verus! {

/// Default UDP port for RC frames to the drone.
pub const DEFAULT_RC_PORT: u16 = 2223;
/// Default UDP port for telemetry from the drone.
pub const DEFAULT_TELEM_PORT: u16 = 2224;
/// Default TCP port of the web UI.
pub const DEFAULT_WEB_PORT: u16 = 8080;

/// Ground station settings.
#[derive(Debug, Clone)]
pub struct Config {
    pub drone_ip: String,
    pub rc_port: u16,
    pub telem_port: u16,
    pub web_port: u16,
    /// Battery cell count; 0 means detect it from the voltage.
    pub cell_count: u8,
    /// Traccar server; position reports are off when absent.
    pub traccar_url: Option<String>,
    pub traccar_id: String,
}

/// A given string setting, or the default.
pub open spec fn string_or(given: Option<String>, default: Seq<char>) -> Seq<char> {
    match given {
        Some(s) => s@,
        None => default,
    }
}

/// A given number setting, or the default.
pub open spec fn number_or<T>(given: Option<T>, default: T) -> T {
    match given {
        Some(v) => v,
        None => default,
    }
}

impl Config {
    /// The settings, each given one or its default: drone 10.8.0.2, RC port
    /// 2223, telemetry port 2224, web port 8080, cell count 0 (detect),
    /// Traccar off, Traccar device id "skypulse".
    pub fn from_settings(
        drone_ip: Option<String>,
        rc_port: Option<u16>,
        telem_port: Option<u16>,
        web_port: Option<u16>,
        cell_count: Option<u8>,
        traccar_url: Option<String>,
        traccar_id: Option<String>,
    ) -> (c: Config)
        ensures
            c.drone_ip@ == string_or(drone_ip, "10.8.0.2"@),
            c.rc_port == number_or(rc_port, DEFAULT_RC_PORT),
            c.telem_port == number_or(telem_port, DEFAULT_TELEM_PORT),
            c.web_port == number_or(web_port, DEFAULT_WEB_PORT),
            c.cell_count == number_or(cell_count, 0u8),
            c.traccar_url == traccar_url,
            c.traccar_id@ == string_or(traccar_id, "skypulse"@),
    {
        let drone_ip = match drone_ip {
            Some(s) => s,
            None => "10.8.0.2".to_owned(),
        };
        let traccar_id = match traccar_id {
            Some(s) => s,
            None => "skypulse".to_owned(),
        };
        Config {
            drone_ip,
            rc_port: match rc_port {
                Some(p) => p,
                None => DEFAULT_RC_PORT,
            },
            telem_port: match telem_port {
                Some(p) => p,
                None => DEFAULT_TELEM_PORT,
            },
            web_port: match web_port {
                Some(p) => p,
                None => DEFAULT_WEB_PORT,
            },
            cell_count: match cell_count {
                Some(n) => n,
                None => 0,
            },
            traccar_url,
            traccar_id,
        }
    }
}

} // verus!
