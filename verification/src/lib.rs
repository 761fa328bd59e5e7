//! CRSF (Crossfire) protocol encoding and decoding, and the decision logic
//! of the SkyPulse ground-control station: RC channel frames from game
//! controller input, telemetry frames into the station's state, and video
//! packet framing.

pub mod config;
pub mod crc;
pub mod frame;
pub mod gamepad;
pub mod parser;
pub mod rc;
pub mod rtp;
pub mod telemetry;

pub use config::Config;
pub use crc::crc8_dvb_s2;
pub use frame::{
    parse_frame, AttitudeFrame, BaroAltFrame, BatteryFrame, CrsfFrame, GpsFrame, LinkStatsFrame,
    VarioFrame,
};
pub use gamepad::{
    axis_switch, axis_thr_stick, axis_thr_trigger, axis_to_us, GamepadInput, RcControl, TxInput,
};
pub use parser::CrsfParser;
pub use rc::{
    build_failsafe_frame, build_neutral_frame, build_rc_frame, us_to_crsf, CRSF_SYNC,
    RC_MAX_US, RC_MID_US, RC_MIN_US, TYPE_ATTITUDE, TYPE_BARO_ALT, TYPE_BATTERY,
    TYPE_FLIGHT_MODE, TYPE_GPS, TYPE_HEARTBEAT, TYPE_LINK_STATS, TYPE_RC_CHANNELS, TYPE_VARIO,
};
pub use rtp::nal_payload_start;
pub use telemetry::{Altitude, Heading, Readings, TelemetryState};
