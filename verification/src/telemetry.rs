//! The ground station's telemetry state and how each decoded frame updates
//! it: position, battery, attitude, arming (from the flight mode name),
//! link quality, vertical speed, and the home position.
//!
//! Readings stay in the integer units of the frames they came from.

use vstd::prelude::*;
use crate::frame::{CrsfFrame, FrameView};

verus! {

/// Where the current altitude reading came from, in that source's unit.
#[derive(Debug, Clone, Copy, PartialEq, Eq)]
pub enum Altitude {
    /// GPS altitude field: metres plus 1000.
    Gps(u16),
    /// Barometric altitude in decimetres.
    Baro(u16),
}

/// Where the current heading came from, in that source's unit.
#[derive(Debug, Clone, Copy, PartialEq, Eq)]
pub enum Heading {
    /// GPS course in hundredths of a degree.
    Gps(u16),
    /// Attitude yaw in 1e-4 radians (used while there is no GPS fix).
    Yaw(i16),
}

/// Satellites needed for a GPS fix.
pub const MIN_FIX_SATELLITES: u8 = 6;
/// Current readings above this (in deciamperes) mean "no current sensor"
/// and are shown as zero.
pub const MAX_CURRENT_DA: u16 = 5000;
/// Drawn-capacity readings above this (in mAh) mean "no current sensor"
/// and are shown as zero.
pub const MAX_USED_MAH: u32 = 100000;
/// Flight controllers append this to the mode name while disarmed.
pub const DISARMED_MARK: u8 = 0x2A;

/// The numeric telemetry readings.
#[derive(Debug, Clone, Copy, PartialEq, Eq)]
pub struct Readings {
    /// Latitude in 1e-7 degrees.
    pub lat_e7: i32,
    /// Longitude in 1e-7 degrees.
    pub lon_e7: i32,
    pub altitude: Altitude,
    /// Ground speed field of the last GPS frame.
    pub speed_raw: u16,
    pub heading: Heading,
    pub satellites: u8,
    pub gps_fix: bool,
    /// Voltage in decivolts.
    pub voltage_dv: u16,
    /// Current in deciamperes (zero when the sensor reports nonsense).
    pub current_da: u16,
    /// Capacity drawn in mAh (zero when the sensor reports nonsense).
    pub used_mah: u32,
    pub battery_pct: u8,
    /// Pitch in 1e-4 radians.
    pub pitch_raw: i16,
    /// Roll in 1e-4 radians.
    pub roll_raw: i16,
    /// Yaw in 1e-4 radians.
    pub yaw_raw: i16,
    pub armed: bool,
    /// Vertical speed in cm/s.
    pub vspeed_cms: i16,
    pub link_quality: u8,
    /// Uplink RSSI in dBm.
    pub rssi_dbm: i16,
    /// Home latitude in 1e-7 degrees.
    pub home_lat_e7: i32,
    /// Home longitude in 1e-7 degrees.
    pub home_lon_e7: i32,
    pub home_set: bool,
}

/// The telemetry state: readings and the flight mode name.
#[derive(Debug, Clone, PartialEq, Eq)]
pub struct TelemetryState {
    pub readings: Readings,
    /// Flight mode name bytes, without the trailing disarmed marks and
    /// surrounding whitespace.
    pub flight_mode: Vec<u8>,
}

/// The mathematical value of a `TelemetryState`.
pub ghost struct TelemetryView {
    pub readings: Readings,
    pub flight_mode: Seq<u8>,
}

impl View for TelemetryState {
    type V = TelemetryView;

    open spec fn view(&self) -> TelemetryView {
        TelemetryView { readings: self.readings, flight_mode: self.flight_mode@ }
    }
}

/// The readings before any frame: all zero, disarmed, no fix, no home.
pub open spec fn initial_readings() -> Readings {
    Readings {
        lat_e7: 0,
        lon_e7: 0,
        altitude: Altitude::Baro(0),
        speed_raw: 0,
        heading: Heading::Gps(0),
        satellites: 0,
        gps_fix: false,
        voltage_dv: 0,
        current_da: 0,
        used_mah: 0,
        battery_pct: 0,
        pitch_raw: 0,
        roll_raw: 0,
        yaw_raw: 0,
        armed: false,
        vspeed_cms: 0,
        link_quality: 0,
        rssi_dbm: 0,
        home_lat_e7: 0,
        home_lon_e7: 0,
        home_set: false,
    }
}

/// The flight mode shown before any flight mode frame.
pub open spec fn unknown_mode() -> Seq<u8> {
    seq![0x55u8, 0x4Eu8, 0x4Bu8, 0x4Eu8, 0x4Fu8, 0x57u8, 0x4Eu8]
}

/// `name` without its trailing disarmed marks.
pub open spec fn strip_marks(name: Seq<u8>) -> Seq<u8>
    decreases name.len(),
{
    if name.len() > 0 && name.last() == DISARMED_MARK {
        strip_marks(name.drop_last())
    } else {
        name
    }
}

/// A flight mode name means armed unless it ends with the disarmed mark.
pub open spec fn mode_armed(name: Seq<u8>) -> bool {
    !(name.len() > 0 && name.last() == DISARMED_MARK)
}

/// An ASCII whitespace byte: tab, line feed, vertical tab, form feed,
/// carriage return or space.
pub open spec fn is_ascii_ws(b: u8) -> bool {
    b == 0x20 || (0x09 <= b && b <= 0x0D)
}

/// The UTF-8 encoding of U+0085 or U+00A0.
pub open spec fn is_ws2(a: u8, b: u8) -> bool {
    a == 0xC2 && (b == 0x85 || b == 0xA0)
}

/// The UTF-8 encoding of U+1680, U+2000-U+200A, U+2028, U+2029, U+202F,
/// U+205F or U+3000.
pub open spec fn is_ws3(a: u8, b: u8, c: u8) -> bool {
    ||| a == 0xE1 && b == 0x9A && c == 0x80
    ||| a == 0xE2 && b == 0x80 && ((0x80 <= c && c <= 0x8A) || c == 0xA8 || c == 0xA9 || c == 0xAF)
    ||| a == 0xE2 && b == 0x81 && c == 0x9F
    ||| a == 0xE3 && b == 0x80 && c == 0x80
}

/// Length of the whitespace character encoded at the start of `s` (the
/// characters `char::is_whitespace` accepts, in UTF-8), or 0.
pub open spec fn ws_prefix_len(s: Seq<u8>) -> nat {
    if s.len() >= 1 && is_ascii_ws(s[0]) {
        1
    } else if s.len() >= 2 && is_ws2(s[0], s[1]) {
        2
    } else if s.len() >= 3 && is_ws3(s[0], s[1], s[2]) {
        3
    } else {
        0
    }
}

/// Length of the whitespace character encoded at the end of `s`, or 0.
pub open spec fn ws_suffix_len(s: Seq<u8>) -> nat {
    let n = s.len();
    if n >= 1 && is_ascii_ws(s[n - 1]) {
        1
    } else if n >= 2 && is_ws2(s[n - 2], s[n - 1]) {
        2
    } else if n >= 3 && is_ws3(s[n - 3], s[n - 2], s[n - 1]) {
        3
    } else {
        0
    }
}

/// `s` without its leading whitespace characters.
pub open spec fn trim_start_ws(s: Seq<u8>) -> Seq<u8>
    decreases s.len(),
{
    if ws_prefix_len(s) > 0 {
        trim_start_ws(s.skip(ws_prefix_len(s) as int))
    } else {
        s
    }
}

/// `s` without its trailing whitespace characters.
pub open spec fn trim_end_ws(s: Seq<u8>) -> Seq<u8>
    decreases s.len(),
{
    if ws_suffix_len(s) > 0 {
        trim_end_ws(s.take(s.len() - ws_suffix_len(s)))
    } else {
        s
    }
}

/// `s` without whitespace characters at either end.
pub open spec fn trim_ws(s: Seq<u8>) -> Seq<u8> {
    trim_start_ws(trim_end_ws(s))
}

/// The flight mode kept from a name: without its trailing disarmed marks,
/// then without surrounding whitespace.
pub open spec fn mode_name(name: Seq<u8>) -> Seq<u8> {
    trim_ws(strip_marks(name))
}

/// The state after one decoded frame.
///
/// - GPS: position, altitude, speed, heading and satellites are taken; six
///   or more satellites make a fix. The home is set to this position on the
///   first fix while armed with no home yet.
/// - Battery: readings taken; current above 500 A and drawn capacity above
///   100000 mAh read as zero.
/// - Attitude: taken; without a fix the heading follows the yaw.
/// - Flight mode: armed unless the name ends with the disarmed mark; the
///   name is kept without its marks; arming clears the home.
/// - Link statistics: quality, and RSSI as negative dBm.
/// - Vario: vertical speed.
/// - Barometric altitude: taken as altitude only without a fix, as vertical
///   speed only while that reads zero.
/// - Other frames change nothing.
pub open spec fn apply_frame_spec(t: TelemetryView, f: FrameView) -> TelemetryView {
    let r = t.readings;
    match f {
        FrameView::Gps(g) => {
            let fix = g.satellites >= MIN_FIX_SATELLITES;
            let set_home = fix && r.armed && !r.home_set;
            TelemetryView {
                readings: Readings {
                    lat_e7: g.lat_e7,
                    lon_e7: g.lon_e7,
                    altitude: Altitude::Gps(g.altitude_raw),
                    speed_raw: g.ground_speed_raw,
                    heading: Heading::Gps(g.heading_cdeg),
                    satellites: g.satellites,
                    gps_fix: fix,
                    home_lat_e7: if set_home {
                        g.lat_e7
                    } else {
                        r.home_lat_e7
                    },
                    home_lon_e7: if set_home {
                        g.lon_e7
                    } else {
                        r.home_lon_e7
                    },
                    home_set: r.home_set || set_home,
                    ..r
                },
                ..t
            }
        },
        FrameView::Battery(b) => TelemetryView {
            readings: Readings {
                voltage_dv: b.voltage_dv,
                current_da: if b.current_da > MAX_CURRENT_DA {
                    0
                } else {
                    b.current_da
                },
                used_mah: if b.used_mah > MAX_USED_MAH {
                    0
                } else {
                    b.used_mah
                },
                battery_pct: b.remaining_pct,
                ..r
            },
            ..t
        },
        FrameView::Attitude(a) => TelemetryView {
            readings: Readings {
                pitch_raw: a.pitch_raw,
                roll_raw: a.roll_raw,
                yaw_raw: a.yaw_raw,
                heading: if !r.gps_fix {
                    Heading::Yaw(a.yaw_raw)
                } else {
                    r.heading
                },
                ..r
            },
            ..t
        },
        FrameView::FlightMode(m) => {
            let armed = mode_armed(m);
            TelemetryView {
                readings: Readings {
                    armed: armed,
                    home_set: if armed && !r.armed {
                        false
                    } else {
                        r.home_set
                    },
                    ..r
                },
                flight_mode: mode_name(m),
            }
        },
        FrameView::LinkStats(ls) => TelemetryView {
            readings: Readings {
                link_quality: ls.uplink_link_quality,
                rssi_dbm: (-(ls.uplink_rssi_1 as int)) as i16,
                ..r
            },
            ..t
        },
        FrameView::Vario(v) => TelemetryView {
            readings: Readings { vspeed_cms: v.vertical_speed_cms, ..r },
            ..t
        },
        FrameView::BaroAlt(b) => TelemetryView {
            readings: Readings {
                altitude: if !r.gps_fix {
                    Altitude::Baro(b.altitude_dm)
                } else {
                    r.altitude
                },
                vspeed_cms: if r.vspeed_cms == 0 {
                    b.vspeed_cms
                } else {
                    r.vspeed_cms
                },
                ..r
            },
            ..t
        },
        _ => t,
    }
}

/// Length of the whitespace character encoded at the start of `s[a..b]`.
fn ws_prefix_len_exec(s: &[u8], a: usize, b: usize) -> (r: usize)
    requires
        a <= b <= s@.len(),
    ensures
        r == ws_prefix_len(s@.subrange(a as int, b as int)),
{
    let n = b - a;
    if n >= 1 && (s[a] == 0x20 || (0x09 <= s[a] && s[a] <= 0x0D)) {
        1
    } else if n >= 2 && s[a] == 0xC2 && (s[a + 1] == 0x85 || s[a + 1] == 0xA0) {
        2
    } else if n >= 3 && ((s[a] == 0xE1 && s[a + 1] == 0x9A && s[a + 2] == 0x80) || (s[a] == 0xE2
        && s[a + 1] == 0x80 && ((0x80 <= s[a + 2] && s[a + 2] <= 0x8A) || s[a + 2] == 0xA8 || s[a
        + 2] == 0xA9 || s[a + 2] == 0xAF)) || (s[a] == 0xE2 && s[a + 1] == 0x81 && s[a + 2] == 0x9F)
        || (s[a] == 0xE3 && s[a + 1] == 0x80 && s[a + 2] == 0x80)) {
        3
    } else {
        0
    }
}

/// Length of the whitespace character encoded at the end of `s[..e]`.
fn ws_suffix_len_exec(s: &[u8], e: usize) -> (r: usize)
    requires
        e <= s@.len(),
    ensures
        r == ws_suffix_len(s@.subrange(0, e as int)),
{
    if e >= 1 && (s[e - 1] == 0x20 || (0x09 <= s[e - 1] && s[e - 1] <= 0x0D)) {
        1
    } else if e >= 2 && s[e - 2] == 0xC2 && (s[e - 1] == 0x85 || s[e - 1] == 0xA0) {
        2
    } else if e >= 3 && ((s[e - 3] == 0xE1 && s[e - 2] == 0x9A && s[e - 1] == 0x80) || (s[e - 3]
        == 0xE2 && s[e - 2] == 0x80 && ((0x80 <= s[e - 1] && s[e - 1] <= 0x8A) || s[e - 1] == 0xA8
        || s[e - 1] == 0xA9 || s[e - 1] == 0xAF)) || (s[e - 3] == 0xE2 && s[e - 2] == 0x81 && s[e
        - 1] == 0x9F) || (s[e - 3] == 0xE3 && s[e - 2] == 0x80 && s[e - 1] == 0x80)) {
        3
    } else {
        0
    }
}

/// The flight mode kept from a name.
fn mode_name_exec(name: &Vec<u8>) -> (r: Vec<u8>)
    ensures
        r@ == mode_name(name@),
{
    let s = name.as_slice();
    let mut n = s.len();
    assert(s@.take(n as int) =~= s@);
    while n > 0 && s[n - 1] == DISARMED_MARK
        invariant
            n <= s@.len(),
            s@ == name@,
            strip_marks(name@) == strip_marks(s@.take(n as int)),
        decreases n,
    {
        proof {
            assert(s@.take(n as int).drop_last() =~= s@.take(n - 1));
        }
        n = n - 1;
    }
    assert(strip_marks(name@) == s@.subrange(0, n as int)) by {
        assert(s@.take(n as int) =~= s@.subrange(0, n as int));
    }
    let mut e = n;
    let mut k = ws_suffix_len_exec(s, e);
    while k > 0
        invariant
            e <= n <= s@.len(),
            k == ws_suffix_len(s@.subrange(0, e as int)),
            trim_end_ws(s@.subrange(0, n as int)) == trim_end_ws(s@.subrange(0, e as int)),
        decreases e,
    {
        proof {
            assert(s@.subrange(0, e as int).take(e - k) =~= s@.subrange(0, e - k));
        }
        e = e - k;
        k = ws_suffix_len_exec(s, e);
    }
    let mut st: usize = 0;
    let mut k = ws_prefix_len_exec(s, st, e);
    while k > 0
        invariant
            st <= e <= s@.len(),
            k == ws_prefix_len(s@.subrange(st as int, e as int)),
            trim_start_ws(s@.subrange(0, e as int)) == trim_start_ws(s@.subrange(st as int, e as int)),
        decreases e - st,
    {
        proof {
            assert(s@.subrange(st as int, e as int).skip(k as int) =~= s@.subrange(st + k, e as int));
        }
        st = st + k;
        k = ws_prefix_len_exec(s, st, e);
    }
    let mut r: Vec<u8> = Vec::new();
    let mut i = st;
    while i < e
        invariant
            st <= i <= e <= s@.len(),
            r@ == s@.subrange(st as int, i as int),
        decreases e - i,
    {
        r.push(s[i]);
        proof {
            assert(r@ =~= s@.subrange(st as int, i + 1));
        }
        i = i + 1;
    }
    r
}

impl TelemetryState {
    /// The state before any frame: readings zero, flight mode "UNKNOWN".
    pub fn new() -> (t: Self)
        ensures
            t@ == (TelemetryView { readings: initial_readings(), flight_mode: unknown_mode() }),
    {
        let mut mode: Vec<u8> = Vec::new();
        mode.push(0x55u8);
        mode.push(0x4Eu8);
        mode.push(0x4Bu8);
        mode.push(0x4Eu8);
        mode.push(0x4Fu8);
        mode.push(0x57u8);
        mode.push(0x4Eu8);
        assert(mode@ =~= unknown_mode());
        TelemetryState {
            readings: Readings {
                lat_e7: 0,
                lon_e7: 0,
                altitude: Altitude::Baro(0),
                speed_raw: 0,
                heading: Heading::Gps(0),
                satellites: 0,
                gps_fix: false,
                voltage_dv: 0,
                current_da: 0,
                used_mah: 0,
                battery_pct: 0,
                pitch_raw: 0,
                roll_raw: 0,
                yaw_raw: 0,
                armed: false,
                vspeed_cms: 0,
                link_quality: 0,
                rssi_dbm: 0,
                home_lat_e7: 0,
                home_lon_e7: 0,
                home_set: false,
            },
            flight_mode: mode,
        }
    }

    /// Updates the state with one decoded frame.
    pub fn apply_frame(&mut self, frame: &CrsfFrame)
        ensures
            final(self)@ == apply_frame_spec(old(self)@, frame@),
    {
        match frame {
            CrsfFrame::Gps(g) => {
                let r = &mut self.readings;
                r.lat_e7 = g.lat_e7;
                r.lon_e7 = g.lon_e7;
                r.altitude = Altitude::Gps(g.altitude_raw);
                r.speed_raw = g.ground_speed_raw;
                r.heading = Heading::Gps(g.heading_cdeg);
                r.satellites = g.satellites;
                r.gps_fix = g.satellites >= MIN_FIX_SATELLITES;
                if r.gps_fix && r.armed && !r.home_set {
                    r.home_lat_e7 = g.lat_e7;
                    r.home_lon_e7 = g.lon_e7;
                    r.home_set = true;
                }
            },
            CrsfFrame::Battery(b) => {
                let r = &mut self.readings;
                r.voltage_dv = b.voltage_dv;
                r.current_da = if b.current_da > MAX_CURRENT_DA {
                    0
                } else {
                    b.current_da
                };
                r.used_mah = if b.used_mah > MAX_USED_MAH {
                    0
                } else {
                    b.used_mah
                };
                r.battery_pct = b.remaining_pct;
            },
            CrsfFrame::Attitude(a) => {
                let r = &mut self.readings;
                r.pitch_raw = a.pitch_raw;
                r.roll_raw = a.roll_raw;
                r.yaw_raw = a.yaw_raw;
                if !r.gps_fix {
                    r.heading = Heading::Yaw(a.yaw_raw);
                }
            },
            CrsfFrame::FlightMode(m) => {
                let was_armed = self.readings.armed;
                let armed = !(m.len() > 0 && m[m.len() - 1] == DISARMED_MARK);
                self.readings.armed = armed;
                self.flight_mode = mode_name_exec(m);
                if armed && !was_armed {
                    self.readings.home_set = false;
                }
            },
            CrsfFrame::LinkStats(ls) => {
                self.readings.link_quality = ls.uplink_link_quality;
                self.readings.rssi_dbm = -(ls.uplink_rssi_1 as i16);
            },
            CrsfFrame::Vario(v) => {
                self.readings.vspeed_cms = v.vertical_speed_cms;
            },
            CrsfFrame::BaroAlt(b) => {
                if !self.readings.gps_fix {
                    self.readings.altitude = Altitude::Baro(b.altitude_dm);
                }
                if self.readings.vspeed_cms == 0 {
                    self.readings.vspeed_cms = b.vspeed_cms;
                }
            },
            _ => {},
        }
    }
}

/// The home is set on the first GPS fix while armed, to that fix's
/// position.
pub proof fn lemma_home_set_on_first_fix(t: TelemetryView, g: crate::frame::GpsFrame)
    requires
        t.readings.armed,
        !t.readings.home_set,
        g.satellites >= MIN_FIX_SATELLITES,
    ensures
        apply_frame_spec(t, FrameView::Gps(g)).readings.home_set,
        apply_frame_spec(t, FrameView::Gps(g)).readings.home_lat_e7 == g.lat_e7,
        apply_frame_spec(t, FrameView::Gps(g)).readings.home_lon_e7 == g.lon_e7,
{
}

/// Once set, the home does not move, and only arming (a flight mode frame
/// that turns a disarmed state armed) clears it.
pub proof fn lemma_home_stable(t: TelemetryView, f: FrameView)
    requires
        t.readings.home_set,
    ensures
        apply_frame_spec(t, f).readings.home_lat_e7 == t.readings.home_lat_e7,
        apply_frame_spec(t, f).readings.home_lon_e7 == t.readings.home_lon_e7,
        !apply_frame_spec(t, f).readings.home_set ==> (f is FlightMode && !t.readings.armed
            && apply_frame_spec(t, f).readings.armed),
{
}

/// A home is only ever newly set by a GPS frame, while armed with a fix,
/// at the position just received.
pub proof fn lemma_home_needs_armed_fix(t: TelemetryView, f: FrameView)
    requires
        !t.readings.home_set,
        apply_frame_spec(t, f).readings.home_set,
    ensures
        f is Gps,
        apply_frame_spec(t, f).readings.armed,
        apply_frame_spec(t, f).readings.gps_fix,
        apply_frame_spec(t, f).readings.home_lat_e7 == apply_frame_spec(t, f).readings.lat_e7,
        apply_frame_spec(t, f).readings.home_lon_e7 == apply_frame_spec(t, f).readings.lon_e7,
{
}

/// While there is a GPS fix, altitude and heading come from GPS frames
/// only: barometric altitude and attitude yaw do not replace them.
pub proof fn lemma_fix_keeps_gps_sources(t: TelemetryView, f: FrameView)
    requires
        t.readings.gps_fix,
        !(f is Gps),
    ensures
        apply_frame_spec(t, f).readings.altitude == t.readings.altitude,
        apply_frame_spec(t, f).readings.heading == t.readings.heading,
{
}

/// A name without trailing disarmed marks.
pub proof fn lemma_strip_marks(name: Seq<u8>)
    ensures
        mode_armed(strip_marks(name)),
        strip_marks(name).len() <= name.len(),
        strip_marks(name) == name.take(strip_marks(name).len() as int),
    decreases name.len(),
{
    if name.len() > 0 && name.last() == DISARMED_MARK {
        lemma_strip_marks(name.drop_last());
        let r = strip_marks(name.drop_last());
        assert(name.drop_last().take(r.len() as int) =~= name.take(r.len() as int));
    } else {
        assert(name.take(name.len() as int) =~= name);
    }
}

/// Trimming leading whitespace leaves none at the start.
proof fn lemma_trim_start_clean(s: Seq<u8>)
    ensures
        ws_prefix_len(trim_start_ws(s)) == 0,
    decreases s.len(),
{
    if ws_prefix_len(s) > 0 {
        lemma_trim_start_clean(s.skip(ws_prefix_len(s) as int));
    }
}

/// Trimming trailing whitespace leaves none at the end.
proof fn lemma_trim_end_clean(s: Seq<u8>)
    ensures
        ws_suffix_len(trim_end_ws(s)) == 0,
    decreases s.len(),
{
    if ws_suffix_len(s) > 0 {
        lemma_trim_end_clean(s.take(s.len() - ws_suffix_len(s)));
    }
}

/// A byte string that ends in no whitespace character keeps that through
/// trimming at its start.
proof fn lemma_trim_start_keeps_end_clean(s: Seq<u8>)
    requires
        ws_suffix_len(s) == 0,
    ensures
        ws_suffix_len(trim_start_ws(s)) == 0,
    decreases s.len(),
{
    let n = ws_prefix_len(s);
    if n > 0 {
        let y = s.skip(n as int);
        let l = y.len();
        if l >= 1 {
            assert(y[l - 1] == s[s.len() - 1]);
        }
        if l >= 2 {
            assert(y[l - 2] == s[s.len() - 2]);
        }
        if l >= 3 {
            assert(y[l - 3] == s[s.len() - 3]);
        }
        lemma_trim_start_keeps_end_clean(y);
    }
}

/// A flight mode frame decides arming by the disarmed mark at the end of
/// the name; the mode kept is the name without trailing marks and without
/// surrounding whitespace, so it neither starts nor ends with whitespace.
pub proof fn lemma_flight_mode_arming(t: TelemetryView, m: Seq<u8>)
    ensures
        apply_frame_spec(t, FrameView::FlightMode(m)).readings.armed == mode_armed(m),
        apply_frame_spec(t, FrameView::FlightMode(m)).flight_mode == trim_ws(strip_marks(m)),
        ws_prefix_len(apply_frame_spec(t, FrameView::FlightMode(m)).flight_mode) == 0,
        ws_suffix_len(apply_frame_spec(t, FrameView::FlightMode(m)).flight_mode) == 0,
{
    let e = trim_end_ws(strip_marks(m));
    lemma_trim_end_clean(strip_marks(m));
    lemma_trim_start_clean(e);
    lemma_trim_start_keeps_end_clean(e);
}

/// A GPS frame sets position, altitude, speed, course and satellite count
/// from its own fields, has a fix exactly with six or more satellites, and
/// leaves battery, attitude, arming, link, vertical speed and flight mode
/// alone.
pub proof fn lemma_gps_frame_readings(t: TelemetryView, g: crate::frame::GpsFrame)
    ensures
        ({
            let n = apply_frame_spec(t, FrameView::Gps(g));
            &&& n.readings.lat_e7 == g.lat_e7
            &&& n.readings.lon_e7 == g.lon_e7
            &&& n.readings.altitude == Altitude::Gps(g.altitude_raw)
            &&& n.readings.speed_raw == g.ground_speed_raw
            &&& n.readings.heading == Heading::Gps(g.heading_cdeg)
            &&& n.readings.satellites == g.satellites
            &&& n.readings.gps_fix == (g.satellites >= 6)
            &&& n.readings.voltage_dv == t.readings.voltage_dv
            &&& n.readings.current_da == t.readings.current_da
            &&& n.readings.used_mah == t.readings.used_mah
            &&& n.readings.battery_pct == t.readings.battery_pct
            &&& n.readings.pitch_raw == t.readings.pitch_raw
            &&& n.readings.roll_raw == t.readings.roll_raw
            &&& n.readings.yaw_raw == t.readings.yaw_raw
            &&& n.readings.armed == t.readings.armed
            &&& n.readings.vspeed_cms == t.readings.vspeed_cms
            &&& n.readings.link_quality == t.readings.link_quality
            &&& n.readings.rssi_dbm == t.readings.rssi_dbm
            &&& n.flight_mode == t.flight_mode
        }),
{
}

/// A battery frame sets voltage and remaining percentage from its fields,
/// current and drawn capacity too unless they exceed 500 A (5000 dA) or
/// 100000 mAh, when they read zero; nothing else changes.
pub proof fn lemma_battery_frame_readings(t: TelemetryView, b: crate::frame::BatteryFrame)
    ensures
        ({
            let n = apply_frame_spec(t, FrameView::Battery(b));
            &&& n.readings.voltage_dv == b.voltage_dv
            &&& n.readings.current_da == if b.current_da <= 5000 {
                b.current_da
            } else {
                0
            }
            &&& n.readings.used_mah == if b.used_mah <= 100000 {
                b.used_mah
            } else {
                0
            }
            &&& n.readings.battery_pct == b.remaining_pct
            &&& n.readings.lat_e7 == t.readings.lat_e7
            &&& n.readings.lon_e7 == t.readings.lon_e7
            &&& n.readings.altitude == t.readings.altitude
            &&& n.readings.heading == t.readings.heading
            &&& n.readings.gps_fix == t.readings.gps_fix
            &&& n.readings.pitch_raw == t.readings.pitch_raw
            &&& n.readings.roll_raw == t.readings.roll_raw
            &&& n.readings.yaw_raw == t.readings.yaw_raw
            &&& n.readings.armed == t.readings.armed
            &&& n.readings.home_set == t.readings.home_set
            &&& n.readings.vspeed_cms == t.readings.vspeed_cms
            &&& n.flight_mode == t.flight_mode
        }),
{
}

/// An attitude frame sets pitch, roll and yaw each from the same-named
/// field; without a GPS fix the heading follows its yaw, with one it keeps
/// the GPS course; nothing else changes.
pub proof fn lemma_attitude_frame_readings(t: TelemetryView, a: crate::frame::AttitudeFrame)
    ensures
        ({
            let n = apply_frame_spec(t, FrameView::Attitude(a));
            &&& n.readings.pitch_raw == a.pitch_raw
            &&& n.readings.roll_raw == a.roll_raw
            &&& n.readings.yaw_raw == a.yaw_raw
            &&& n.readings.heading == if t.readings.gps_fix {
                t.readings.heading
            } else {
                Heading::Yaw(a.yaw_raw)
            }
            &&& n.readings.lat_e7 == t.readings.lat_e7
            &&& n.readings.lon_e7 == t.readings.lon_e7
            &&& n.readings.altitude == t.readings.altitude
            &&& n.readings.gps_fix == t.readings.gps_fix
            &&& n.readings.voltage_dv == t.readings.voltage_dv
            &&& n.readings.armed == t.readings.armed
            &&& n.readings.home_set == t.readings.home_set
            &&& n.readings.vspeed_cms == t.readings.vspeed_cms
            &&& n.readings.link_quality == t.readings.link_quality
            &&& n.flight_mode == t.flight_mode
        }),
{
}

/// A link statistics frame sets the link quality from its uplink quality
/// and the RSSI to minus its first uplink RSSI; nothing else changes.
pub proof fn lemma_link_frame_readings(t: TelemetryView, ls: crate::frame::LinkStatsFrame)
    ensures
        ({
            let n = apply_frame_spec(t, FrameView::LinkStats(ls));
            &&& n.readings.link_quality == ls.uplink_link_quality
            &&& n.readings.rssi_dbm == -(ls.uplink_rssi_1 as int)
            &&& n.readings.lat_e7 == t.readings.lat_e7
            &&& n.readings.altitude == t.readings.altitude
            &&& n.readings.voltage_dv == t.readings.voltage_dv
            &&& n.readings.pitch_raw == t.readings.pitch_raw
            &&& n.readings.armed == t.readings.armed
            &&& n.readings.home_set == t.readings.home_set
            &&& n.readings.vspeed_cms == t.readings.vspeed_cms
            &&& n.flight_mode == t.flight_mode
        }),
{
}

/// A vario frame sets the vertical speed; a barometric frame sets the
/// altitude only without a GPS fix and the vertical speed only while it
/// reads zero; neither changes position, battery, attitude or arming.
pub proof fn lemma_vario_baro_readings(
    t: TelemetryView,
    v: crate::frame::VarioFrame,
    b: crate::frame::BaroAltFrame,
)
    ensures
        apply_frame_spec(t, FrameView::Vario(v)).readings.vspeed_cms == v.vertical_speed_cms,
        apply_frame_spec(t, FrameView::Vario(v)).readings.altitude == t.readings.altitude,
        apply_frame_spec(t, FrameView::Vario(v)).readings.armed == t.readings.armed,
        ({
            let n = apply_frame_spec(t, FrameView::BaroAlt(b));
            &&& n.readings.altitude == if t.readings.gps_fix {
                t.readings.altitude
            } else {
                Altitude::Baro(b.altitude_dm)
            }
            &&& n.readings.vspeed_cms == if t.readings.vspeed_cms == 0 {
                b.vspeed_cms
            } else {
                t.readings.vspeed_cms
            }
            &&& n.readings.lat_e7 == t.readings.lat_e7
            &&& n.readings.voltage_dv == t.readings.voltage_dv
            &&& n.readings.pitch_raw == t.readings.pitch_raw
            &&& n.readings.armed == t.readings.armed
            &&& n.readings.home_set == t.readings.home_set
            &&& n.flight_mode == t.flight_mode
        }),
{
}

/// Heartbeats, RC channel frames and unknown frames leave the state as it
/// is.
pub proof fn lemma_other_frames_ignored(t: TelemetryView, c: Seq<u16>, ty: u8)
    ensures
        apply_frame_spec(t, FrameView::Heartbeat) == t,
        apply_frame_spec(t, FrameView::RcChannels(c)) == t,
        apply_frame_spec(t, FrameView::Unknown(ty)) == t,
{
}

} // verus!
