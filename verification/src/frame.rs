//! Telemetry frame types and the decoding of one complete CRSF frame.
//!
//! Sensor readings are kept as the integers the frame carries; their scale
//! is given with each field.

use vstd::prelude::*;
use crate::rc::{
    unpack_channel, TYPE_ATTITUDE, TYPE_BARO_ALT, TYPE_BATTERY, TYPE_FLIGHT_MODE, TYPE_GPS,
    TYPE_HEARTBEAT, TYPE_LINK_STATS, TYPE_RC_CHANNELS, TYPE_VARIO,
};

verus! {

/// GPS position report.
#[derive(Debug, Clone, Copy, PartialEq, Eq)]
pub struct GpsFrame {
    /// Latitude in 1e-7 degrees.
    pub lat_e7: i32,
    /// Longitude in 1e-7 degrees.
    pub lon_e7: i32,
    /// Ground speed field as sent, in tenths of the sender's unit.
    pub ground_speed_raw: u16,
    /// Heading in hundredths of a degree.
    pub heading_cdeg: u16,
    /// Altitude in metres plus 1000.
    pub altitude_raw: u16,
    /// Number of satellites in view (0 when the frame omits it).
    pub satellites: u8,
}

/// Battery sensor report.
#[derive(Debug, Clone, Copy, PartialEq, Eq)]
pub struct BatteryFrame {
    /// Voltage in decivolts.
    pub voltage_dv: u16,
    /// Current in deciamperes.
    pub current_da: u16,
    /// Capacity drawn in mAh (24-bit field).
    pub used_mah: u32,
    /// Remaining capacity in percent.
    pub remaining_pct: u8,
}

/// Attitude report.
#[derive(Debug, Clone, Copy, PartialEq, Eq)]
pub struct AttitudeFrame {
    /// Pitch in 1e-4 radians.
    pub pitch_raw: i16,
    /// Roll in 1e-4 radians.
    pub roll_raw: i16,
    /// Yaw in 1e-4 radians.
    pub yaw_raw: i16,
}

/// Link statistics report (uplink part).
#[derive(Debug, Clone, Copy, PartialEq, Eq)]
pub struct LinkStatsFrame {
    pub uplink_rssi_1: u8,
    pub uplink_rssi_2: u8,
    pub uplink_link_quality: u8,
    pub uplink_snr: i8,
}

/// Variometer report.
#[derive(Debug, Clone, Copy, PartialEq, Eq)]
pub struct VarioFrame {
    /// Vertical speed in cm/s.
    pub vertical_speed_cms: i16,
}

/// Barometric altitude report.
#[derive(Debug, Clone, Copy, PartialEq, Eq)]
pub struct BaroAltFrame {
    /// Altitude in decimetres.
    pub altitude_dm: u16,
    /// Vertical speed in cm/s.
    pub vspeed_cms: i16,
}

/// One decoded CRSF frame.
#[derive(Debug, Clone, PartialEq, Eq)]
pub enum CrsfFrame {
    Gps(GpsFrame),
    Battery(BatteryFrame),
    Attitude(AttitudeFrame),
    /// The flight mode name: the payload bytes before the first NUL.
    FlightMode(Vec<u8>),
    LinkStats(LinkStatsFrame),
    Vario(VarioFrame),
    BaroAlt(BaroAltFrame),
    /// The 16 11-bit CRSF channel values.
    RcChannels([u16; 16]),
    Heartbeat,
    /// A frame of another type, or one too short for its type.
    Unknown(u8),
}

/// The mathematical value of a frame.
pub ghost enum FrameView {
    Gps(GpsFrame),
    Battery(BatteryFrame),
    Attitude(AttitudeFrame),
    FlightMode(Seq<u8>),
    LinkStats(LinkStatsFrame),
    Vario(VarioFrame),
    BaroAlt(BaroAltFrame),
    RcChannels(Seq<u16>),
    Heartbeat,
    Unknown(u8),
}

impl View for CrsfFrame {
    type V = FrameView;

    open spec fn view(&self) -> FrameView {
        match self {
            CrsfFrame::Gps(g) => FrameView::Gps(*g),
            CrsfFrame::Battery(b) => FrameView::Battery(*b),
            CrsfFrame::Attitude(a) => FrameView::Attitude(*a),
            CrsfFrame::FlightMode(m) => FrameView::FlightMode(m@),
            CrsfFrame::LinkStats(l) => FrameView::LinkStats(*l),
            CrsfFrame::Vario(v) => FrameView::Vario(*v),
            CrsfFrame::BaroAlt(b) => FrameView::BaroAlt(*b),
            CrsfFrame::RcChannels(c) => FrameView::RcChannels(c@),
            CrsfFrame::Heartbeat => FrameView::Heartbeat,
            CrsfFrame::Unknown(t) => FrameView::Unknown(*t),
        }
    }
}

/// Big-endian unsigned 16-bit number.
pub open spec fn be_u16(hi: u8, lo: u8) -> u16 {
    (hi as int * 256 + lo as int) as u16
}

/// Big-endian two's-complement 16-bit number.
pub open spec fn be_i16(hi: u8, lo: u8) -> i16 {
    be_u16(hi, lo) as i16
}

/// Big-endian unsigned 24-bit number.
pub open spec fn be_u24(b0: u8, b1: u8, b2: u8) -> u32 {
    (b0 as int * 65536 + b1 as int * 256 + b2 as int) as u32
}

/// Big-endian two's-complement 32-bit number.
pub open spec fn be_i32(b0: u8, b1: u8, b2: u8, b3: u8) -> i32 {
    ((b0 as int * 16777216 + b1 as int * 65536 + b2 as int * 256 + b3 as int) as u32) as i32
}

/// Index of the first NUL byte of `s` at or after `i`, or `s.len()`.
pub open spec fn nul_pos(s: Seq<u8>, i: int) -> int
    decreases s.len() - i,
{
    if i < 0 || i >= s.len() {
        s.len() as int
    } else if s[i] == 0 {
        i
    } else {
        nul_pos(s, i + 1)
    }
}

/// The payload of a raw frame: everything between type byte and CRC.
pub open spec fn frame_payload(raw: Seq<u8>) -> Seq<u8> {
    raw.subrange(3, raw.len() - 1)
}

/// What a complete raw frame `[sync][len][type][payload..][crc]` decodes
/// to. A type whose payload is shorter than its fields decodes as unknown.
pub open spec fn decode_frame(raw: Seq<u8>) -> FrameView {
    let t = raw[2];
    let p = frame_payload(raw);
    if t == TYPE_GPS && p.len() >= 14 {
        FrameView::Gps(
            GpsFrame {
                lat_e7: be_i32(p[0], p[1], p[2], p[3]),
                lon_e7: be_i32(p[4], p[5], p[6], p[7]),
                ground_speed_raw: be_u16(p[8], p[9]),
                heading_cdeg: be_u16(p[10], p[11]),
                altitude_raw: be_u16(p[12], p[13]),
                satellites: if p.len() > 14 {
                    p[14]
                } else {
                    0
                },
            },
        )
    } else if t == TYPE_BATTERY && p.len() >= 8 {
        FrameView::Battery(
            BatteryFrame {
                voltage_dv: be_u16(p[0], p[1]),
                current_da: be_u16(p[2], p[3]),
                used_mah: be_u24(p[4], p[5], p[6]),
                remaining_pct: p[7],
            },
        )
    } else if t == TYPE_ATTITUDE && p.len() >= 6 {
        FrameView::Attitude(
            AttitudeFrame {
                pitch_raw: be_i16(p[0], p[1]),
                roll_raw: be_i16(p[2], p[3]),
                yaw_raw: be_i16(p[4], p[5]),
            },
        )
    } else if t == TYPE_FLIGHT_MODE {
        FrameView::FlightMode(p.take(nul_pos(p, 0)))
    } else if t == TYPE_LINK_STATS && p.len() >= 10 {
        FrameView::LinkStats(
            LinkStatsFrame {
                uplink_rssi_1: p[0],
                uplink_rssi_2: p[1],
                uplink_link_quality: p[2],
                uplink_snr: p[3] as i8,
            },
        )
    } else if t == TYPE_VARIO && p.len() >= 2 {
        FrameView::Vario(VarioFrame { vertical_speed_cms: be_i16(p[0], p[1]) })
    } else if t == TYPE_BARO_ALT && p.len() >= 4 {
        FrameView::BaroAlt(
            BaroAltFrame { altitude_dm: be_u16(p[0], p[1]), vspeed_cms: be_i16(p[2], p[3]) },
        )
    } else if t == TYPE_HEARTBEAT {
        FrameView::Heartbeat
    } else if t == TYPE_RC_CHANNELS && p.len() >= 22 {
        FrameView::RcChannels(Seq::new(16, |i: int| unpack_channel(p, i)))
    } else {
        FrameView::Unknown(t)
    }
}

fn read_be_u16(p: &[u8], k: usize) -> (v: u16)
    requires
        k + 1 < p@.len(),
    ensures
        v == be_u16(p@[k as int], p@[k + 1]),
{
    (p[k] as u16) * 256 + p[k + 1] as u16
}

fn read_be_i16(p: &[u8], k: usize) -> (v: i16)
    requires
        k + 1 < p@.len(),
    ensures
        v == be_i16(p@[k as int], p@[k + 1]),
{
    read_be_u16(p, k) as i16
}

fn read_be_i32(p: &[u8], k: usize) -> (v: i32)
    requires
        k + 3 < p@.len(),
    ensures
        v == be_i32(p@[k as int], p@[k + 1], p@[k + 2], p@[k + 3]),
{
    let u: u32 = (p[k] as u32) * 16777216 + (p[k + 1] as u32) * 65536 + (p[k + 2] as u32) * 256
        + p[k + 3] as u32;
    u as i32
}

/// The flight mode name in a payload: the bytes before the first NUL.
fn read_name(p: &[u8]) -> (name: Vec<u8>)
    ensures
        name@ == p@.take(nul_pos(p@, 0)),
{
    let mut name: Vec<u8> = Vec::new();
    let mut i: usize = 0;
    while i < p.len() && p[i] != 0
        invariant
            i <= p@.len(),
            nul_pos(p@, 0) == nul_pos(p@, i as int),
            name@ == p@.take(i as int),
        decreases p@.len() - i,
    {
        name.push(p[i]);
        proof {
            assert(name@ =~= p@.take(i + 1));
        }
        i = i + 1;
    }
    name
}

/// The 16 channel values of an RC payload.
fn read_channels(p: &[u8]) -> (ch: [u16; 16])
    requires
        p@.len() >= 22,
    ensures
        ch@ == Seq::new(16, |i: int| unpack_channel(p@, i)),
{
    let mut ch = [0u16; 16];
    let mut i: usize = 0;
    while i < 16
        invariant
            i <= 16,
            p@.len() >= 22,
            ch@.len() == 16,
            forall|m: int| 0 <= m < i ==> ch@[m] == unpack_channel(p@, m),
        decreases 16 - i,
    {
        let bit = i * 11;
        let byte = bit / 8;
        let off = (bit % 8) as u32;
        let b0 = p[byte] as u32;
        let b1 = p[byte + 1] as u32;
        let b2: u32 = if byte + 2 < p.len() {
            p[byte + 2] as u32
        } else {
            0
        };
        let raw_val = ((b0 | (b1 << 8)) | (b2 << 16)) >> off;
        ch[i] = (raw_val & 0x7FF) as u16;
        i = i + 1;
    }
    assert(ch@ =~= Seq::new(16, |i: int| unpack_channel(p@, i)));
    ch
}

/// Decodes one complete raw frame `[sync][len][type][payload..][crc]`.
/// Every type gives a frame: unknown types, and types whose payload is too
/// short, come back as `CrsfFrame::Unknown`.
pub fn parse_frame(raw: &[u8]) -> (res: Option<CrsfFrame>)
    requires
        raw@.len() >= 4,
    ensures
        res matches Some(f) && f@ == decode_frame(raw@),
{
    let ftype = raw[2];
    let payload = vstd::slice::slice_subrange(raw, 3, raw.len() - 1);
    let ghost p = payload@;
    assert(p == frame_payload(raw@));
    let n = payload.len();
    if ftype == TYPE_GPS && n >= 14 {
        Some(
            CrsfFrame::Gps(
                GpsFrame {
                    lat_e7: read_be_i32(payload, 0),
                    lon_e7: read_be_i32(payload, 4),
                    ground_speed_raw: read_be_u16(payload, 8),
                    heading_cdeg: read_be_u16(payload, 10),
                    altitude_raw: read_be_u16(payload, 12),
                    satellites: if n > 14 {
                        payload[14]
                    } else {
                        0
                    },
                },
            ),
        )
    } else if ftype == TYPE_BATTERY && n >= 8 {
        let mah: u32 = (payload[4] as u32) * 65536 + (payload[5] as u32) * 256 + payload[6] as u32;
        Some(
            CrsfFrame::Battery(
                BatteryFrame {
                    voltage_dv: read_be_u16(payload, 0),
                    current_da: read_be_u16(payload, 2),
                    used_mah: mah,
                    remaining_pct: payload[7],
                },
            ),
        )
    } else if ftype == TYPE_ATTITUDE && n >= 6 {
        Some(
            CrsfFrame::Attitude(
                AttitudeFrame {
                    pitch_raw: read_be_i16(payload, 0),
                    roll_raw: read_be_i16(payload, 2),
                    yaw_raw: read_be_i16(payload, 4),
                },
            ),
        )
    } else if ftype == TYPE_FLIGHT_MODE {
        Some(CrsfFrame::FlightMode(read_name(payload)))
    } else if ftype == TYPE_LINK_STATS && n >= 10 {
        Some(
            CrsfFrame::LinkStats(
                LinkStatsFrame {
                    uplink_rssi_1: payload[0],
                    uplink_rssi_2: payload[1],
                    uplink_link_quality: payload[2],
                    uplink_snr: payload[3] as i8,
                },
            ),
        )
    } else if ftype == TYPE_VARIO && n >= 2 {
        Some(CrsfFrame::Vario(VarioFrame { vertical_speed_cms: read_be_i16(payload, 0) }))
    } else if ftype == TYPE_BARO_ALT && n >= 4 {
        Some(
            CrsfFrame::BaroAlt(
                BaroAltFrame {
                    altitude_dm: read_be_u16(payload, 0),
                    vspeed_cms: read_be_i16(payload, 2),
                },
            ),
        )
    } else if ftype == TYPE_HEARTBEAT {
        Some(CrsfFrame::Heartbeat)
    } else if ftype == TYPE_RC_CHANNELS && n >= 22 {
        Some(CrsfFrame::RcChannels(read_channels(payload)))
    } else {
        Some(CrsfFrame::Unknown(ftype))
    }
}

/// The signed 16-bit value of a big-endian byte pair, in arithmetic.
proof fn lemma_be_i16_value(hi: u8, lo: u8)
    ensures
        be_i16(hi, lo) as int == hi as int * 256 + lo as int - if hi >= 128 {
            65536int
        } else {
            0int
        },
        be_u16(hi, lo) as int == hi as int * 256 + lo as int,
{
    let u = be_u16(hi, lo);
    assert(u as int == hi as int * 256 + lo as int);
    assert((u as i16) as int == u as int - if u >= 32768 {
        65536int
    } else {
        0int
    }) by (bit_vector);
}

/// The signed 32-bit value of four big-endian bytes, in arithmetic.
proof fn lemma_be_i32_value(b0: u8, b1: u8, b2: u8, b3: u8)
    ensures
        be_i32(b0, b1, b2, b3) as int == b0 as int * 16777216 + b1 as int * 65536 + b2 as int * 256
            + b3 as int - if b0 >= 128 {
            4294967296int
        } else {
            0int
        },
{
    let x = b0 as int * 16777216 + b1 as int * 65536 + b2 as int * 256 + b3 as int;
    let u = x as u32;
    assert(u as int == x);
    assert((u as i32) as int == u as int - if u >= 2147483648 {
        4294967296int
    } else {
        0int
    }) by (bit_vector);
}

/// A GPS frame decodes its fields from the payload in order: latitude from
/// bytes 0-3 and longitude from bytes 4-7 (big-endian, signed), speed from
/// 8-9, course from 10-11, altitude from 12-13 (big-endian, unsigned), and
/// the satellite count from byte 14 when present.
pub proof fn lemma_decode_gps(raw: Seq<u8>)
    requires
        raw.len() >= 4,
        raw[2] == 0x02,
        raw.len() - 4 >= 14,
    ensures
        ({
            let p = raw.subrange(3, raw.len() - 1);
            decode_frame(raw) matches FrameView::Gps(g) && {
                &&& g.lat_e7 as int == p[0] as int * 16777216 + p[1] as int * 65536 + p[2] as int
                    * 256 + p[3] as int - if p[0] >= 128 {
                    4294967296int
                } else {
                    0int
                }
                &&& g.lon_e7 as int == p[4] as int * 16777216 + p[5] as int * 65536 + p[6] as int
                    * 256 + p[7] as int - if p[4] >= 128 {
                    4294967296int
                } else {
                    0int
                }
                &&& g.ground_speed_raw as int == p[8] as int * 256 + p[9] as int
                &&& g.heading_cdeg as int == p[10] as int * 256 + p[11] as int
                &&& g.altitude_raw as int == p[12] as int * 256 + p[13] as int
                &&& g.satellites == if p.len() > 14 {
                    p[14]
                } else {
                    0u8
                }
            }
        }),
{
    let p = raw.subrange(3, raw.len() - 1);
    lemma_be_i32_value(p[0], p[1], p[2], p[3]);
    lemma_be_i32_value(p[4], p[5], p[6], p[7]);
    lemma_be_i16_value(p[8], p[9]);
    lemma_be_i16_value(p[10], p[11]);
    lemma_be_i16_value(p[12], p[13]);
}

/// A battery frame decodes voltage from bytes 0-1, current from 2-3
/// (big-endian), drawn capacity from the 24-bit big-endian bytes 4-6 and
/// the remaining percentage from byte 7.
pub proof fn lemma_decode_battery(raw: Seq<u8>)
    requires
        raw.len() >= 4,
        raw[2] == 0x08,
        raw.len() - 4 >= 8,
    ensures
        ({
            let p = raw.subrange(3, raw.len() - 1);
            decode_frame(raw) matches FrameView::Battery(b) && {
                &&& b.voltage_dv as int == p[0] as int * 256 + p[1] as int
                &&& b.current_da as int == p[2] as int * 256 + p[3] as int
                &&& b.used_mah as int == p[4] as int * 65536 + p[5] as int * 256 + p[6] as int
                &&& b.remaining_pct == p[7]
            }
        }),
{
    let p = raw.subrange(3, raw.len() - 1);
    lemma_be_i16_value(p[0], p[1]);
    lemma_be_i16_value(p[2], p[3]);
}

/// An attitude frame decodes pitch, roll and yaw, in that order, from the
/// big-endian signed byte pairs 0-1, 2-3 and 4-5.
pub proof fn lemma_decode_attitude(raw: Seq<u8>)
    requires
        raw.len() >= 4,
        raw[2] == 0x1E,
        raw.len() - 4 >= 6,
    ensures
        ({
            let p = raw.subrange(3, raw.len() - 1);
            decode_frame(raw) matches FrameView::Attitude(a) && {
                &&& a.pitch_raw as int == p[0] as int * 256 + p[1] as int - if p[0] >= 128 {
                    65536int
                } else {
                    0int
                }
                &&& a.roll_raw as int == p[2] as int * 256 + p[3] as int - if p[2] >= 128 {
                    65536int
                } else {
                    0int
                }
                &&& a.yaw_raw as int == p[4] as int * 256 + p[5] as int - if p[4] >= 128 {
                    65536int
                } else {
                    0int
                }
            }
        }),
{
    let p = raw.subrange(3, raw.len() - 1);
    lemma_be_i16_value(p[0], p[1]);
    lemma_be_i16_value(p[2], p[3]);
    lemma_be_i16_value(p[4], p[5]);
}

/// Link statistics decode the two uplink RSSIs, the link quality and the
/// SNR (signed) from bytes 0-3; a variometer frame its vertical speed and a
/// barometric frame altitude and vertical speed from big-endian pairs.
pub proof fn lemma_decode_link_vario_baro(raw: Seq<u8>)
    requires
        raw.len() >= 4,
    ensures
        ({
            let p = raw.subrange(3, raw.len() - 1);
            &&& raw[2] == 0x14 && p.len() >= 10 ==> (decode_frame(raw) matches FrameView::LinkStats(
                l,
            ) && l.uplink_rssi_1 == p[0] && l.uplink_rssi_2 == p[1] && l.uplink_link_quality
                == p[2] && l.uplink_snr as int == p[3] as int - if p[3] >= 128 {
                256int
            } else {
                0int
            })
            &&& raw[2] == 0x07 && p.len() >= 2 ==> (decode_frame(raw) matches FrameView::Vario(v)
                && v.vertical_speed_cms as int == p[0] as int * 256 + p[1] as int - if p[0]
                >= 128 {
                65536int
            } else {
                0int
            })
            &&& raw[2] == 0x09 && p.len() >= 4 ==> (decode_frame(raw) matches FrameView::BaroAlt(b)
                && b.altitude_dm as int == p[0] as int * 256 + p[1] as int && b.vspeed_cms as int
                == p[2] as int * 256 + p[3] as int - if p[2] >= 128 {
                65536int
            } else {
                0int
            })
        }),
{
    let p = raw.subrange(3, raw.len() - 1);
    if p.len() >= 4 {
        lemma_be_i16_value(p[0], p[1]);
        lemma_be_i16_value(p[2], p[3]);
        let x = p[3];
        assert((x as i8) as int == x as int - if x >= 128 {
            256int
        } else {
            0int
        }) by (bit_vector);
    } else if p.len() >= 2 {
        lemma_be_i16_value(p[0], p[1]);
    }
}

} // verus!
