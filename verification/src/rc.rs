//! RC channel encoding: microseconds to 11-bit CRSF values, and the 26-byte
//! RC_CHANNELS_PACKED frame.

use vstd::prelude::*;
use crate::crc::{crc8_dvb_s2, crc8_spec};

verus! {

/// Start byte of every CRSF frame.
pub const CRSF_SYNC: u8 = 0xC8;
/// Frame type: RC channels, 16 packed 11-bit values.
pub const TYPE_RC_CHANNELS: u8 = 0x16;
/// Frame type: GPS position.
pub const TYPE_GPS: u8 = 0x02;
/// Frame type: battery sensor.
pub const TYPE_BATTERY: u8 = 0x08;
/// Frame type: attitude (pitch, roll, yaw).
pub const TYPE_ATTITUDE: u8 = 0x1E;
/// Frame type: flight mode name.
pub const TYPE_FLIGHT_MODE: u8 = 0x21;
/// Frame type: link statistics.
pub const TYPE_LINK_STATS: u8 = 0x14;
/// Frame type: variometer.
pub const TYPE_VARIO: u8 = 0x07;
/// Frame type: barometric altitude.
pub const TYPE_BARO_ALT: u8 = 0x09;
/// Frame type: heartbeat.
pub const TYPE_HEARTBEAT: u8 = 0x0B;

/// Lowest stick position in microseconds.
pub const RC_MIN_US: u16 = 988;
/// Centre stick position in microseconds.
pub const RC_MID_US: u16 = 1500;
/// Highest stick position in microseconds.
pub const RC_MAX_US: u16 = 2012;

/// Number of RC channels in a frame.
pub const RC_CHANNELS: usize = 16;
/// Length of the packed channel payload in bytes (16 x 11 bits).
pub const RC_PAYLOAD_LEN: usize = 22;
/// Length of a complete RC frame in bytes.
pub const RC_FRAME_LEN: usize = 26;

/// `us` limited to the range `RC_MIN_US..=RC_MAX_US`.
pub open spec fn clamp_us(us: u16) -> int {
    if us < RC_MIN_US {
        RC_MIN_US as int
    } else if us > RC_MAX_US {
        RC_MAX_US as int
    } else {
        us as int
    }
}

/// The 11-bit CRSF value of a stick position in microseconds: the clamped
/// range 988..=2012 is scaled linearly (rounding down) onto 172..=1811.
pub open spec fn us_to_crsf_spec(us: u16) -> u16 {
    (((clamp_us(us) - 988) * 1639) / 1024 + 172) as u16
}

/// Converts microseconds [988..2012] to the 11-bit CRSF value [172..1811].
pub fn us_to_crsf(us: u16) -> (v: u16)
    ensures
        v == us_to_crsf_spec(us),
        172 <= v <= 1811,
{
    let c: u32 = if us < RC_MIN_US {
        RC_MIN_US as u32
    } else if us > RC_MAX_US {
        RC_MAX_US as u32
    } else {
        us as u32
    };
    assert(c == clamp_us(us));
    assert((c - 988) * 1639 <= 1024 * 1639) by (nonlinear_arith)
        requires
            988 <= c <= 2012,
    ;
    (((c - 988) * 1639) / 1024 + 172) as u16
}

/// Bit `j` of `x` (bit 0 is the least significant).
pub open spec fn bit(x: u64, j: u64) -> bool {
    (x >> j) & 1u64 == 1u64
}

/// Bit `n` of a byte string read as one little-endian bit stream: bit `n % 8`
/// of byte `n / 8`.
pub open spec fn payload_bit(payload: Seq<u8>, n: int) -> bool {
    bit(payload[n / 8] as u64, (n % 8) as u64)
}

/// Bit `n` of a run of 11-bit values laid end to end, least significant bit
/// first: bit `n % 11` of value `n / 11`.
pub open spec fn channel_bit(values: Seq<u16>, n: int) -> bool {
    bit(values[n / 11] as u64, (n % 11) as u64)
}

/// `payload` is the 22-byte packing of the 16 11-bit `values`: every one of
/// its 176 bits is the matching bit of the value stream.
pub open spec fn packs_channels(payload: Seq<u8>, values: Seq<u16>) -> bool {
    &&& payload.len() == RC_PAYLOAD_LEN
    &&& values.len() == RC_CHANNELS
    &&& forall|n: int| 0 <= n < 176 ==> #[trigger] payload_bit(payload, n) == channel_bit(values, n)
}

/// The CRSF values of a sequence of stick positions.
pub open spec fn crsf_values(channels: Seq<u16>) -> Seq<u16> {
    channels.map_values(|us: u16| us_to_crsf_spec(us))
}

/// `frame` is the RC_CHANNELS_PACKED frame for the stick positions
/// `channels`: sync byte, length 24, type, the packed CRSF values, and the
/// CRC-8/DVB-S2 of type and payload.
pub open spec fn is_rc_frame(frame: Seq<u8>, channels: Seq<u16>) -> bool {
    &&& frame.len() == RC_FRAME_LEN
    &&& frame[0] == CRSF_SYNC
    &&& frame[1] == 24
    &&& frame[2] == TYPE_RC_CHANNELS
    &&& packs_channels(frame.subrange(3, 25), crsf_values(channels))
    &&& frame[25] == crc8_spec(frame.subrange(2, 25))
}

/// The first `upto` bits of the value stream are in `out`, all later bits
/// are still zero.
spec fn packed_prefix(out: Seq<u8>, values: Seq<u16>, upto: int) -> bool {
    forall|k: int, j: int|
        0 <= k < 22 && 0 <= j < 8 ==> #[trigger] bit(out[k] as u64, j as u64) == (8 * k + j
            < upto && channel_bit(values, 8 * k + j))
}

/// Or-ing byte `d` of `v << off` into `x` sets exactly the bits of `v` that
/// land in that byte.
proof fn lemma_or_chunk_bit(x: u8, v: u64, off: u64, d: u64, j: u64)
    requires
        v < 2048,
        off < 8,
        d < 3,
        j < 8,
    ensures
        bit((x | (((v << off) >> (8 * d)) & 0xFF) as u8) as u64, j) == (bit(x as u64, j) || (off
            <= 8 * d + j && 8 * d + j < off + 11 && bit(v, (8 * d + j - off) as u64))),
{
    assert(bit((x | (((v << off) >> (8 * d)) & 0xFF) as u8) as u64, j) == (bit(x as u64, j) || (off
        <= 8 * d + j && 8 * d + j < off + 11 && bit(v, (8 * d + j - off) as u64)))) by (bit_vector)
        requires
            v < 2048,
            off < 8,
            d < 3,
            j < 8,
    ;
}

/// Builds the 26-byte CRSF RC_CHANNELS_PACKED frame for 16 stick positions
/// in microseconds (988..=2012, centre 1500).
pub fn build_rc_frame(channels: &[u16; 16]) -> (frame: [u8; 26])
    ensures
        is_rc_frame(frame@, channels@),
{
    let ghost values = crsf_values(channels@);
    let mut out = [0u8; 22];
    let mut i: usize = 0;
    assert(packed_prefix(out@, values, 0)) by {
        assert forall|k: int, j: int| 0 <= k < 22 && 0 <= j < 8 implies #[trigger] bit(
            out@[k] as u64,
            j as u64,
        ) == (8 * k + j < 0 && channel_bit(values, 8 * k + j)) by {
            assert(out@[k] == 0u8);
            let jj = j as u64;
            assert(!bit(0u8 as u64, jj)) by (bit_vector);
        }
    }
    while i < 16
        invariant
            i <= 16,
            out@.len() == 22,
            values == crsf_values(channels@),
            packed_prefix(out@, values, 11 * i),
        decreases 16 - i,
    {
        let v = us_to_crsf(channels[i]) as u64;
        assert(v == values[i as int]);
        let bit_pos: usize = 11 * i;
        let byte_idx = bit_pos / 8;
        let bit_off = (bit_pos % 8) as u64;
        let chunk = v << bit_off;
        let ghost old_out = out@;
        out[byte_idx] = out[byte_idx] | (chunk & 0xFF) as u8;
        if byte_idx + 1 < 22 {
            out[byte_idx + 1] = out[byte_idx + 1] | ((chunk >> 8) & 0xFF) as u8;
        }
        if byte_idx + 2 < 22 {
            out[byte_idx + 2] = out[byte_idx + 2] | ((chunk >> 16) & 0xFF) as u8;
        }
        proof {
            let b = byte_idx as int;
            let off = bit_off;
            assert(8 * b + off == 11 * i);
            assert(((v << off) >> 0u64) == (v << off)) by (bit_vector);
            assert forall|k: int, j: int| 0 <= k < 22 && 0 <= j < 8 implies #[trigger] bit(
                out@[k] as u64,
                j as u64,
            ) == (8 * k + j < 11 * (i + 1) && channel_bit(values, 8 * k + j)) by {
                let n = 8 * k + j;
                let jj = j as u64;
                assert(bit(old_out[k] as u64, jj) == (n < 11 * i && channel_bit(values, n)));
                if b <= k <= b + 2 && k < 22 {
                    let d = (k - b) as u64;
                    lemma_or_chunk_bit(old_out[k], v, off, d, jj);
                    assert(out@[k] == (old_out[k] | (((v << off) >> (8 * d)) & 0xFF) as u8));
                    if 11 * i <= n < 11 * (i + 1) {
                        assert(n / 11 == i);
                        assert(n % 11 == n - 11 * i);
                        assert(8 * d + jj - off == n - 11 * i);
                    }
                } else {
                    assert(out@[k] == old_out[k]);
                    if b + 2 < k {
                        assert(n >= 11 * (i + 1));
                    } else {
                        assert(n < 11 * i);
                    }
                }
            }
        }
        i = i + 1;
    }
    let mut frame = [0u8; 26];
    frame[0] = CRSF_SYNC;
    frame[1] = 24;
    frame[2] = TYPE_RC_CHANNELS;
    let mut k: usize = 0;
    while k < 22
        invariant
            k <= 22,
            frame@.len() == 26,
            out@.len() == 22,
            frame[0] == CRSF_SYNC,
            frame[1] == 24,
            frame[2] == TYPE_RC_CHANNELS,
            forall|m: int| 0 <= m < k ==> frame@[3 + m] == out@[m],
        decreases 22 - k,
    {
        frame[3 + k] = out[k];
        k = k + 1;
    }
    let crc = crc8_dvb_s2(vstd::slice::slice_subrange(frame.as_slice(), 2, 25));
    let ghost before = frame@;
    frame[25] = crc;
    proof {
        assert(frame@.subrange(2, 25) =~= before.subrange(2, 25));
        let payload = frame@.subrange(3, 25);
        assert(payload =~= out@);
        assert forall|n: int| 0 <= n < 176 implies #[trigger] payload_bit(payload, n)
            == channel_bit(values, n) by {
            let k = n / 8;
            let j = n % 8;
            assert(bit(out@[k] as u64, j as u64) == (8 * k + j < 176 && channel_bit(values, 8 * k + j)));
        }
    }
    frame
}

} // verus!

verus! {

/// Stick positions of the neutral frame: every channel centred, throttle
/// (channel 3, index 2) at minimum.
pub open spec fn neutral_channels() -> Seq<u16> {
    Seq::new(16, |i: int| if i == 2 { RC_MIN_US } else { RC_MID_US })
}

/// Stick positions of the failsafe frame: neutral sticks with channel 5
/// (index 4) high, which makes ArduPilot enter its failsafe.
pub open spec fn failsafe_channels() -> Seq<u16> {
    neutral_channels().update(4, RC_MAX_US)
}

/// Builds the neutral RC frame: all sticks centred, throttle at minimum.
pub fn build_neutral_frame() -> (frame: [u8; 26])
    ensures
        is_rc_frame(frame@, neutral_channels()),
{
    let mut ch = [RC_MID_US; 16];
    ch[2] = RC_MIN_US;
    assert(ch@ =~= neutral_channels());
    build_rc_frame(&ch)
}

/// Builds the failsafe RC frame: neutral sticks with channel 5 high.
pub fn build_failsafe_frame() -> (frame: [u8; 26])
    ensures
        is_rc_frame(frame@, failsafe_channels()),
{
    let mut ch = [RC_MID_US; 16];
    ch[2] = RC_MIN_US;
    ch[4] = 2012;
    assert(ch@ =~= failsafe_channels());
    build_rc_frame(&ch)
}

/// Byte `k` of `payload`, or zero past its end.
pub open spec fn payload_byte(payload: Seq<u8>, k: int) -> u32 {
    if 0 <= k < payload.len() {
        payload[k] as u32
    } else {
        0
    }
}

/// The 11-bit value that starts at bit `11 * i` of `payload`, read from the
/// (up to) three bytes it spans.
pub open spec fn unpack_channel(payload: Seq<u8>, i: int) -> u16 {
    let b = (11 * i) / 8;
    let off = ((11 * i) % 8) as u32;
    ((((payload_byte(payload, b) | (payload_byte(payload, b + 1) << 8u32)) | (payload_byte(
        payload,
        b + 2,
    ) << 16u32)) >> off) & 0x7FFu32) as u16
}

/// The 11 bits that start at bit `off` of three little-endian bytes.
proof fn lemma_window_bit(x0: u8, x1: u8, x2: u8, off: u32, j: u64)
    requires
        off < 8,
        j < 11,
    ensures
        bit(
            (((((x0 as u32 | ((x1 as u32) << 8u32)) | ((x2 as u32) << 16u32)) >> off) & 0x7FFu32) as u16) as u64,
            j,
        ) == if (off as u64) + j < 8 {
            bit(x0 as u64, ((off as u64) + j) as u64)
        } else if (off as u64) + j < 16 {
            bit(x1 as u64, ((off as u64) + j - 8) as u64)
        } else {
            bit(x2 as u64, ((off as u64) + j - 16) as u64)
        },
        ((((x0 as u32 | ((x1 as u32) << 8u32)) | ((x2 as u32) << 16u32)) >> off) & 0x7FFu32) < 2048,
{
    assert(((((x0 as u32 | ((x1 as u32) << 8u32)) | ((x2 as u32) << 16u32)) >> off) & 0x7FFu32) < 2048) by (bit_vector);
    assert(bit(
        (((((x0 as u32 | ((x1 as u32) << 8u32)) | ((x2 as u32) << 16u32)) >> off) & 0x7FFu32) as u16) as u64,
        j,
    ) == if (off as u64) + j < 8 {
        bit(x0 as u64, ((off as u64) + j) as u64)
    } else if (off as u64) + j < 16 {
        bit(x1 as u64, ((off as u64) + j - 8) as u64)
    } else {
        bit(x2 as u64, ((off as u64) + j - 16) as u64)
    }) by (bit_vector)
        requires
            off < 8,
            j < 11,
    ;
}

/// Two values below 2048 with the same low 11 bits are equal.
proof fn lemma_eq_by_11_bits(a: u64, v: u64)
    requires
        a < 2048,
        v < 2048,
        forall|j: u64| j < 11 ==> #[trigger] bit(a, j) == bit(v, j),
    ensures
        a == v,
{
    assert(bit(a, 0) == bit(v, 0));
    assert(bit(a, 1) == bit(v, 1));
    assert(bit(a, 2) == bit(v, 2));
    assert(bit(a, 3) == bit(v, 3));
    assert(bit(a, 4) == bit(v, 4));
    assert(bit(a, 5) == bit(v, 5));
    assert(bit(a, 6) == bit(v, 6));
    assert(bit(a, 7) == bit(v, 7));
    assert(bit(a, 8) == bit(v, 8));
    assert(bit(a, 9) == bit(v, 9));
    assert(bit(a, 10) == bit(v, 10));
    assert(a == v) by (bit_vector)
        requires
            a < 2048,
            v < 2048,
            ((a >> 0u64) & 1u64 == 1u64) == ((v >> 0u64) & 1u64 == 1u64),
            ((a >> 1u64) & 1u64 == 1u64) == ((v >> 1u64) & 1u64 == 1u64),
            ((a >> 2u64) & 1u64 == 1u64) == ((v >> 2u64) & 1u64 == 1u64),
            ((a >> 3u64) & 1u64 == 1u64) == ((v >> 3u64) & 1u64 == 1u64),
            ((a >> 4u64) & 1u64 == 1u64) == ((v >> 4u64) & 1u64 == 1u64),
            ((a >> 5u64) & 1u64 == 1u64) == ((v >> 5u64) & 1u64 == 1u64),
            ((a >> 6u64) & 1u64 == 1u64) == ((v >> 6u64) & 1u64 == 1u64),
            ((a >> 7u64) & 1u64 == 1u64) == ((v >> 7u64) & 1u64 == 1u64),
            ((a >> 8u64) & 1u64 == 1u64) == ((v >> 8u64) & 1u64 == 1u64),
            ((a >> 9u64) & 1u64 == 1u64) == ((v >> 9u64) & 1u64 == 1u64),
            ((a >> 10u64) & 1u64 == 1u64) == ((v >> 10u64) & 1u64 == 1u64),
    ;
}

/// Reading back channel `i` of a packed payload gives the value packed.
pub proof fn lemma_unpack_packed_channel(payload: Seq<u8>, values: Seq<u16>, i: int)
    requires
        packs_channels(payload, values),
        0 <= i < 16,
        values[i] < 2048,
    ensures
        unpack_channel(payload, i) == values[i],
{
    let b = (11 * i) / 8;
    let off = ((11 * i) % 8) as u32;
    let x0 = payload[b];
    let x1 = payload[b + 1];
    let x2: u8 = if b + 2 < 22 { payload[b + 2] } else { 0 };
    let a = unpack_channel(payload, i);
    assert(payload_byte(payload, b) == x0 as u32);
    assert(payload_byte(payload, b + 1) == x1 as u32);
    assert(payload_byte(payload, b + 2) == x2 as u32);
    assert(a == ((((x0 as u32 | ((x1 as u32) << 8u32)) | ((x2 as u32) << 16u32)) >> off) & 0x7FFu32) as u16);
    assert forall|j: u64| j < 11 implies #[trigger] bit(a as u64, j) == bit(values[i] as u64, j) by {
        lemma_window_bit(x0, x1, x2, off, j);
        let m = (off as u64) + j;
        let n = 11 * i + j;
        assert(n == 8 * b + m);
        assert(0 <= n < 176);
        assert(payload_bit(payload, n) == channel_bit(values, n));
        assert(n / 11 == i);
        assert(n % 11 == j);
        if m < 8 {
            assert(n / 8 == b);
            assert(n % 8 == m);
        } else if m < 16 {
            assert(n / 8 == b + 1);
            assert(n % 8 == m - 8);
        } else {
            assert(n / 8 == b + 2);
            assert(n % 8 == m - 16);
            if b + 2 >= 22 {
                assert(false);
            }
        }
    }
    lemma_window_bit(x0, x1, x2, off, 0);
    lemma_eq_by_11_bits(a as u64, values[i] as u64);
}

/// Every CRSF value is an 11-bit number.
pub proof fn lemma_crsf_values_fit(channels: Seq<u16>)
    ensures
        forall|i: int| 0 <= i < channels.len() ==> #[trigger] crsf_values(channels)[i] < 2048,
        crsf_values(channels).len() == channels.len(),
{
    assert forall|i: int| 0 <= i < channels.len() implies #[trigger] crsf_values(channels)[i]
        < 2048 by {
        let us = channels[i];
        let c = clamp_us(us);
        assert((c - 988) * 1639 <= 1024 * 1639) by (nonlinear_arith)
            requires
                988 <= c <= 2012,
        ;
    }
}

/// Decoding the channels of an RC frame gives back the CRSF value of each
/// stick position that went into it.
pub proof fn lemma_rc_frame_roundtrip(frame: Seq<u8>, channels: Seq<u16>)
    requires
        is_rc_frame(frame, channels),
    ensures
        forall|i: int|
            0 <= i < 16 ==> #[trigger] unpack_channel(frame.subrange(3, 25), i)
                == us_to_crsf_spec(channels[i]),
{
    lemma_crsf_values_fit(channels);
    assert forall|i: int| 0 <= i < 16 implies #[trigger] unpack_channel(frame.subrange(3, 25), i)
        == us_to_crsf_spec(channels[i]) by {
        lemma_unpack_packed_channel(frame.subrange(3, 25), crsf_values(channels), i);
    }
}

/// A higher stick position never gives a lower CRSF value.
pub proof fn lemma_us_to_crsf_monotonic(a: u16, b: u16)
    requires
        a <= b,
    ensures
        us_to_crsf_spec(a) <= us_to_crsf_spec(b),
{
    let ca = clamp_us(a);
    let cb = clamp_us(b);
    assert((ca - 988) * 1639 <= (cb - 988) * 1639) by (nonlinear_arith)
        requires
            988 <= ca <= cb <= 2012,
    ;
    vstd::arithmetic::div_mod::lemma_div_is_ordered((ca - 988) * 1639, (cb - 988) * 1639, 1024);
    lemma_crsf_values_fit(seq![a, b]);
    assert(crsf_values(seq![a, b])[0] == us_to_crsf_spec(a));
    assert(crsf_values(seq![a, b])[1] == us_to_crsf_spec(b));
}

/// Two bytes with the same eight bits are equal.
proof fn lemma_eq_by_8_bits(x: u8, y: u8)
    requires
        forall|j: u64| j < 8 ==> #[trigger] bit(x as u64, j) == bit(y as u64, j),
    ensures
        x == y,
{
    assert(bit(x as u64, 0) == bit(y as u64, 0));
    assert(bit(x as u64, 1) == bit(y as u64, 1));
    assert(bit(x as u64, 2) == bit(y as u64, 2));
    assert(bit(x as u64, 3) == bit(y as u64, 3));
    assert(bit(x as u64, 4) == bit(y as u64, 4));
    assert(bit(x as u64, 5) == bit(y as u64, 5));
    assert(bit(x as u64, 6) == bit(y as u64, 6));
    assert(bit(x as u64, 7) == bit(y as u64, 7));
    let a = x as u64;
    let b = y as u64;
    assert(a == b) by (bit_vector)
        requires
            a < 256,
            b < 256,
            ((a >> 0u64) & 1u64 == 1u64) == ((b >> 0u64) & 1u64 == 1u64),
            ((a >> 1u64) & 1u64 == 1u64) == ((b >> 1u64) & 1u64 == 1u64),
            ((a >> 2u64) & 1u64 == 1u64) == ((b >> 2u64) & 1u64 == 1u64),
            ((a >> 3u64) & 1u64 == 1u64) == ((b >> 3u64) & 1u64 == 1u64),
            ((a >> 4u64) & 1u64 == 1u64) == ((b >> 4u64) & 1u64 == 1u64),
            ((a >> 5u64) & 1u64 == 1u64) == ((b >> 5u64) & 1u64 == 1u64),
            ((a >> 6u64) & 1u64 == 1u64) == ((b >> 6u64) & 1u64 == 1u64),
            ((a >> 7u64) & 1u64 == 1u64) == ((b >> 7u64) & 1u64 == 1u64),
    ;
}

/// The RC frame for given stick positions is unique: every one of its 26
/// bytes is fixed by the positions.
pub proof fn lemma_rc_frame_unique(f1: Seq<u8>, f2: Seq<u8>, channels: Seq<u16>)
    requires
        is_rc_frame(f1, channels),
        is_rc_frame(f2, channels),
    ensures
        f1 == f2,
{
    let p1 = f1.subrange(3, 25);
    let p2 = f2.subrange(3, 25);
    assert forall|k: int| 0 <= k < 22 implies p1[k] == p2[k] by {
        assert forall|j: u64| j < 8 implies #[trigger] bit(p1[k] as u64, j) == bit(p2[k] as u64, j) by {
            let n = 8 * k + j;
            assert(payload_bit(p1, n) == payload_bit(p2, n));
            assert(n / 8 == k);
            assert(n % 8 == j);
        }
        lemma_eq_by_8_bits(p1[k], p2[k]);
    }
    assert(p1 =~= p2);
    assert forall|i: int| 0 <= i < 25 implies f1[i] == f2[i] by {
        if 3 <= i < 25 {
            assert(f1[i] == p1[i - 3]);
            assert(f2[i] == p2[i - 3]);
        }
    }
    assert(f1.subrange(2, 25) =~= f2.subrange(2, 25));
    assert(f1[25] == f2[25]);
    assert(f1 =~= f2);
}

/// Inside the stick range the CRSF value is the linear scaling of the
/// position, rounded down: `v - 172` is the largest number with
/// `1024 * (v - 172) <= 1639 * (us - 988)`. Below the range the value is 172,
/// above it 1811.
pub proof fn lemma_us_to_crsf_scaling(us: u16)
    ensures
        988 <= us <= 2012 ==> 1024 * (us_to_crsf_spec(us) - 172) <= 1639 * (us - 988) < 1024 * (
        us_to_crsf_spec(us) - 171),
        us < 988 ==> us_to_crsf_spec(us) == 172,
        us > 2012 ==> us_to_crsf_spec(us) == 1811,
{
    let c = clamp_us(us);
    let x = (c - 988) * 1639;
    assert(x == 1639 * (c - 988));
    assert(0 <= x <= 1678336) by (nonlinear_arith)
        requires
            988 <= c <= 2012,
            x == (c - 988) * 1639,
    ;
    assert(1024 * (x / 1024) <= x < 1024 * (x / 1024) + 1024);
}

/// Every 64us step up the stick range raises the CRSF value by at least 102
/// (the scale factor is 1639/1024).
pub proof fn lemma_us_to_crsf_step(us: u16)
    requires
        988 <= us <= 1948,
    ensures
        us_to_crsf_spec((us + 64) as u16) >= us_to_crsf_spec(us) + 102,
{
    lemma_us_to_crsf_scaling(us);
    lemma_us_to_crsf_scaling((us + 64) as u16);
}

} // verus!
