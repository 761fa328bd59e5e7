//! Locating the H.265 NAL unit in a received video packet: RTP packets
//! (version 2) lose their header, CSRC list and extension; anything else is
//! taken as a raw NAL unit.

use vstd::prelude::*;

verus! {

/// Packets shorter than this (RTP header plus one byte) are skipped.
pub const MIN_VIDEO_PACKET: usize = 13;

/// Offset of the NAL unit in a video packet, or `None` when the packet is
/// skipped (too short, or nothing left after the header).
///
/// The first byte holds the RTP version in its top two bits, the extension
/// flag in bit 4 and the CSRC count in its low four bits. For version 2 the
/// payload starts after the 12-byte header and 4 bytes per CSRC, and, when
/// the extension flag is set and the packet is long enough to hold the
/// extension header, after that header's 4 bytes and its length field
/// (bytes 2-3, big-endian, in 32-bit words). Other versions start at 0.
pub open spec fn nal_start(pkt: Seq<u8>) -> Option<int> {
    if pkt.len() < MIN_VIDEO_PACKET {
        None
    } else {
        let b0 = pkt[0] as int;
        let start = if b0 / 64 == 2 {
            let base = 12 + 4 * (b0 % 16);
            if (b0 / 16) % 2 == 1 && pkt.len() > base + 4 {
                base + 4 + 4 * (pkt[base + 2] as int * 256 + pkt[base + 3] as int)
            } else {
                base
            }
        } else {
            0
        };
        if start >= pkt.len() {
            None
        } else {
            Some(start)
        }
    }
}

/// The offset at which the NAL unit of a received video packet starts, or
/// `None` when the packet carries none.
pub fn nal_payload_start(pkt: &[u8]) -> (r: Option<usize>)
    ensures
        r matches Some(s) ==> nal_start(pkt@) == Some(s as int),
        r is None ==> nal_start(pkt@) is None,
{
    let n = pkt.len();
    if n < MIN_VIDEO_PACKET {
        return None;
    }
    let b0 = pkt[0];
    assert((b0 >> 6) & 0x03 == b0 / 64) by (bit_vector);
    let rtp_version = (b0 >> 6) & 0x03;
    let payload_start: usize = if rtp_version == 2 {
        assert(b0 & 0x0F == b0 % 16) by (bit_vector);
        assert(((b0 >> 4) & 1 == 1) == ((b0 / 16) % 2 == 1)) by (bit_vector);
        let cc = (b0 & 0x0F) as usize;
        let has_ext = (b0 >> 4) & 1 == 1;
        let base = 12 + cc * 4;
        if has_ext && n > base + 4 {
            let hi = pkt[base + 2] as usize;
            let lo = pkt[base + 3] as usize;
            assert((hi << 8) | lo == hi * 256 + lo) by (bit_vector)
                requires
                    hi < 256,
                    lo < 256,
            ;
            let ext_len = ((hi << 8) | lo) * 4;
            base + 4 + ext_len
        } else {
            base
        }
    } else {
        0
    };
    if payload_start >= n {
        None
    } else {
        Some(payload_start)
    }
}

/// Where the NAL unit starts: always inside the packet, never in a packet
/// shorter than 13 bytes; at 0 when the version bits (the top two of byte 0)
/// are not 2; for version 2 without the extension flag (bit 4 of byte 0),
/// right after the 12-byte header and the CSRC list of `byte0 & 0x0F` words.
pub proof fn lemma_nal_start_layout(pkt: Seq<u8>)
    ensures
        nal_start(pkt) matches Some(k) ==> 0 <= k < pkt.len() && pkt.len() >= 13,
        pkt.len() >= 13 && (pkt[0] >> 6u8) != 2 ==> nal_start(pkt) == Some(0int),
        pkt.len() >= 13 && (pkt[0] >> 6u8) == 2 && (pkt[0] >> 4u8) & 1 == 0 && 12 + 4 * (pkt[0]
            & 0x0F) < pkt.len() ==> nal_start(pkt) == Some(12 + 4 * (pkt[0] & 0x0F) as int),
        pkt.len() >= 13 && (pkt[0] >> 6u8) == 2 && 12 + 4 * (pkt[0] & 0x0F) >= pkt.len()
            ==> nal_start(pkt) is None,
{
    if pkt.len() >= 13 {
        let b0 = pkt[0];
        assert(b0 >> 6u8 == b0 / 64) by (bit_vector);
        assert(b0 & 0x0F == b0 % 16) by (bit_vector);
        assert(((b0 >> 4u8) & 1 == 0) == ((b0 / 16) % 2 == 0)) by (bit_vector);
    }
}

} // verus!
