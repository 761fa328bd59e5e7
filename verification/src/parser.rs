//! Streaming CRSF parser: raw bytes in, decoded frames out. It hunts for the
//! sync byte, buffers partial frames across calls, drops frames whose CRC
//! does not match, and resets on an impossible length byte.

use vstd::prelude::*;
use crate::crc::{crc8_dvb_s2, crc8_spec};
use crate::frame::{decode_frame, parse_frame, CrsfFrame, FrameView};
use crate::rc::{
    crsf_values, is_rc_frame, lemma_rc_frame_roundtrip, unpack_channel, CRSF_SYNC,
};

verus! {

/// Capacity of the parser's frame buffer in bytes.
pub const PARSER_BUF_LEN: usize = 64;

/// The bytes a parser may hold between calls: a prefix of one frame that
/// starts with the sync byte and, once its length byte is in, is shorter
/// than the frame it announces.
pub open spec fn pending_wf(s: Seq<u8>) -> bool {
    &&& s.len() < PARSER_BUF_LEN
    &&& s.len() > 0 ==> s[0] == CRSF_SYNC
    &&& s.len() >= 3 ==> {
        &&& 4 <= 2 + s[1] <= PARSER_BUF_LEN
        &&& s.len() < 2 + s[1]
    }
}

/// The frame decoded from a complete raw frame, or nothing when its CRC
/// byte is not the CRC-8/DVB-S2 of type and payload.
pub open spec fn checked_frame(raw: Seq<u8>) -> Option<FrameView> {
    if raw[raw.len() - 1] == crc8_spec(raw.subrange(2, raw.len() - 1)) {
        Some(decode_frame(raw))
    } else {
        None
    }
}

/// One byte through the parser: the bytes held afterwards, and the frame
/// completed by this byte, if any.
///
/// - With nothing held, bytes other than the sync byte are skipped.
/// - Once three bytes are held, the length byte fixes the frame size
///   `2 + len`; a size outside 4..=64 is impossible and clears the buffer.
/// - When the frame is complete it is taken from the buffer; it yields a
///   frame only if its CRC matches.
pub open spec fn step(pending: Seq<u8>, b: u8) -> (Seq<u8>, Option<FrameView>) {
    if pending.len() == 0 && b != CRSF_SYNC {
        (pending, None)
    } else {
        let s = if pending.len() < PARSER_BUF_LEN {
            pending.push(b)
        } else {
            pending
        };
        if s.len() < 3 {
            (s, None)
        } else {
            let total = 2 + s[1];
            if total > PARSER_BUF_LEN || total < 4 {
                (Seq::empty(), None)
            } else if s.len() < total {
                (s, None)
            } else {
                (s.skip(total), checked_frame(s.take(total)))
            }
        }
    }
}

/// A run of bytes through the parser: the bytes held afterwards, and the
/// frames completed, in order.
pub open spec fn feed(pending: Seq<u8>, data: Seq<u8>) -> (Seq<u8>, Seq<FrameView>)
    decreases data.len(),
{
    if data.len() == 0 {
        (pending, Seq::empty())
    } else {
        let prev = feed(pending, data.drop_last());
        let next = step(prev.0, data.last());
        (
            next.0,
            match next.1 {
                Some(f) => prev.1.push(f),
                None => prev.1,
            },
        )
    }
}

/// A step keeps the held bytes well formed, and a completed frame always
/// ends at the byte just received.
pub proof fn lemma_step_wf(pending: Seq<u8>, b: u8)
    requires
        pending_wf(pending),
    ensures
        pending_wf(step(pending, b).0),
        step(pending, b).1 is Some ==> step(pending, b).0.len() == 0,
{
    if !(pending.len() == 0 && b != CRSF_SYNC) {
        let s = pending.push(b);
        if s.len() >= 3 {
            let total = 2 + s[1];
            assert(s[1] == pending[1] || pending.len() == 1);
            if 4 <= total <= PARSER_BUF_LEN && s.len() >= total {
                assert(s.len() == total);
                assert(s.skip(total) =~= Seq::<u8>::empty());
            }
        }
    }
}

/// Feeding bytes keeps the held bytes well formed.
pub proof fn lemma_feed_wf(pending: Seq<u8>, data: Seq<u8>)
    requires
        pending_wf(pending),
    ensures
        pending_wf(feed(pending, data).0),
    decreases data.len(),
{
    if data.len() > 0 {
        lemma_feed_wf(pending, data.drop_last());
        lemma_step_wf(feed(pending, data.drop_last()).0, data.last());
    }
}

/// Feeding `a` and then `b` is feeding `a + b`: how the byte stream is cut
/// into calls does not change what comes out.
pub proof fn lemma_feed_split(pending: Seq<u8>, a: Seq<u8>, b: Seq<u8>)
    ensures
        feed(pending, a + b) == (
            feed(feed(pending, a).0, b).0,
            feed(pending, a).1 + feed(feed(pending, a).0, b).1,
        ),
    decreases b.len(),
{
    if b.len() == 0 {
        assert(a + b =~= a);
        assert(feed(pending, a).1 + Seq::<FrameView>::empty() =~= feed(pending, a).1);
    } else {
        lemma_feed_split(pending, a, b.drop_last());
        assert((a + b).drop_last() =~= a + b.drop_last());
        assert((a + b).last() == b.last());
        let mid = feed(pending, a);
        let rest = feed(mid.0, b.drop_last());
        let next = step(rest.0, b.last());
        match next.1 {
            Some(f) => {
                assert(mid.1 + rest.1.push(f) =~= (mid.1 + rest.1).push(f));
            },
            None => {},
        }
    }
}

/// The first `m` bytes of a 26-byte RC frame are simply held.
proof fn lemma_rc_frame_prefix(frame: Seq<u8>, channels: Seq<u16>, m: int)
    requires
        is_rc_frame(frame, channels),
        0 <= m <= 25,
    ensures
        feed(Seq::empty(), frame.take(m)) == (frame.take(m), Seq::<FrameView>::empty()),
    decreases m,
{
    if m == 0 {
        assert(frame.take(0) =~= Seq::<u8>::empty());
    } else {
        lemma_rc_frame_prefix(frame, channels, m - 1);
        assert(frame.take(m).drop_last() =~= frame.take(m - 1));
        assert(frame.take(m - 1).push(frame[m - 1]) =~= frame.take(m));
        if m >= 3 {
            assert(frame.take(m)[1] == 24);
        }
    }
}

/// A fresh parser fed one RC frame built for `channels` yields exactly one
/// frame, holding the CRSF value of every stick position, and afterwards
/// holds nothing.
pub proof fn lemma_rc_frame_parses(frame: Seq<u8>, channels: Seq<u16>)
    requires
        is_rc_frame(frame, channels),
    ensures
        feed(Seq::empty(), frame) == (
            Seq::<u8>::empty(),
            seq![FrameView::RcChannels(crsf_values(channels))],
        ),
{
    lemma_rc_frame_prefix(frame, channels, 25);
    assert(frame.take(26) =~= frame);
    assert(frame.drop_last() =~= frame.take(25));
    assert(frame.take(25).push(frame[25]) =~= frame);
    assert(frame.skip(26) =~= Seq::<u8>::empty());
    assert(frame.subrange(2, 25) =~= frame.subrange(2, frame.len() - 1));
    lemma_rc_frame_roundtrip(frame, channels);
    let p = frame.subrange(3, 25);
    assert(crate::frame::frame_payload(frame) =~= p);
    assert(Seq::new(16, |i: int| unpack_channel(p, i)) =~= crsf_values(channels));
    assert(decode_frame(frame) == FrameView::RcChannels(crsf_values(channels)));
    assert(Seq::<FrameView>::empty().push(FrameView::RcChannels(crsf_values(channels)))
        =~= seq![FrameView::RcChannels(crsf_values(channels))]);
}

/// A complete raw frame: sync byte, then a length byte giving the number of
/// bytes that follow it (type, payload, CRC), within the buffer size.
pub open spec fn is_raw_frame(f: Seq<u8>) -> bool {
    &&& 4 <= f.len() <= PARSER_BUF_LEN
    &&& f.len() == 2 + f[1]
    &&& f[0] == CRSF_SYNC
}

/// The first `m` bytes of a raw frame, short of its end, are simply held.
proof fn lemma_raw_frame_prefix(f: Seq<u8>, m: int)
    requires
        is_raw_frame(f),
        0 <= m < f.len(),
    ensures
        feed(Seq::empty(), f.take(m)) == (f.take(m), Seq::<FrameView>::empty()),
    decreases m,
{
    if m == 0 {
        assert(f.take(0) =~= Seq::<u8>::empty());
    } else {
        lemma_raw_frame_prefix(f, m - 1);
        assert(f.take(m).drop_last() =~= f.take(m - 1));
        assert(f.take(m - 1).push(f[m - 1]) =~= f.take(m));
        if m >= 3 {
            assert(f.take(m)[1] == f[1]);
        }
    }
}

/// Feeding a whole raw frame to an empty parser: it is taken completely,
/// and yields its decoding exactly when its CRC byte matches.
proof fn lemma_raw_frame_fed(f: Seq<u8>)
    requires
        is_raw_frame(f),
    ensures
        feed(Seq::empty(), f).0 == Seq::<u8>::empty(),
        f[f.len() - 1] == crc8_spec(f.subrange(2, f.len() - 1)) ==> feed(Seq::empty(), f).1
            == seq![decode_frame(f)],
        f[f.len() - 1] != crc8_spec(f.subrange(2, f.len() - 1)) ==> feed(Seq::empty(), f).1
            == Seq::<FrameView>::empty(),
{
    let l = f.len() as int;
    lemma_raw_frame_prefix(f, l - 1);
    assert(f.drop_last() =~= f.take(l - 1));
    assert(f.take(l - 1).push(f[l - 1]) =~= f);
    assert(f.take(l) =~= f);
    assert(f.skip(l) =~= Seq::<u8>::empty());
    assert(Seq::<FrameView>::empty().push(decode_frame(f)) =~= seq![decode_frame(f)]);
}

/// Every complete frame whose CRC byte is the CRC-8/DVB-S2 of its type and
/// payload, of any type, fed to an empty parser yields exactly one frame,
/// its decoding, and leaves the parser empty.
pub proof fn lemma_sealed_frame_parses(f: Seq<u8>)
    requires
        is_raw_frame(f),
        f[f.len() - 1] == crc8_spec(f.subrange(2, f.len() - 1)),
    ensures
        feed(Seq::empty(), f) == (Seq::<u8>::empty(), seq![decode_frame(f)]),
{
    lemma_raw_frame_fed(f);
}

/// A complete frame whose CRC byte does not match is taken from the stream
/// and yields nothing.
pub proof fn lemma_unsealed_frame_dropped(f: Seq<u8>)
    requires
        is_raw_frame(f),
        f[f.len() - 1] != crc8_spec(f.subrange(2, f.len() - 1)),
    ensures
        feed(Seq::empty(), f) == (Seq::<u8>::empty(), Seq::<FrameView>::empty()),
{
    lemma_raw_frame_fed(f);
}

/// Bytes other than the sync byte leave an empty parser empty and yield
/// nothing.
proof fn lemma_noise_feed(noise: Seq<u8>)
    requires
        forall|k: int| 0 <= k < noise.len() ==> noise[k] != CRSF_SYNC,
    ensures
        feed(Seq::empty(), noise) == (Seq::<u8>::empty(), Seq::<FrameView>::empty()),
    decreases noise.len(),
{
    if noise.len() > 0 {
        lemma_noise_feed(noise.drop_last());
    }
}

/// Sync hunt: bytes other than the sync byte in front of the stream, with
/// nothing held, change nothing that comes out.
pub proof fn lemma_noise_skipped(noise: Seq<u8>, data: Seq<u8>)
    requires
        forall|k: int| 0 <= k < noise.len() ==> noise[k] != CRSF_SYNC,
    ensures
        feed(Seq::empty(), noise + data) == feed(Seq::empty(), data),
{
    lemma_noise_feed(noise);
    lemma_feed_split(Seq::empty(), noise, data);
    assert(Seq::<FrameView>::empty() + feed(Seq::empty(), data).1 =~= feed(Seq::empty(), data).1);
}

/// The parser: a 64-byte buffer of which the first `len` bytes are held.
pub struct CrsfParser {
    buf: [u8; 64],
    len: usize,
}

impl View for CrsfParser {
    type V = Seq<u8>;

    /// The bytes held.
    closed spec fn view(&self) -> Seq<u8> {
        self.buf@.take(self.len as int)
    }
}

impl CrsfParser {
    #[verifier::type_invariant]
    spec fn inv(self) -> bool {
        &&& self.len < PARSER_BUF_LEN
        &&& pending_wf(self.buf@.take(self.len as int))
    }

    /// An empty parser.
    pub fn new() -> (p: Self)
        ensures
            p@ == Seq::<u8>::empty(),
    {
        let p = CrsfParser { buf: [0u8; 64], len: 0 };
        assert(p.buf@.take(0) =~= Seq::<u8>::empty());
        p
    }

    /// Feeds raw bytes; every frame they complete whose CRC matches is
    /// decoded and appended to `out`. Partial frames are kept for the next
    /// call.
    pub fn push(&mut self, data: &[u8], out: &mut Vec<CrsfFrame>)
        ensures
            final(self)@ == feed(old(self)@, data@).0,
            pending_wf(final(self)@),
            final(out)@.len() == old(out)@.len() + feed(old(self)@, data@).1.len(),
            forall|k: int| 0 <= k < old(out)@.len() ==> #[trigger] final(out)@[k] == old(out)@[k],
            forall|k: int|
                0 <= k < feed(old(self)@, data@).1.len() ==> #[trigger] final(out)@[old(out)@.len()
                    + k]@ == feed(old(self)@, data@).1[k],
    {
        proof {
            use_type_invariant(&*self);
        }
        let ghost p0 = self@;
        let ghost o0 = out@;
        let mut buf = self.buf;
        let mut len = self.len;
        let mut i: usize = 0;
        assert(data@.take(0) =~= Seq::<u8>::empty());
        while i < data.len()
            invariant
                i <= data@.len(),
                len < PARSER_BUF_LEN,
                buf@.len() == 64,
                pending_wf(buf@.take(len as int)),
                buf@.take(len as int) == feed(p0, data@.take(i as int)).0,
                out@.len() == o0.len() + feed(p0, data@.take(i as int)).1.len(),
                forall|k: int| 0 <= k < o0.len() ==> #[trigger] out@[k] == o0[k],
                forall|k: int|
                    0 <= k < feed(p0, data@.take(i as int)).1.len() ==> #[trigger] out@[o0.len()
                        + k]@ == feed(p0, data@.take(i as int)).1[k],
            decreases data@.len() - i,
        {
            let b = data[i];
            let ghost pend = buf@.take(len as int);
            let ghost prev = feed(p0, data@.take(i as int));
            let ghost st = step(pend, b);
            let ghost out_before = out@;
            proof {
                assert(data@.take(i + 1).drop_last() =~= data@.take(i as int));
                assert(data@.take(i + 1).last() == b);
                lemma_step_wf(pend, b);
            }
            if len == 0 && b != CRSF_SYNC {
                // sync hunt: skip the byte
            } else {
                buf[len] = b;
                len = len + 1;
                proof {
                    assert(buf@.take(len as int) =~= pend.push(b));
                }
                if len >= 3 {
                    let total: usize = 2 + buf[1] as usize;
                    if total > PARSER_BUF_LEN || total < 4 {
                        len = 0;
                        proof {
                            assert(buf@.take(0) =~= Seq::<u8>::empty());
                        }
                    } else if len >= total {
                        let ghost s = buf@.take(len as int);
                        // a complete frame always ends at the byte just received
                        assert(len == total);
                        let crc_pos = total - 1;
                        let expected = crc8_dvb_s2(
                            vstd::slice::slice_subrange(buf.as_slice(), 2, crc_pos),
                        );
                        proof {
                            assert(s.take(total as int) =~= s);
                            assert(buf@.subrange(2, crc_pos as int) =~= s.subrange(
                                2,
                                s.len() - 1,
                            ));
                        }
                        if buf[crc_pos] == expected {
                            let raw = vstd::slice::slice_subrange(buf.as_slice(), 0, total);
                            assert(raw@ =~= s);
                            let parsed = parse_frame(raw);
                            match parsed {
                                Some(f) => {
                                    out.push(f);
                                },
                                None => {},
                            }
                        }
                        len = 0;
                        proof {
                            assert(buf@.take(0) =~= Seq::<u8>::empty());
                            assert(s.skip(total as int) =~= Seq::<u8>::empty());
                        }
                    }
                }
            }
            proof {
                let now = feed(p0, data@.take(i + 1));
                assert(now.0 == st.0);
                assert(buf@.take(len as int) == st.0);
                match st.1 {
                    Some(f) => {
                        assert(now.1 == prev.1.push(f));
                        assert(out@.len() == out_before.len() + 1);
                        assert forall|k: int| 0 <= k < now.1.len() implies #[trigger] out@[o0.len()
                            + k]@ == now.1[k] by {
                            if k < prev.1.len() {
                                assert(out@[o0.len() + k] == out_before[o0.len() + k]);
                            }
                        }
                    },
                    None => {
                        assert(now.1 == prev.1);
                        assert(out@ == out_before);
                    },
                }
            }
            i = i + 1;
        }
        proof {
            assert(data@.take(data@.len() as int) =~= data@);
        }
        *self = CrsfParser { buf, len };
    }
}

} // verus!
