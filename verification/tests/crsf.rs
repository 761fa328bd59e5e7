use skypulse::{
    build_failsafe_frame, build_neutral_frame, build_rc_frame, crc8_dvb_s2, parse_frame,
    us_to_crsf, CrsfFrame, CrsfParser, GpsFrame, LinkStatsFrame, CRSF_SYNC, RC_MAX_US, RC_MID_US,
    RC_MIN_US,
};

/// Wraps a payload into a frame with a correct CRC.
fn frame_of(ftype: u8, payload: &[u8]) -> Vec<u8> {
    let mut f = vec![CRSF_SYNC, (payload.len() + 2) as u8, ftype];
    f.extend_from_slice(payload);
    let crc = crc8_dvb_s2(&f[2..]);
    f.push(crc);
    f
}

fn parse_all(data: &[u8]) -> Vec<CrsfFrame> {
    let mut parser = CrsfParser::new();
    let mut out = Vec::new();
    parser.push(data, &mut out);
    out
}

#[test]
fn rc_frame_length() {
    let ch = [RC_MID_US; 16];
    let f = build_rc_frame(&ch);
    assert_eq!(f[0], CRSF_SYNC);
    assert_eq!(f.len(), 26);
}

#[test]
fn rc_frame_crc_valid() {
    let ch = [RC_MID_US; 16];
    let f = build_rc_frame(&ch);
    let expected = crc8_dvb_s2(&f[2..25]);
    assert_eq!(f[25], expected);
}

#[test]
fn us_to_crsf_midpoint() {
    let mid = us_to_crsf(1500);
    assert!((mid as i32 - 992).abs() < 5, "mid={}", mid);
}

#[test]
fn parser_roundtrip() {
    let ch = [RC_MID_US; 16];
    let frame = build_rc_frame(&ch);
    let mut parser = CrsfParser::new();
    let mut out = Vec::new();
    parser.push(&frame, &mut out);
    assert_eq!(out.len(), 1);
    if let CrsfFrame::RcChannels(decoded) = &out[0] {
        for &v in decoded.iter() {
            assert!((v as i32 - 992).abs() < 5, "v={}", v);
        }
    } else {
        panic!("expected RcChannels");
    }
}

#[test]
fn crc8_check_value() {
    assert_eq!(crc8_dvb_s2(b"123456789"), 0xBC);
    assert_eq!(crc8_dvb_s2(&[]), 0);
}

#[test]
fn crc8_residue_is_zero() {
    let data = [0x16u8, 0x01, 0x02, 0xFE, 0x80];
    let mut with_crc = data.to_vec();
    with_crc.push(crc8_dvb_s2(&data));
    assert_eq!(crc8_dvb_s2(&with_crc), 0);
    let f = build_neutral_frame();
    assert_eq!(crc8_dvb_s2(&f[2..26]), 0);
}

#[test]
fn us_to_crsf_range_ends_and_clamp() {
    assert_eq!(us_to_crsf(988), 172);
    assert_eq!(us_to_crsf(2012), 1811);
    assert_eq!(us_to_crsf(1500), 991);
    assert_eq!(us_to_crsf(0), 172);
    assert_eq!(us_to_crsf(500), 172);
    assert_eq!(us_to_crsf(3000), 1811);
    assert_eq!(us_to_crsf(u16::MAX), 1811);
}

#[test]
fn rc_frame_exact_bytes() {
    let f = build_rc_frame(&[RC_MID_US; 16]);
    assert_eq!(&f[0..3], &[0xC8, 24, 0x16]);
    // 991 = 0b011_1101_1111: low byte, then 3 high bits with 5 bits of the next value
    assert_eq!(f[3], 0xDF);
    assert_eq!(f[4], 0xFB);
}

#[test]
fn rc_frame_packs_each_channel() {
    let mut ch = [RC_MID_US; 16];
    for (i, c) in ch.iter_mut().enumerate() {
        *c = 988 + (i as u16) * 64;
    }
    let f = build_rc_frame(&ch);
    let out = parse_all(&f);
    assert_eq!(out.len(), 1);
    match &out[0] {
        CrsfFrame::RcChannels(decoded) => {
            for i in 0..16 {
                assert_eq!(decoded[i], us_to_crsf(ch[i]), "channel {}", i);
            }
        }
        other => panic!("expected RcChannels, got {:?}", other),
    }
}

#[test]
fn neutral_and_failsafe_frames() {
    let mut neutral = [RC_MID_US; 16];
    neutral[2] = RC_MIN_US;
    assert_eq!(build_neutral_frame(), build_rc_frame(&neutral));
    let mut failsafe = neutral;
    failsafe[4] = RC_MAX_US;
    assert_eq!(build_failsafe_frame(), build_rc_frame(&failsafe));
    match &parse_all(&build_failsafe_frame())[0] {
        CrsfFrame::RcChannels(c) => {
            assert_eq!(c[2], 172);
            assert_eq!(c[4], 1811);
            assert_eq!(c[0], 991);
        }
        other => panic!("expected RcChannels, got {:?}", other),
    }
}

#[test]
fn parser_split_delivery() {
    let frame = build_failsafe_frame();
    let whole = parse_all(&frame);
    for cut in 0..frame.len() {
        let mut parser = CrsfParser::new();
        let mut out = Vec::new();
        parser.push(&frame[..cut], &mut out);
        parser.push(&frame[cut..], &mut out);
        assert_eq!(out, whole, "cut at {}", cut);
    }
    let mut parser = CrsfParser::new();
    let mut out = Vec::new();
    for b in frame.iter() {
        parser.push(&[*b], &mut out);
    }
    assert_eq!(out, whole);
}

#[test]
fn parser_skips_noise_before_sync() {
    let frame = build_neutral_frame();
    let mut data = vec![0x00, 0x17, 0xFF, 0x42];
    data.extend_from_slice(&frame);
    assert_eq!(parse_all(&data), parse_all(&frame));
    assert!(parse_all(&[0x01, 0x02, 0x03]).is_empty());
}

#[test]
fn parser_drops_bad_crc() {
    let mut frame = build_neutral_frame();
    frame[25] ^= 0x01;
    assert!(parse_all(&frame).is_empty());
    // the parser recovers for the next frame
    let mut data = frame.to_vec();
    data.extend_from_slice(&build_neutral_frame());
    assert_eq!(parse_all(&data).len(), 1);
}

#[test]
fn parser_resets_on_impossible_length() {
    // length 70 is longer than the buffer; length 0 and 1 are shorter than type + crc
    for len in [70u8, 0, 1] {
        let mut data = vec![CRSF_SYNC, len, 0x00];
        data.extend_from_slice(&build_neutral_frame());
        assert_eq!(parse_all(&data).len(), 1, "len {}", len);
    }
}

#[test]
fn parser_two_frames_in_one_push() {
    let mut data = frame_of(0x0B, &[]);
    data.extend_from_slice(&frame_of(0x14, &[50, 60, 100, 0xF6, 0, 0, 0, 0, 0, 0]));
    let out = parse_all(&data);
    assert_eq!(
        out,
        vec![
            CrsfFrame::Heartbeat,
            CrsfFrame::LinkStats(LinkStatsFrame {
                uplink_rssi_1: 50,
                uplink_rssi_2: 60,
                uplink_link_quality: 100,
                uplink_snr: -10,
            }),
        ]
    );
}

#[test]
fn parse_gps_frame() {
    let payload = [
        0x1D, 0xCD, 0x65, 0x00, // 500000000 -> 50.0 degrees
        0xFF, 0xFF, 0xFF, 0xFE, // -2
        0x01, 0x00, // speed 256
        0x23, 0x28, // heading 9000
        0x04, 0x4C, // altitude 1100
        0x09, // satellites
    ];
    let f = frame_of(0x02, &payload);
    assert_eq!(
        parse_frame(&f),
        Some(CrsfFrame::Gps(GpsFrame {
            lat_e7: 500000000,
            lon_e7: -2,
            ground_speed_raw: 256,
            heading_cdeg: 9000,
            altitude_raw: 1100,
            satellites: 9,
        }))
    );
    // without the satellites byte
    let f = frame_of(0x02, &payload[..14]);
    match parse_frame(&f) {
        Some(CrsfFrame::Gps(g)) => assert_eq!(g.satellites, 0),
        other => panic!("expected Gps, got {:?}", other),
    }
    // too short: unknown
    let f = frame_of(0x02, &payload[..13]);
    assert_eq!(parse_frame(&f), Some(CrsfFrame::Unknown(0x02)));
}

#[test]
fn parse_battery_attitude_vario_baro() {
    let f = frame_of(0x08, &[0x00, 0xA8, 0x00, 0x32, 0x01, 0x02, 0x03, 77]);
    match parse_frame(&f) {
        Some(CrsfFrame::Battery(b)) => {
            assert_eq!(b.voltage_dv, 168);
            assert_eq!(b.current_da, 50);
            assert_eq!(b.used_mah, 0x010203);
            assert_eq!(b.remaining_pct, 77);
        }
        other => panic!("expected Battery, got {:?}", other),
    }
    let f = frame_of(0x1E, &[0xFF, 0x9C, 0x00, 0x64, 0x80, 0x00]);
    match parse_frame(&f) {
        Some(CrsfFrame::Attitude(a)) => {
            assert_eq!(a.pitch_raw, -100);
            assert_eq!(a.roll_raw, 100);
            assert_eq!(a.yaw_raw, -32768);
        }
        other => panic!("expected Attitude, got {:?}", other),
    }
    let f = frame_of(0x07, &[0xFF, 0xFE]);
    match parse_frame(&f) {
        Some(CrsfFrame::Vario(v)) => assert_eq!(v.vertical_speed_cms, -2),
        other => panic!("expected Vario, got {:?}", other),
    }
    let f = frame_of(0x09, &[0x01, 0x00, 0x00, 0x0A]);
    match parse_frame(&f) {
        Some(CrsfFrame::BaroAlt(b)) => {
            assert_eq!(b.altitude_dm, 256);
            assert_eq!(b.vspeed_cms, 10);
        }
        other => panic!("expected BaroAlt, got {:?}", other),
    }
    assert_eq!(parse_frame(&frame_of(0x09, &[1, 2, 3])), Some(CrsfFrame::Unknown(0x09)));
    assert_eq!(parse_frame(&frame_of(0x14, &[1, 2, 3])), Some(CrsfFrame::Unknown(0x14)));
    assert_eq!(parse_frame(&frame_of(0x16, &[0; 21])), Some(CrsfFrame::Unknown(0x16)));
    assert_eq!(parse_frame(&frame_of(0x7F, &[])), Some(CrsfFrame::Unknown(0x7F)));
}

#[test]
fn parse_flight_mode_name() {
    let f = frame_of(0x21, b"ACRO*\0junk");
    assert_eq!(parse_frame(&f), Some(CrsfFrame::FlightMode(b"ACRO*".to_vec())));
    let f = frame_of(0x21, b"ANGL");
    assert_eq!(parse_frame(&f), Some(CrsfFrame::FlightMode(b"ANGL".to_vec())));
    let f = frame_of(0x21, b"\0");
    assert_eq!(parse_frame(&f), Some(CrsfFrame::FlightMode(Vec::new())));
}
