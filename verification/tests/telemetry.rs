use skypulse::{
    Altitude, BaroAltFrame, BatteryFrame, CrsfFrame, GpsFrame, Heading, LinkStatsFrame,
    TelemetryState, VarioFrame,
};
use skypulse::frame::AttitudeFrame;

fn gps(lat: i32, lon: i32, sats: u8) -> CrsfFrame {
    CrsfFrame::Gps(GpsFrame {
        lat_e7: lat,
        lon_e7: lon,
        ground_speed_raw: 10,
        heading_cdeg: 4500,
        altitude_raw: 1050,
        satellites: sats,
    })
}

fn mode(name: &[u8]) -> CrsfFrame {
    CrsfFrame::FlightMode(name.to_vec())
}

#[test]
fn initial_state() {
    let t = TelemetryState::new();
    assert_eq!(t.flight_mode, b"UNKNOWN".to_vec());
    assert!(!t.readings.armed);
    assert!(!t.readings.home_set);
    assert_eq!(t.readings.heading, Heading::Gps(0));
}

#[test]
fn home_set_on_first_fix_after_arming() {
    let mut t = TelemetryState::new();
    t.apply_frame(&gps(10, 20, 9));
    assert!(t.readings.gps_fix);
    assert!(!t.readings.home_set, "no home while disarmed");
    t.apply_frame(&mode(b"ANGL"));
    assert!(t.readings.armed);
    t.apply_frame(&gps(11, 21, 5));
    assert!(!t.readings.gps_fix);
    assert!(!t.readings.home_set, "no home without a fix");
    t.apply_frame(&gps(12, 22, 6));
    assert!(t.readings.home_set);
    assert_eq!((t.readings.home_lat_e7, t.readings.home_lon_e7), (12, 22));
    t.apply_frame(&gps(13, 23, 12));
    assert_eq!((t.readings.home_lat_e7, t.readings.home_lon_e7), (12, 22));
    // disarm keeps the home, re-arming clears it
    t.apply_frame(&mode(b"ANGL*"));
    assert!(!t.readings.armed);
    assert!(t.readings.home_set);
    t.apply_frame(&mode(b"ANGL"));
    assert!(!t.readings.home_set);
    t.apply_frame(&gps(14, 24, 8));
    assert_eq!((t.readings.home_lat_e7, t.readings.home_lon_e7), (14, 24));
}

#[test]
fn flight_mode_marks() {
    let mut t = TelemetryState::new();
    t.apply_frame(&mode(b"ACRO**"));
    assert!(!t.readings.armed);
    assert_eq!(t.flight_mode, b"ACRO".to_vec());
    t.apply_frame(&mode(b"AIR!"));
    assert!(t.readings.armed);
    assert_eq!(t.flight_mode, b"AIR!".to_vec());
    t.apply_frame(&mode(b""));
    assert!(t.readings.armed);
    assert_eq!(t.flight_mode, Vec::<u8>::new());
}

#[test]
fn flight_mode_whitespace_trimmed() {
    let mut t = TelemetryState::new();
    t.apply_frame(&mode(b"  ANGLE *"));
    assert!(!t.readings.armed);
    assert_eq!(t.flight_mode, b"ANGLE".to_vec());
    t.apply_frame(&mode(b"\t\r\nACRO* "));
    assert!(t.readings.armed);
    assert_eq!(t.flight_mode, b"ACRO*".to_vec());
    t.apply_frame(&mode("\u{3000}\u{2003}HORIZON\u{00A0}\u{0085}**".as_bytes()));
    assert!(!t.readings.armed);
    assert_eq!(t.flight_mode, b"HORIZON".to_vec());
    t.apply_frame(&mode(b" \x0B\x0C "));
    assert_eq!(t.flight_mode, Vec::<u8>::new());
}

#[test]
fn flight_mode_matches_text_trimming() {
    let names: Vec<Vec<u8>> = vec![
        b"ANGL*".to_vec(),
        b" AIR ! **".to_vec(),
        "\u{1680}MANUAL\u{205F}".as_bytes().to_vec(),
        "\u{2028}\u{2029}\u{202F}X\u{200A}*".as_bytes().to_vec(),
        vec![0xE2, 0x80, b' ', b'A', 0xC2, b'*'],
        vec![0xF0, 0x9F, 0xC2, 0xA0, b'Z', 0xE2, 0x80],
        vec![0xE2, 0xE2, 0x80, 0x80, b'Q', 0xC2, 0x85],
        vec![0x80, 0x80, b'R', 0x20, 0x2A],
        b"***".to_vec(),
    ];
    for name in names {
        let mut t = TelemetryState::new();
        t.apply_frame(&CrsfFrame::FlightMode(name.clone()));
        let text = String::from_utf8_lossy(&name);
        assert_eq!(t.readings.armed, !text.ends_with('*'), "{:?}", name);
        assert_eq!(
            String::from_utf8_lossy(&t.flight_mode),
            text.trim_end_matches('*').trim(),
            "{:?}",
            name
        );
    }
}

#[test]
fn battery_caps_sensorless_readings() {
    let mut t = TelemetryState::new();
    t.apply_frame(&CrsfFrame::Battery(BatteryFrame {
        voltage_dv: 168,
        current_da: 5001,
        used_mah: 0xFFFFFF,
        remaining_pct: 90,
    }));
    assert_eq!(t.readings.voltage_dv, 168);
    assert_eq!(t.readings.current_da, 0);
    assert_eq!(t.readings.used_mah, 0);
    assert_eq!(t.readings.battery_pct, 90);
    t.apply_frame(&CrsfFrame::Battery(BatteryFrame {
        voltage_dv: 160,
        current_da: 5000,
        used_mah: 100000,
        remaining_pct: 80,
    }));
    assert_eq!(t.readings.current_da, 5000);
    assert_eq!(t.readings.used_mah, 100000);
}

#[test]
fn baro_and_attitude_defer_to_gps_fix() {
    let mut t = TelemetryState::new();
    let att = CrsfFrame::Attitude(AttitudeFrame { pitch_raw: 1, roll_raw: 2, yaw_raw: 300 });
    let baro = CrsfFrame::BaroAlt(BaroAltFrame { altitude_dm: 123, vspeed_cms: 40 });
    t.apply_frame(&att);
    assert_eq!(t.readings.heading, Heading::Yaw(300));
    t.apply_frame(&baro);
    assert_eq!(t.readings.altitude, Altitude::Baro(123));
    assert_eq!(t.readings.vspeed_cms, 40);
    t.apply_frame(&gps(1, 2, 7));
    t.apply_frame(&att);
    t.apply_frame(&baro);
    assert_eq!(t.readings.heading, Heading::Gps(4500));
    assert_eq!(t.readings.altitude, Altitude::Gps(1050));
    t.apply_frame(&CrsfFrame::Vario(VarioFrame { vertical_speed_cms: -5 }));
    t.apply_frame(&CrsfFrame::BaroAlt(BaroAltFrame { altitude_dm: 1, vspeed_cms: 99 }));
    assert_eq!(t.readings.vspeed_cms, -5);
}

#[test]
fn link_stats_and_ignored_frames() {
    let mut t = TelemetryState::new();
    t.apply_frame(&CrsfFrame::LinkStats(LinkStatsFrame {
        uplink_rssi_1: 70,
        uplink_rssi_2: 80,
        uplink_link_quality: 99,
        uplink_snr: 5,
    }));
    assert_eq!(t.readings.link_quality, 99);
    assert_eq!(t.readings.rssi_dbm, -70);
    let before = t.clone();
    t.apply_frame(&CrsfFrame::Heartbeat);
    t.apply_frame(&CrsfFrame::Unknown(0x55));
    t.apply_frame(&CrsfFrame::RcChannels([992; 16]));
    assert_eq!(t, before);
}
