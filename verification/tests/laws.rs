use skypulse::{
    axis_switch, axis_thr_stick, axis_thr_trigger, axis_to_us, build_rc_frame, crc8_dvb_s2,
    us_to_crsf, CrsfFrame, CrsfParser, RC_MAX_US, RC_MIN_US,
};

#[test]
fn us_to_crsf_is_monotonic_and_in_range() {
    let mut prev = us_to_crsf(0);
    for us in 0..=u16::MAX {
        let v = us_to_crsf(us);
        assert!(v >= prev, "us={}", us);
        assert!((172..=1811).contains(&v), "us={}", us);
        prev = v;
    }
}

#[test]
fn axis_mappings_stay_in_rc_range() {
    for val in (i16::MIN..=i16::MAX).step_by(7).chain([i16::MIN, i16::MAX, 0]) {
        for inv in [false, true] {
            for us in [
                axis_to_us(val, inv),
                axis_thr_stick(val, inv),
                axis_thr_trigger(val, inv),
                axis_switch(val),
            ] {
                assert!((RC_MIN_US..=RC_MAX_US).contains(&us), "val={} inv={}", val, inv);
            }
        }
    }
}

#[test]
fn every_built_frame_parses_back() {
    let mut parser = CrsfParser::new();
    let mut out = Vec::new();
    let mut expected = Vec::new();
    for seed in 0u32..40 {
        let mut ch = [0u16; 16];
        for (i, c) in ch.iter_mut().enumerate() {
            *c = ((seed * 977 + i as u32 * 131) % 1200 + 900) as u16;
        }
        let frame = build_rc_frame(&ch);
        assert_eq!(crc8_dvb_s2(&frame[2..26]), 0);
        parser.push(&frame, &mut out);
        let mut values = [0u16; 16];
        for i in 0..16 {
            values[i] = us_to_crsf(ch[i]);
        }
        expected.push(CrsfFrame::RcChannels(values));
    }
    assert_eq!(out, expected);
}
