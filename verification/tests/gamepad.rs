use skypulse::{
    axis_switch, axis_thr_stick, axis_thr_trigger, axis_to_us, GamepadInput, RcControl, TxInput,
    RC_MAX_US, RC_MID_US, RC_MIN_US,
};

fn pad(arm_button: bool) -> GamepadInput {
    GamepadInput {
        roll: 0,
        pitch: 0,
        throttle: -32768,
        yaw: 0,
        throttle_invert: false,
        arm_button,
        ch6_button: false,
        ch7_button: false,
    }
}

#[test]
fn stick_centre_deadband_and_ends() {
    assert_eq!(axis_to_us(0, false), 1500);
    assert_eq!(axis_to_us(1999, false), 1500);
    assert_eq!(axis_to_us(-1999, true), 1500);
    assert_eq!(axis_to_us(2000, false), 1531);
    assert_eq!(axis_to_us(-3000, false), 1454);
    assert_eq!(axis_to_us(32767, false), 2012);
    assert_eq!(axis_to_us(-32768, false), 988);
    assert_eq!(axis_to_us(32767, true), 988);
    assert_eq!(axis_to_us(-32768, true), 2012);
}

#[test]
fn switch_positions() {
    assert_eq!(axis_switch(-32768), 988);
    assert_eq!(axis_switch(0), 1500);
    assert_eq!(axis_switch(32767), 2012);
    assert_eq!(axis_switch(-10000), 1500);
    assert_eq!(axis_switch(10001), 2012);
}

#[test]
fn trigger_throttle_ends() {
    assert_eq!(axis_thr_trigger(-32768, false), 988);
    assert_eq!(axis_thr_trigger(32767, false), 2012);
    assert_eq!(axis_thr_trigger(0, false), 1500);
    assert_eq!(axis_thr_trigger(-32768, true), 2012);
    assert_eq!(axis_thr_trigger(32767, true), 988);
    assert_eq!(axis_thr_trigger(-1, true), 1500);
    for v in (i16::MIN..=i16::MAX).step_by(97) {
        assert_eq!(axis_thr_trigger(v, true), axis_thr_trigger(-1 - v, false), "v={}", v);
    }
}

#[test]
fn tx_throttle_stick_rests_low() {
    assert_eq!(axis_thr_stick(32767, true), 988);
    assert_eq!(axis_thr_stick(-32768, true), 2012);
    assert_eq!(axis_thr_stick(0, true), 1500);
    assert_eq!(axis_thr_stick(100, false), 1501);
}

#[test]
fn control_starts_disarmed_throttle_low() {
    let c = RcControl::new();
    assert!(!c.armed);
    assert_eq!(c.channels[2], RC_MIN_US);
    assert_eq!(c.channels[0], RC_MID_US);
}

#[test]
fn arm_button_toggles_on_press_only() {
    let mut c = RcControl::new();
    c.update_gamepad(&pad(true));
    assert!(c.armed);
    assert_eq!(c.channels[4], RC_MAX_US);
    c.update_gamepad(&pad(true));
    assert!(c.armed, "holding the button must not toggle again");
    c.update_gamepad(&pad(false));
    assert!(c.armed);
    let mut full = pad(true);
    full.throttle = 32767;
    c.update_gamepad(&full);
    assert!(!c.armed);
    assert_eq!(c.channels[4], RC_MIN_US);
    assert_eq!(c.channels[2], RC_MIN_US, "disarming puts throttle at minimum");
}

#[test]
fn gamepad_axes_and_buttons() {
    let mut c = RcControl::new();
    let i = GamepadInput {
        roll: 32767,
        pitch: 32767,
        throttle: 0,
        yaw: -32768,
        throttle_invert: false,
        arm_button: false,
        ch6_button: true,
        ch7_button: false,
    };
    c.update_gamepad(&i);
    assert_eq!(c.channels[0], 2012);
    assert_eq!(c.channels[1], 988);
    assert_eq!(c.channels[2], 1500);
    assert_eq!(c.channels[3], 988);
    assert_eq!(c.channels[5], RC_MAX_US);
    assert_eq!(c.channels[6], RC_MIN_US);
}

#[test]
fn tx_switch_arms() {
    let mut c = RcControl::new();
    let mut i = TxInput {
        roll: 0,
        pitch: 0,
        throttle: 32767,
        yaw: 0,
        throttle_invert: false,
        ch5: Some(32767),
        ch6: Some(0),
        ch7: None,
    };
    c.update_tx(&i);
    assert!(c.armed);
    assert_eq!(c.channels[4], RC_MAX_US);
    assert_eq!(c.channels[2], 988);
    assert_eq!(c.channels[5], 1500);
    assert_eq!(c.channels[6], RC_MID_US);
    i.ch5 = Some(-32768);
    c.update_tx(&i);
    assert!(!c.armed);
    assert_eq!(c.channels[4], RC_MIN_US);
    i.ch5 = None;
    c.update_tx(&i);
    assert!(!c.armed);
}

#[test]
fn disconnect_disarms() {
    let mut c = RcControl::new();
    let mut i = pad(true);
    i.throttle = 32767;
    c.update_gamepad(&i);
    assert!(c.armed);
    assert_eq!(c.channels[2], 2012);
    c.disconnect();
    assert!(!c.armed);
    assert!(!c.arm_btn_prev);
    assert_eq!(c.channels[2], RC_MIN_US);
}

#[test]
fn armed_after_odd_number_of_presses() {
    let buttons = [
        false, true, true, false, true, false, false, true, true, true, false, true,
    ];
    let mut c = RcControl::new();
    let mut prev = false;
    let mut presses = 0;
    for (tick, &b) in buttons.iter().enumerate() {
        if tick == 6 {
            c.disconnect();
            prev = false;
            presses = 0;
        }
        c.update_gamepad(&pad(b));
        if b && !prev {
            presses += 1;
        }
        prev = b;
        assert_eq!(c.armed, presses % 2 == 1, "tick {}", tick);
        assert_eq!(c.channels[4], if presses % 2 == 1 { RC_MAX_US } else { RC_MIN_US });
    }
}

#[test]
fn every_tick_keeps_channels_valid() {
    let mut c = RcControl::new();
    let mut seed: u32 = 12345;
    let mut next = || {
        seed = seed.wrapping_mul(1103515245).wrapping_add(12345);
        (seed >> 8) as i16
    };
    for tick in 0..500 {
        match tick % 7 {
            0 | 1 | 2 => {
                let i = GamepadInput {
                    roll: next(),
                    pitch: next(),
                    throttle: next(),
                    yaw: next(),
                    throttle_invert: next() > 0,
                    arm_button: next() > 0,
                    ch6_button: next() > 0,
                    ch7_button: next() > 0,
                };
                c.update_gamepad(&i);
            }
            6 => c.disconnect(),
            _ => {
                let i = TxInput {
                    roll: next(),
                    pitch: next(),
                    throttle: next(),
                    yaw: next(),
                    throttle_invert: next() > 0,
                    ch5: if next() > 0 { Some(next()) } else { None },
                    ch6: if next() > 0 { Some(next()) } else { None },
                    ch7: if next() > 0 { Some(next()) } else { None },
                };
                c.update_tx(&i);
            }
        }
        for (k, &ch) in c.channels.iter().enumerate() {
            assert!((RC_MIN_US..=RC_MAX_US).contains(&ch), "tick {} ch {}", tick, k);
            if k >= 7 {
                assert_eq!(ch, RC_MID_US);
            }
        }
    }
}
