//! Gamepad and transmitter input mapping: stick, trigger and switch axes to
//! RC channel microseconds, and the per-tick channel and arming state.

use vstd::prelude::*;
use crate::rc::{neutral_channels, RC_MAX_US, RC_MID_US, RC_MIN_US};

verus! {

/// Integer division rounding toward zero, as Rust's `/` on signed numbers
/// does (for a positive divisor).
pub open spec fn div_trunc(a: int, d: int) -> int {
    if a >= 0 {
        a / d
    } else {
        -((-a) / d)
    }
}

/// `x` limited to `RC_MIN_US..=RC_MAX_US`.
pub open spec fn clamp_rc(x: int) -> int {
    if x < RC_MIN_US {
        RC_MIN_US as int
    } else if x > RC_MAX_US {
        RC_MAX_US as int
    } else {
        x
    }
}

/// A centred stick value in -32768..=32767 mapped linearly onto
/// 1500 +/- 512 microseconds, limited to the RC range.
pub open spec fn stick_us(v: int) -> u16 {
    clamp_rc(1500 + div_trunc(v * 512, 32767)) as u16
}

/// Stick axis: centre gives 1500us; values within 2000 of centre are a
/// deadband for hardware offset.
pub open spec fn axis_to_us_spec(val: i16, invert: bool) -> u16 {
    let v = if invert {
        -(val as int)
    } else {
        val as int
    };
    let v = if -2000 < v < 2000 {
        0
    } else {
        v
    };
    stick_us(v)
}

/// Switch axis: low, middle and high thirds of the range give
/// 988, 1500 and 2012us.
pub open spec fn axis_switch_spec(val: i16) -> u16 {
    if val < -10000 {
        RC_MIN_US
    } else if val > 10000 {
        RC_MAX_US
    } else {
        RC_MID_US
    }
}

/// Trigger throttle: the full range -32768..=32767 mapped linearly onto
/// 988..=2012us; when inverted the axis is reversed, so +32767 gives the
/// minimum and -32768 the maximum.
pub open spec fn axis_thr_trigger_spec(val: i16, invert: bool) -> u16 {
    let v = if invert {
        32767 - val as int
    } else {
        val as int + 32768
    };
    clamp_rc(988 + div_trunc(v * 1024, 65535)) as u16
}

/// Transmitter throttle stick: like a stick axis, without deadband.
pub open spec fn axis_thr_stick_spec(val: i16, invert: bool) -> u16 {
    stick_us(
        if invert {
            -(val as int)
        } else {
            val as int
        },
    )
}

fn clamp_rc_exec(x: i32) -> (r: u16)
    ensures
        r == clamp_rc(x as int),
        RC_MIN_US <= r <= RC_MAX_US,
{
    if x < RC_MIN_US as i32 {
        RC_MIN_US
    } else if x > RC_MAX_US as i32 {
        RC_MAX_US
    } else {
        x as u16
    }
}

/// Stick axis to microseconds: centre 1500us, with a deadband of 2000
/// around centre for hardware offset.
pub fn axis_to_us(val: i16, invert: bool) -> (us: u16)
    ensures
        us == axis_to_us_spec(val, invert),
        RC_MIN_US <= us <= RC_MAX_US,
{
    let v: i32 = if invert {
        -(val as i32)
    } else {
        val as i32
    };
    let v: i32 = if -2000 < v && v < 2000 {
        0
    } else {
        v
    };
    clamp_rc_exec(1500 + (v * 512) / 32767)
}

/// Switch axis to microseconds: 988/1500/2012us for the low, middle and
/// high positions of a 2- or 3-position switch.
pub fn axis_switch(val: i16) -> (us: u16)
    ensures
        us == axis_switch_spec(val),
{
    let v = val as i32;
    if v < -10000 {
        RC_MIN_US
    } else if v > 10000 {
        RC_MAX_US
    } else {
        RC_MID_US
    }
}

/// Trigger throttle: -32768 gives 988us (minimum), +32767 gives 2012us;
/// inverted, the axis is reversed.
pub fn axis_thr_trigger(val: i16, invert: bool) -> (us: u16)
    ensures
        us == axis_thr_trigger_spec(val, invert),
        RC_MIN_US <= us <= RC_MAX_US,
{
    let v: i32 = if invert {
        32767 - val as i32
    } else {
        val as i32 + 32768
    };
    clamp_rc_exec(988 + (v * 1024) / 65535)
}

/// Transmitter throttle stick, which rests at the bottom: a stick mapping
/// without deadband.
pub fn axis_thr_stick(val: i16, invert: bool) -> (us: u16)
    ensures
        us == axis_thr_stick_spec(val, invert),
        RC_MIN_US <= us <= RC_MAX_US,
{
    let v: i32 = if invert {
        -(val as i32)
    } else {
        val as i32
    };
    clamp_rc_exec(1500 + (v * 512) / 32767)
}

/// The axis and button readings of a game controller (PS4/Xbox style) for
/// one tick: sticks for roll, pitch and yaw, a trigger for throttle, a
/// button that toggles arming, and two buttons for channels 6 and 7.
#[derive(Debug, Clone, Copy, PartialEq, Eq)]
pub struct GamepadInput {
    pub roll: i16,
    pub pitch: i16,
    pub throttle: i16,
    pub yaw: i16,
    pub throttle_invert: bool,
    pub arm_button: bool,
    pub ch6_button: bool,
    pub ch7_button: bool,
}

/// The axis readings of a transmitter in joystick mode for one tick:
/// sticks, and the switch axes for channels 5 (arming), 6 and 7 where the
/// device has them.
#[derive(Debug, Clone, Copy, PartialEq, Eq)]
pub struct TxInput {
    pub roll: i16,
    pub pitch: i16,
    pub throttle: i16,
    pub yaw: i16,
    pub throttle_invert: bool,
    pub ch5: Option<i16>,
    pub ch6: Option<i16>,
    pub ch7: Option<i16>,
}

/// The channel values sent to the drone every tick, and the arming state.
#[derive(Debug, Clone, Copy, PartialEq, Eq)]
pub struct RcControl {
    /// Channel values in microseconds, channel 1 first.
    pub channels: [u16; 16],
    pub armed: bool,
    /// Whether the arm button was down on the previous tick.
    pub arm_btn_prev: bool,
}

/// The mathematical value of an `RcControl`.
pub ghost struct RcView {
    pub channels: Seq<u16>,
    pub armed: bool,
    pub arm_btn_prev: bool,
}

impl View for RcControl {
    type V = RcView;

    open spec fn view(&self) -> RcView {
        RcView { channels: self.channels@, armed: self.armed, arm_btn_prev: self.arm_btn_prev }
    }
}

/// Every channel value lies in the RC range.
pub open spec fn channels_in_range(channels: Seq<u16>) -> bool {
    forall|k: int| 0 <= k < channels.len() ==> RC_MIN_US <= #[trigger] channels[k] <= RC_MAX_US
}

/// `RC_MAX_US` when `on`, else `RC_MIN_US`.
pub open spec fn switch_us(on: bool) -> u16 {
    if on {
        RC_MAX_US
    } else {
        RC_MIN_US
    }
}

/// Whether this tick toggles arming: the arm button went down.
pub open spec fn arm_pressed(s: RcView, i: GamepadInput) -> bool {
    i.arm_button && !s.arm_btn_prev
}

/// One game-controller tick. Channels 1-4 follow roll, pitch (inverted),
/// trigger throttle and yaw; a press of the arm button toggles arming, and
/// disarming this way puts the throttle at minimum; channel 5 is high
/// exactly when armed; channels 6 and 7 follow their buttons.
pub open spec fn gamepad_step(s: RcView, i: GamepadInput) -> RcView {
    let armed = if arm_pressed(s, i) {
        !s.armed
    } else {
        s.armed
    };
    let throttle = if arm_pressed(s, i) && !armed {
        RC_MIN_US
    } else {
        axis_thr_trigger_spec(i.throttle, i.throttle_invert)
    };
    RcView {
        channels: s.channels.update(0, axis_to_us_spec(i.roll, false)).update(
            1,
            axis_to_us_spec(i.pitch, true),
        ).update(2, throttle).update(3, axis_to_us_spec(i.yaw, false)).update(4, switch_us(armed)).update(
            5,
            switch_us(i.ch6_button),
        ).update(6, switch_us(i.ch7_button)),
        armed: armed,
        arm_btn_prev: i.arm_button,
    }
}

/// One transmitter tick. Channels 1-4 follow roll, pitch, throttle stick
/// (inverted unless `throttle_invert`) and yaw; the channel 5 switch, where
/// present, arms when above centre and sets channel 5 high or low;
/// channels 6 and 7 follow their switches where present.
pub open spec fn tx_step(s: RcView, i: TxInput) -> RcView {
    let c = s.channels.update(0, axis_to_us_spec(i.roll, false)).update(
        1,
        axis_to_us_spec(i.pitch, false),
    ).update(2, axis_thr_stick_spec(i.throttle, !i.throttle_invert)).update(
        3,
        axis_to_us_spec(i.yaw, false),
    );
    let c = match i.ch5 {
        Some(v) => c.update(4, switch_us(v > 0)),
        None => c,
    };
    let c = match i.ch6 {
        Some(v) => c.update(5, axis_switch_spec(v)),
        None => c,
    };
    let c = match i.ch7 {
        Some(v) => c.update(6, axis_switch_spec(v)),
        None => c,
    };
    RcView {
        channels: c,
        armed: match i.ch5 {
            Some(v) => v > 0,
            None => s.armed,
        },
        arm_btn_prev: s.arm_btn_prev,
    }
}

/// The controller went away: disarm, forget the button, throttle to
/// minimum.
pub open spec fn disconnect_step(s: RcView) -> RcView {
    RcView { channels: s.channels.update(2, RC_MIN_US), armed: false, arm_btn_prev: false }
}

impl RcControl {
    /// The state before any controller input: all channels centred,
    /// throttle at minimum, disarmed.
    pub fn new() -> (c: Self)
        ensures
            c@ == (RcView { channels: neutral_channels(), armed: false, arm_btn_prev: false }),
    {
        let mut channels = [RC_MID_US; 16];
        channels[2] = RC_MIN_US;
        assert(channels@ =~= neutral_channels());
        RcControl { channels, armed: false, arm_btn_prev: false }
    }

    /// The controller was unplugged.
    pub fn disconnect(&mut self)
        ensures
            final(self)@ == disconnect_step(old(self)@),
    {
        self.armed = false;
        self.arm_btn_prev = false;
        self.channels[2] = RC_MIN_US;
    }

    /// Applies one tick of game-controller readings.
    pub fn update_gamepad(&mut self, input: &GamepadInput)
        ensures
            final(self)@ == gamepad_step(old(self)@, *input),
    {
        self.channels[0] = axis_to_us(input.roll, false);
        self.channels[1] = axis_to_us(input.pitch, true);
        self.channels[2] = axis_thr_trigger(input.throttle, input.throttle_invert);
        self.channels[3] = axis_to_us(input.yaw, false);
        if input.arm_button && !self.arm_btn_prev {
            self.armed = !self.armed;
            if !self.armed {
                self.channels[2] = RC_MIN_US;
            }
        }
        self.arm_btn_prev = input.arm_button;
        self.channels[4] = if self.armed {
            RC_MAX_US
        } else {
            RC_MIN_US
        };
        self.channels[5] = if input.ch6_button {
            RC_MAX_US
        } else {
            RC_MIN_US
        };
        self.channels[6] = if input.ch7_button {
            RC_MAX_US
        } else {
            RC_MIN_US
        };
        assert(self.channels@ =~= gamepad_step(old(self)@, *input).channels);
    }

    /// Applies one tick of transmitter readings.
    pub fn update_tx(&mut self, input: &TxInput)
        ensures
            final(self)@ == tx_step(old(self)@, *input),
    {
        self.channels[0] = axis_to_us(input.roll, false);
        self.channels[1] = axis_to_us(input.pitch, false);
        self.channels[2] = axis_thr_stick(input.throttle, !input.throttle_invert);
        self.channels[3] = axis_to_us(input.yaw, false);
        match input.ch5 {
            Some(v) => {
                self.armed = v > 0;
                self.channels[4] = if v > 0 {
                    RC_MAX_US
                } else {
                    RC_MIN_US
                };
            },
            None => {},
        }
        match input.ch6 {
            Some(v) => {
                self.channels[5] = axis_switch(v);
            },
            None => {},
        }
        match input.ch7 {
            Some(v) => {
                self.channels[6] = axis_switch(v);
            },
            None => {},
        }
        assert(self.channels@ =~= tx_step(old(self)@, *input).channels);
    }
}

/// Every axis mapping gives a value in the RC range.
pub proof fn lemma_axis_values_in_range(val: i16, invert: bool)
    ensures
        RC_MIN_US <= axis_to_us_spec(val, invert) <= RC_MAX_US,
        RC_MIN_US <= axis_thr_stick_spec(val, invert) <= RC_MAX_US,
        RC_MIN_US <= axis_thr_trigger_spec(val, invert) <= RC_MAX_US,
        RC_MIN_US <= axis_switch_spec(val) <= RC_MAX_US,
{
}

/// Inverting the trigger reverses its axis: the inverted reading at `val`
/// is the plain reading at `-1 - val`, so +32767 gives 988us and -32768
/// gives 2012us.
pub proof fn lemma_trigger_invert_reverses(val: i16)
    ensures
        axis_thr_trigger_spec(val, true) == axis_thr_trigger_spec((-1 - val) as i16, false),
        axis_thr_trigger_spec(32767, true) == RC_MIN_US,
        axis_thr_trigger_spec(-32768i16, true) == RC_MAX_US,
        axis_thr_trigger_spec(-32768i16, false) == RC_MIN_US,
        axis_thr_trigger_spec(32767, false) == RC_MAX_US,
{
}

/// A stick within the deadband around centre reads exactly 1500us.
pub proof fn lemma_stick_deadband(val: i16, invert: bool)
    requires
        -2000 < val < 2000,
    ensures
        axis_to_us_spec(val, invert) == RC_MID_US,
{
}

/// The channels before any input are in the RC range.
pub proof fn lemma_neutral_in_range()
    ensures
        channels_in_range(neutral_channels()),
        neutral_channels().len() == 16,
{
}

/// Ticks and disconnects keep every channel in the RC range: every frame
/// sent carries valid stick positions.
pub proof fn lemma_steps_keep_range(s: RcView, g: GamepadInput, t: TxInput)
    requires
        s.channels.len() == 16,
        channels_in_range(s.channels),
    ensures
        channels_in_range(gamepad_step(s, g).channels),
        channels_in_range(tx_step(s, t).channels),
        channels_in_range(disconnect_step(s).channels),
        gamepad_step(s, g).channels.len() == 16,
        tx_step(s, t).channels.len() == 16,
        disconnect_step(s).channels.len() == 16,
{
    lemma_axis_values_in_range(g.roll, false);
    lemma_axis_values_in_range(g.pitch, true);
    lemma_axis_values_in_range(g.throttle, g.throttle_invert);
    lemma_axis_values_in_range(g.yaw, false);
    lemma_axis_values_in_range(t.roll, false);
    lemma_axis_values_in_range(t.pitch, false);
    lemma_axis_values_in_range(t.throttle, !t.throttle_invert);
    lemma_axis_values_in_range(t.yaw, false);
    match t.ch6 {
        Some(v) => lemma_axis_values_in_range(v, false),
        None => {},
    }
    match t.ch7 {
        Some(v) => lemma_axis_values_in_range(v, false),
        None => {},
    }
    let gs = gamepad_step(s, g).channels;
    assert forall|k: int| 0 <= k < gs.len() implies RC_MIN_US <= #[trigger] gs[k] <= RC_MAX_US by {
        if k > 6 {
            assert(gs[k] == s.channels[k]);
        }
    }
    let ts = tx_step(s, t).channels;
    assert forall|k: int| 0 <= k < ts.len() implies RC_MIN_US <= #[trigger] ts[k] <= RC_MAX_US by {
        if k > 3 {
            assert(ts[k] == s.channels[k] || (k == 4 && t.ch5 is Some) || (k == 5 && t.ch6 is Some) || (
            k == 6 && t.ch7 is Some));
        }
    }
    let ds = disconnect_step(s).channels;
    assert forall|k: int| 0 <= k < ds.len() implies RC_MIN_US <= #[trigger] ds[k] <= RC_MAX_US by {
        if k != 2 {
            assert(ds[k] == s.channels[k]);
        }
    }
}

/// On a game controller, channel 5 is high exactly when armed, and a press
/// that disarms puts the throttle at minimum.
pub proof fn lemma_gamepad_arming_channels(s: RcView, i: GamepadInput)
    requires
        s.channels.len() == 16,
    ensures
        gamepad_step(s, i).channels[4] == switch_us(gamepad_step(s, i).armed),
        arm_pressed(s, i) && s.armed ==> !gamepad_step(s, i).armed && gamepad_step(s, i).channels[2]
            == RC_MIN_US,
{
}

/// Holding the arm button toggles arming once, not on every tick; pressing
/// it again after a release toggles back.
pub proof fn lemma_arm_button_edges(s: RcView, i1: GamepadInput, i2: GamepadInput, i3: GamepadInput)
    requires
        !s.arm_btn_prev,
        i1.arm_button,
    ensures
        gamepad_step(s, i1).armed == !s.armed,
        i2.arm_button ==> gamepad_step(gamepad_step(s, i1), i2).armed == !s.armed,
        !i2.arm_button && i3.arm_button ==> gamepad_step(
            gamepad_step(gamepad_step(s, i1), i2),
            i3,
        ).armed == s.armed,
{
}

/// On a transmitter, the channel 5 switch arms exactly when it is above
/// centre, and channel 5 then reads high exactly when armed.
pub proof fn lemma_tx_arming_switch(s: RcView, i: TxInput)
    requires
        s.channels.len() == 16,
        i.ch5 is Some,
    ensures
        tx_step(s, i).armed == (i.ch5.unwrap() > 0),
        tx_step(s, i).channels[4] == switch_us(tx_step(s, i).armed),
{
}

/// One event of the controller loop: a tick of game-controller readings,
/// a tick of transmitter readings, or the controller going away.
pub ghost enum RcEvent {
    Gamepad(GamepadInput),
    Tx(TxInput),
    Disconnect,
}

/// The state after one event.
pub open spec fn event_step(s: RcView, e: RcEvent) -> RcView {
    match e {
        RcEvent::Gamepad(i) => gamepad_step(s, i),
        RcEvent::Tx(i) => tx_step(s, i),
        RcEvent::Disconnect => disconnect_step(s),
    }
}

/// The state after a run of events, in order.
pub open spec fn run_events(s: RcView, events: Seq<RcEvent>) -> RcView
    decreases events.len(),
{
    if events.len() == 0 {
        s
    } else {
        event_step(run_events(s, events.drop_last()), events.last())
    }
}

/// The state when the loop starts.
pub open spec fn initial_rc() -> RcView {
    RcView { channels: neutral_channels(), armed: false, arm_btn_prev: false }
}

/// Sixteen channels, all in the RC range, channels 8-16 centred.
pub open spec fn channels_valid(c: Seq<u16>) -> bool {
    &&& c.len() == 16
    &&& channels_in_range(c)
    &&& forall|k: int| 7 <= k < 16 ==> #[trigger] c[k] == RC_MID_US
}

/// Any run of events keeps the channels valid.
pub proof fn lemma_run_keeps_channels_valid(s: RcView, events: Seq<RcEvent>)
    requires
        channels_valid(s.channels),
    ensures
        channels_valid(run_events(s, events).channels),
    decreases events.len(),
{
    if events.len() > 0 {
        lemma_run_keeps_channels_valid(s, events.drop_last());
        let p = run_events(s, events.drop_last());
        let dummy_g = GamepadInput {
            roll: 0,
            pitch: 0,
            throttle: 0,
            yaw: 0,
            throttle_invert: false,
            arm_button: false,
            ch6_button: false,
            ch7_button: false,
        };
        let dummy_t = TxInput {
            roll: 0,
            pitch: 0,
            throttle: 0,
            yaw: 0,
            throttle_invert: false,
            ch5: None,
            ch6: None,
            ch7: None,
        };
        match events.last() {
            RcEvent::Gamepad(i) => {
                lemma_steps_keep_range(p, i, dummy_t);
                let c = gamepad_step(p, i).channels;
                assert forall|k: int| 7 <= k < 16 implies #[trigger] c[k] == RC_MID_US by {
                    assert(c[k] == p.channels[k]);
                }
            },
            RcEvent::Tx(i) => {
                lemma_steps_keep_range(p, dummy_g, i);
                let c = tx_step(p, i).channels;
                assert forall|k: int| 7 <= k < 16 implies #[trigger] c[k] == RC_MID_US by {
                    assert(c[k] == p.channels[k]);
                }
            },
            RcEvent::Disconnect => {
                lemma_steps_keep_range(p, dummy_g, dummy_t);
                let c = disconnect_step(p).channels;
                assert forall|k: int| 7 <= k < 16 implies #[trigger] c[k] == RC_MID_US by {
                    assert(c[k] == p.channels[k]);
                }
            },
        }
    }
}

/// Every frame of a run from the start carries valid channels: after any
/// prefix of the events, all 16 channels lie in 988..=2012us and channels
/// 8-16 are centred.
pub proof fn lemma_every_tick_channels_valid(events: Seq<RcEvent>)
    ensures
        forall|k: int|
            0 <= k <= events.len() ==> channels_valid(
                #[trigger] run_events(initial_rc(), events.take(k)).channels,
            ),
{
    lemma_neutral_in_range();
    assert(channels_valid(initial_rc().channels));
    assert forall|k: int| 0 <= k <= events.len() implies channels_valid(
        #[trigger] run_events(initial_rc(), events.take(k)).channels,
    ) by {
        lemma_run_keeps_channels_valid(initial_rc(), events.take(k));
    }
}

/// The state after a run of game-controller ticks.
pub open spec fn run_gamepad(s: RcView, inputs: Seq<GamepadInput>) -> RcView
    decreases inputs.len(),
{
    if inputs.len() == 0 {
        s
    } else {
        gamepad_step(run_gamepad(s, inputs.drop_last()), inputs.last())
    }
}

/// The number of ticks at which the arm button reads down after reading up
/// (or, for the first tick, after `prev`).
pub open spec fn press_count(prev: bool, inputs: Seq<GamepadInput>) -> nat
    decreases inputs.len(),
{
    if inputs.len() == 0 {
        0
    } else {
        let before = if inputs.len() >= 2 {
            inputs[inputs.len() - 2].arm_button
        } else {
            prev
        };
        press_count(prev, inputs.drop_last()) + if inputs.last().arm_button && !before {
            1nat
        } else {
            0nat
        }
    }
}

/// Over a run of game-controller ticks, arming flips once per press of the
/// arm button, and channel 5 shows the arming after every tick.
pub proof fn lemma_arm_parity(s: RcView, inputs: Seq<GamepadInput>)
    requires
        s.channels.len() == 16,
    ensures
        run_gamepad(s, inputs).armed == (s.armed != (press_count(s.arm_btn_prev, inputs) % 2 == 1)),
        run_gamepad(s, inputs).arm_btn_prev == if inputs.len() > 0 {
            inputs.last().arm_button
        } else {
            s.arm_btn_prev
        },
        run_gamepad(s, inputs).channels.len() == 16,
        inputs.len() > 0 ==> run_gamepad(s, inputs).channels[4] == switch_us(
            run_gamepad(s, inputs).armed,
        ),
    decreases inputs.len(),
{
    if inputs.len() > 0 {
        lemma_arm_parity(s, inputs.drop_last());
        if inputs.len() >= 2 {
            assert(inputs.drop_last().last() == inputs[inputs.len() - 2]);
        }
    }
}

/// From a fresh connection (disarmed, button up, as `new` and `disconnect`
/// leave it), the controller is armed, and channel 5 high, exactly after an
/// odd number of arm-button presses.
pub proof fn lemma_armed_after_odd_presses(s: RcView, inputs: Seq<GamepadInput>)
    requires
        s.channels.len() == 16,
        !s.armed,
        !s.arm_btn_prev,
        inputs.len() > 0,
    ensures
        run_gamepad(s, inputs).armed == (press_count(false, inputs) % 2 == 1),
        run_gamepad(s, inputs).channels[4] == if press_count(false, inputs) % 2 == 1 {
            RC_MAX_US
        } else {
            RC_MIN_US
        },
{
    lemma_arm_parity(s, inputs);
}

/// On a transmitter tick, channels 1-4 are driven by the roll, pitch,
/// throttle and yaw sticks in that order, channels 6 and 7 by their
/// switches where present, and channels 8-16 are left alone.
pub proof fn lemma_tx_channel_sources(s: RcView, i: TxInput)
    requires
        s.channels.len() == 16,
    ensures
        tx_step(s, i).channels[0] == axis_to_us_spec(i.roll, false),
        tx_step(s, i).channels[1] == axis_to_us_spec(i.pitch, false),
        tx_step(s, i).channels[2] == axis_thr_stick_spec(i.throttle, !i.throttle_invert),
        tx_step(s, i).channels[3] == axis_to_us_spec(i.yaw, false),
        tx_step(s, i).channels[5] == match i.ch6 {
            Some(v) => axis_switch_spec(v),
            None => s.channels[5],
        },
        tx_step(s, i).channels[6] == match i.ch7 {
            Some(v) => axis_switch_spec(v),
            None => s.channels[6],
        },
        forall|k: int| 7 <= k < 16 ==> #[trigger] tx_step(s, i).channels[k] == s.channels[k],
{
}

/// On a game-controller tick, channel 1 follows the roll stick, channel 2
/// the pitch stick reversed, channel 4 the yaw stick, channel 3 the trigger
/// (unless a press just disarmed), channels 6 and 7 their buttons, and
/// channels 8-16 are left alone.
pub proof fn lemma_gamepad_channel_sources(s: RcView, i: GamepadInput)
    requires
        s.channels.len() == 16,
    ensures
        gamepad_step(s, i).channels[0] == axis_to_us_spec(i.roll, false),
        gamepad_step(s, i).channels[1] == axis_to_us_spec(i.pitch, true),
        gamepad_step(s, i).channels[3] == axis_to_us_spec(i.yaw, false),
        !(i.arm_button && !s.arm_btn_prev && s.armed) ==> gamepad_step(s, i).channels[2]
            == axis_thr_trigger_spec(i.throttle, i.throttle_invert),
        gamepad_step(s, i).channels[5] == if i.ch6_button {
            RC_MAX_US
        } else {
            RC_MIN_US
        },
        gamepad_step(s, i).channels[6] == if i.ch7_button {
            RC_MAX_US
        } else {
            RC_MIN_US
        },
        forall|k: int| 7 <= k < 16 ==> #[trigger] gamepad_step(s, i).channels[k] == s.channels[k],
{
}

/// The stick mapping is symmetric about centre, and inverting it is reading
/// the stick from the other side: positions `v` and `-v` sit equally far
/// either side of 1500us.
pub proof fn lemma_stick_symmetry(v: i16)
    requires
        v > -32768,
    ensures
        axis_to_us_spec(v, false) + axis_to_us_spec((-v) as i16, false) == 3000,
        axis_to_us_spec(v, true) == axis_to_us_spec((-v) as i16, false),
{
}

/// Outside the deadband, a stick pushed to `v > 0` gives 1500us plus its
/// share of 512us, rounded down: `us - 1500` is the largest number with
/// `32767 * (us - 1500) <= 512 * v`. Full deflection gives 2012us.
pub proof fn lemma_stick_scaling(v: i16)
    requires
        v >= 2000,
    ensures
        32767 * (axis_to_us_spec(v, false) - 1500) <= 512 * v < 32767 * (axis_to_us_spec(v, false)
            - 1499),
        axis_to_us_spec(32767, false) == RC_MAX_US,
        axis_to_us_spec(-32768i16, false) == RC_MIN_US,
{
    let x = v * 512;
    assert(0 <= x <= 32767 * 512) by (nonlinear_arith)
        requires
            2000 <= v <= 32767,
            x == v * 512,
    ;
    assert(32767 * (x / 32767) <= x < 32767 * (x / 32767) + 32767);
}

} // verus!
