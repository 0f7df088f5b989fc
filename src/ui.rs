//! The UI task's logic: button gestures (state edges, short press, double
//! tap) and the LED pattern for the phone and registration state. Times are
//! milliseconds of a monotonic clock.
use vstd::prelude::*;
use crate::messages::{ButtonEvent, ButtonState, LedState, PhoneState, UiCommand};
use crate::transaction::{add_ms, add_ms_exec};

verus! {

/// Button polling period.
pub const POLL_INTERVAL_MS: u64 = 40;

/// Longest hold that still counts as a short press.
pub const SHORT_PRESS_MAX_MS: u64 = 650;

/// Longest gap between two short presses of a double tap.
pub const DOUBLE_TAP_WINDOW_MS: u64 = 400;

/// Re-check period of a steady pattern.
pub const STEADY_RECHECK_MS: u64 = 3_600_000;

/// Colour and blink period (none: steady) of the indicator.
#[derive(Debug, Clone, Copy, PartialEq, Eq, Structural)]
pub struct LedPattern {
    pub red: u8,
    pub green: u8,
    pub blue: u8,
    pub blink_period_ms: Option<u64>,
}

/// Idle and registered: steady green; idle and unregistered: red blinking
/// every 800 ms; ringing: yellow every 300 ms; established: steady blue.
pub open spec fn pattern_for(phone: PhoneState, registered: bool) -> LedPattern {
    match phone {
        PhoneState::Ringing => LedPattern { red: 255, green: 255, blue: 0, blink_period_ms: Some(300) },
        PhoneState::Established => LedPattern { red: 0, green: 0, blue: 255, blink_period_ms: None },
        PhoneState::Idle => if registered {
            LedPattern { red: 0, green: 255, blue: 0, blink_period_ms: None }
        } else {
            LedPattern { red: 255, green: 0, blue: 0, blink_period_ms: Some(800) }
        },
    }
}

impl LedPattern {
    pub fn for_state(phone: PhoneState, registered: bool) -> (r: LedPattern)
        ensures
            r == pattern_for(phone, registered),
    {
        match phone {
            PhoneState::Ringing => LedPattern { red: 255, green: 255, blue: 0, blink_period_ms: Some(300) },
            PhoneState::Established => LedPattern { red: 0, green: 0, blue: 255, blink_period_ms: None },
            PhoneState::Idle => {
                if registered {
                    LedPattern { red: 0, green: 255, blue: 0, blink_period_ms: None }
                } else {
                    LedPattern { red: 255, green: 0, blue: 0, blink_period_ms: Some(800) }
                }
            },
        }
    }
}

pub open spec fn period_or_recheck(p: LedPattern) -> u64 {
    match p.blink_period_ms {
        Some(d) => d,
        None => STEADY_RECHECK_MS,
    }
}

pub open spec fn since(now: u64, then: u64) -> int {
    if now >= then {
        now - then
    } else {
        0
    }
}

#[derive(Debug, Clone, Copy, PartialEq, Eq, Structural)]
pub struct UiState {
    pub phone_state: PhoneState,
    pub registered: bool,
    pub last_button_state: ButtonState,
    pub press_started_at: Option<u64>,
    pub last_short_release_at: Option<u64>,
    pub last_led_state: Option<LedState>,
    pub led_pattern: LedPattern,
    pub led_on: bool,
    pub next_blink_at: u64,
}

/// The state after a new pattern is taken: LED on, next toggle one period
/// (or the steady re-check) from now, and the next write forced.
pub open spec fn repattern(s: UiState, p: LedPattern, now: u64) -> UiState {
    UiState {
        led_pattern: p,
        last_led_state: None,
        led_on: true,
        next_blink_at: add_ms(now, period_or_recheck(p)),
        ..s
    }
}

/// Gestures seen at one poll, and the state after it: every change of
/// level is reported; a release ends a press, which counts as a short
/// press when held at most 650 ms, and as a double tap when the previous
/// short press was released at most 400 ms before; a longer hold counts as
/// nothing.
pub open spec fn poll_button_spec(s: UiState, level: ButtonState, now: u64) -> (UiState, Seq<ButtonEvent>) {
    let last_short = match s.last_short_release_at {
        Some(prev) => if since(now, prev) > DOUBLE_TAP_WINDOW_MS { None } else { Some(prev) },
        None => None,
    };
    let edge: Seq<ButtonEvent> = if level != s.last_button_state {
        seq![ButtonEvent::StateChanged(level)]
    } else {
        Seq::empty()
    };
    let pressed_at = if s.last_button_state == ButtonState::Released && level == ButtonState::Pressed {
        Some(now)
    } else {
        s.press_started_at
    };
    if s.last_button_state == ButtonState::Pressed && level == ButtonState::Released && pressed_at is Some {
        let held = since(now, pressed_at->Some_0);
        let base = UiState { last_button_state: level, press_started_at: None, ..s };
        if held <= SHORT_PRESS_MAX_MS {
            if last_short is Some && since(now, last_short->Some_0) <= DOUBLE_TAP_WINDOW_MS {
                (UiState { last_short_release_at: None, ..base }, edge.push(ButtonEvent::DoubleTap))
            } else {
                (UiState { last_short_release_at: Some(now), ..base }, edge.push(ButtonEvent::ShortPress))
            }
        } else {
            (UiState { last_short_release_at: last_short, ..base }, edge)
        }
    } else {
        (UiState { last_button_state: level, press_started_at: pressed_at, last_short_release_at: last_short, ..s }, edge)
    }
}

/// The LED step at `now`: the pattern follows the state; a blinking
/// pattern toggles when its deadline has passed; the LED is written only
/// when the target differs from the last value written.
pub open spec fn update_led_spec(s: UiState, now: u64) -> (UiState, Option<LedState>) {
    let desired = pattern_for(s.phone_state, s.registered);
    let s1 = if desired != s.led_pattern { repattern(s, desired, now) } else { s };
    let s2 = match s1.led_pattern.blink_period_ms {
        Some(p) => if now >= s1.next_blink_at {
            UiState { led_on: !s1.led_on, next_blink_at: add_ms(now, p), ..s1 }
        } else {
            s1
        },
        None => UiState { led_on: true, ..s1 },
    };
    let target = if s2.led_on {
        LedState::Color { red: s2.led_pattern.red, green: s2.led_pattern.green, blue: s2.led_pattern.blue }
    } else {
        LedState::Off
    };
    if s2.last_led_state != Some(target) {
        (UiState { last_led_state: Some(target), ..s2 }, Some(target))
    } else {
        (s2, None)
    }
}

/// A command from the SIP task: a new phone or registration state selects
/// its pattern at once.
pub open spec fn ui_command_spec(s: UiState, cmd: UiCommand, now: u64) -> UiState {
    match cmd {
        UiCommand::DialogStateChanged(p) => repattern(UiState { phone_state: p, ..s }, pattern_for(p, s.registered), now),
        UiCommand::RegistrationStateChanged(r) => repattern(UiState { registered: r, ..s }, pattern_for(s.phone_state, r), now),
        UiCommand::SetLed(_) => s,
    }
}

fn since_exec(now: u64, then: u64) -> (r: u64)
    ensures
        r == since(now, then),
{
    if now >= then {
        now - then
    } else {
        0
    }
}

impl UiState {
    /// Idle, unregistered, the button at `initial`, the LED to be written.
    pub fn new(initial: ButtonState, now: u64) -> (r: Self)
        ensures
            r == repattern(UiState {
                phone_state: PhoneState::Idle,
                registered: false,
                last_button_state: initial,
                press_started_at: None,
                last_short_release_at: None,
                last_led_state: None,
                led_pattern: pattern_for(PhoneState::Idle, false),
                led_on: true,
                next_blink_at: now,
            }, pattern_for(PhoneState::Idle, false), now),
    {
        let p = LedPattern::for_state(PhoneState::Idle, false);
        UiState {
            phone_state: PhoneState::Idle,
            registered: false,
            last_button_state: initial,
            press_started_at: None,
            last_short_release_at: None,
            last_led_state: None,
            led_pattern: p,
            led_on: true,
            next_blink_at: add_ms_exec(now, 800),
        }
    }

    fn repattern_exec(&mut self, p: LedPattern, now: u64)
        ensures
            *final(self) == repattern(*old(self), p, now),
    {
        self.led_pattern = p;
        self.last_led_state = None;
        self.led_on = true;
        let period = match p.blink_period_ms {
            Some(d) => d,
            None => STEADY_RECHECK_MS,
        };
        self.next_blink_at = add_ms_exec(now, period);
    }

    pub fn handle_command(&mut self, cmd: UiCommand, now: u64)
        ensures
            *final(self) == ui_command_spec(*old(self), cmd, now),
    {
        match cmd {
            UiCommand::DialogStateChanged(p) => {
                self.phone_state = p;
                let pat = LedPattern::for_state(p, self.registered);
                self.repattern_exec(pat, now);
            },
            UiCommand::RegistrationStateChanged(r) => {
                self.registered = r;
                let pat = LedPattern::for_state(self.phone_state, r);
                self.repattern_exec(pat, now);
            },
            UiCommand::SetLed(_) => {},
        }
    }

    /// Reads one button level (see `poll_button_spec`).
    pub fn poll_button(&mut self, level: ButtonState, now: u64) -> (r: Vec<ButtonEvent>)
        ensures
            (*final(self), r@) == poll_button_spec(*old(self), level, now),
    {
        let mut out: Vec<ButtonEvent> = Vec::new();
        match self.last_short_release_at {
            Some(prev) => {
                if since_exec(now, prev) > DOUBLE_TAP_WINDOW_MS {
                    self.last_short_release_at = None;
                }
            },
            None => {},
        }
        if level != self.last_button_state {
            out.push(ButtonEvent::StateChanged(level));
        }
        if self.last_button_state == ButtonState::Released && level == ButtonState::Pressed {
            self.press_started_at = Some(now);
        }
        if self.last_button_state == ButtonState::Pressed && level == ButtonState::Released {
            match self.press_started_at {
                Some(pressed_at) => {
                    self.press_started_at = None;
                    let held = since_exec(now, pressed_at);
                    if held <= SHORT_PRESS_MAX_MS {
                        let double = match self.last_short_release_at {
                            Some(prev) => since_exec(now, prev) <= DOUBLE_TAP_WINDOW_MS,
                            None => false,
                        };
                        if double {
                            self.last_short_release_at = None;
                            out.push(ButtonEvent::DoubleTap);
                        } else {
                            self.last_short_release_at = Some(now);
                            out.push(ButtonEvent::ShortPress);
                        }
                    }
                },
                None => {},
            }
        }
        self.last_button_state = level;
        proof {
            let (s2, ev) = poll_button_spec(*old(self), level, now);
            assert(out@ =~= ev);
        }
        out
    }

    /// The LED step (see `update_led_spec`); returns the value to write.
    pub fn update_led(&mut self, now: u64) -> (r: Option<LedState>)
        ensures
            (*final(self), r) == update_led_spec(*old(self), now),
    {
        let desired = LedPattern::for_state(self.phone_state, self.registered);
        if desired != self.led_pattern {
            self.repattern_exec(desired, now);
        }
        match self.led_pattern.blink_period_ms {
            Some(p) => {
                if now >= self.next_blink_at {
                    self.led_on = !self.led_on;
                    self.next_blink_at = add_ms_exec(now, p);
                }
            },
            None => {
                self.led_on = true;
            },
        }
        let target = if self.led_on {
            LedState::Color { red: self.led_pattern.red, green: self.led_pattern.green, blue: self.led_pattern.blue }
        } else {
            LedState::Off
        };
        if self.last_led_state != Some(target) {
            self.last_led_state = Some(target);
            Some(target)
        } else {
            None
        }
    }
}

} // verus!
