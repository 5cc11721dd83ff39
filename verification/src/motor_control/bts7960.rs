//! BTS7960 (IBT-2) high-power half-bridge driver, as the state it puts on
//! its pins: RPWM / LPWM (duty and whether the compare output is connected)
//! and the R_EN / L_EN enable lines.
//!
//! A Fast-PWM channel at duty 0 still emits a narrow spike every period, so
//! stopping disconnects both PWM outputs instead of only writing duty 0.

use vstd::prelude::*;

use crate::motor_control::{Motor, MotorCall};
use crate::motor_control::l298n::{duty_for_speed, duty_spec};

verus! {

/// Logical direction of the BTS7960: positive speeds are forward (zero is
/// not); `inverted` swaps the sense.
pub open spec fn bts7960_forward_spec(speed: i16, inverted: bool) -> bool {
    if inverted {
        speed < 0
    } else {
        speed > 0
    }
}

pub fn bts7960_is_forward(speed: i16, inverted: bool) -> (r: bool)
    ensures
        r == bts7960_forward_spec(speed, inverted),
{
    if inverted {
        speed < 0
    } else {
        speed > 0
    }
}

/// State of one PWM output: duty, and whether the comparator drives the pin.
#[derive(Debug, PartialEq, Eq, Clone, Copy, Structural)]
pub struct PwmChannel {
    pub duty: u8,
    pub connected: bool,
}

/// State of the four control pins of the module.
#[derive(Debug, PartialEq, Eq, Clone, Copy, Structural)]
pub struct BtsPins {
    pub rpwm: PwmChannel,
    pub lpwm: PwmChannel,
    pub r_en: bool,
    pub l_en: bool,
}

pub open spec fn channel_off() -> PwmChannel {
    PwmChannel { duty: 0, connected: false }
}

/// The four control pins of a BTS7960 module, as the board provides them.
pub trait BtsOutput {
    /// Puts `pins` on the module.
    fn apply(&mut self, pins: BtsPins);
}

/// One motor on a BTS7960 module; every change of its pin state is
/// applied to the module's output.
pub struct BTS7960Motor<P> {
    out: P,
    pins: BtsPins,
    max_duty_r: u8,
    max_duty_l: u8,
    inverted: bool,
    commanded: Ghost<i16>,
    history: Ghost<Seq<MotorCall>>,
}

impl<P: BtsOutput> View for BTS7960Motor<P> {
    type V = BtsPins;

    closed spec fn view(&self) -> BtsPins {
        self.pins
    }
}

impl<P: BtsOutput> BTS7960Motor<P> {
    pub closed spec fn max_duty_r_spec(&self) -> u8 {
        self.max_duty_r
    }

    pub closed spec fn max_duty_l_spec(&self) -> u8 {
        self.max_duty_l
    }

    pub closed spec fn is_inverted(&self) -> bool {
        self.inverted
    }

    /// The configuration is unchanged by an operation.
    pub open spec fn same_config(self, other: Self) -> bool {
        &&& self.max_duty_r_spec() == other.max_duty_r_spec()
        &&& self.max_duty_l_spec() == other.max_duty_l_spec()
        &&& self.is_inverted() == other.is_inverted()
    }

    /// A driver on `out`, put in the disabled state (R_EN, L_EN low) with
    /// both PWM outputs disconnected; call `enable` to let it drive.
    pub fn new(max_duty_r: u8, max_duty_l: u8, inverted: bool, out: P) -> (m: Self)
        ensures
            m@ == (BtsPins {
                rpwm: channel_off(),
                lpwm: channel_off(),
                r_en: false,
                l_en: false,
            }),
            m.max_duty_r_spec() == max_duty_r,
            m.max_duty_l_spec() == max_duty_l,
            m.is_inverted() == inverted,
            m.speed() == 0,
            m.calls() == Seq::<MotorCall>::empty(),
    {
        let mut m = BTS7960Motor {
            out,
            pins: BtsPins {
                rpwm: PwmChannel { duty: 0, connected: false },
                lpwm: PwmChannel { duty: 0, connected: false },
                r_en: false,
                l_en: false,
            },
            max_duty_r,
            max_duty_l,
            inverted,
            commanded: Ghost(0),
            history: Ghost(Seq::empty()),
        };
        let off = m.pins;
        m.put(off, Ghost(0));
        m
    }

    /// The one place where the pin state changes: `pins` becomes the state
    /// and is applied to the output, for the commanded speed `speed`.
    fn put(&mut self, pins: BtsPins, speed: Ghost<i16>)
        ensures
            final(self).same_config(*old(self)),
            final(self)@ == pins,
            final(self).speed() == speed@,
            final(self).calls() == old(self).calls(),
    {
        self.pins = pins;
        self.commanded = speed;
        self.out.apply(pins);
    }

    fn record(&mut self, call: MotorCall)
        ensures
            final(self).same_config(*old(self)),
            final(self)@ == old(self)@,
            final(self).speed() == old(self).speed(),
            final(self).calls() == old(self).calls().push(call),
    {
        self.history = Ghost(self.history@.push(call));
    }

    /// Both PWM outputs off, the enable lines as they are.
    fn halted(&self) -> (p: BtsPins)
        ensures
            p == (BtsPins { rpwm: channel_off(), lpwm: channel_off(), ..self@ }),
    {
        BtsPins {
            rpwm: PwmChannel { duty: 0, connected: false },
            lpwm: PwmChannel { duty: 0, connected: false },
            r_en: self.pins.r_en,
            l_en: self.pins.l_en,
        }
    }

    /// The pin state to apply.
    pub fn pins(&self) -> (p: BtsPins)
        ensures
            p == self@,
    {
        self.pins
    }
}

impl<P: BtsOutput> Motor for BTS7960Motor<P> {
    closed spec fn speed(&self) -> i16 {
        self.commanded@
    }

    closed spec fn calls(&self) -> Seq<MotorCall> {
        self.history@
    }

    closed spec fn has_enable_lines(&self) -> bool {
        true
    }

    /// Forward drives RPWM and disconnects LPWM; reverse the other way
    /// round. Speed 0 stops. The enable lines are not touched.
    fn set_speed(&mut self, speed: i16)
        ensures
            final(self).same_config(*old(self)),
            final(self)@.r_en == old(self)@.r_en,
            final(self)@.l_en == old(self)@.l_en,
            speed == 0 ==> final(self)@.rpwm == channel_off() && final(self)@.lpwm
                == channel_off(),
            (speed != 0 && bts7960_forward_spec(speed, old(self).is_inverted())) ==> {
                &&& final(self)@.rpwm == (PwmChannel {
                    duty: duty_spec(speed, old(self).max_duty_r_spec() as u32),
                    connected: true,
                })
                &&& final(self)@.lpwm == channel_off()
            },
            (speed != 0 && !bts7960_forward_spec(speed, old(self).is_inverted())) ==> {
                &&& final(self)@.rpwm == channel_off()
                &&& final(self)@.lpwm == (PwmChannel {
                    duty: duty_spec(speed, old(self).max_duty_l_spec() as u32),
                    connected: true,
                })
            },
    {
        if speed == 0 {
            let off = self.halted();
            self.put(off, Ghost(0));
        } else if bts7960_is_forward(speed, self.inverted) {
            let duty = duty_for_speed(speed, self.max_duty_r as u32);
            let on = BtsPins {
                rpwm: PwmChannel { duty, connected: true },
                lpwm: PwmChannel { duty: 0, connected: false },
                r_en: self.pins.r_en,
                l_en: self.pins.l_en,
            };
            self.put(on, Ghost(speed));
        } else {
            let duty = duty_for_speed(speed, self.max_duty_l as u32);
            let on = BtsPins {
                rpwm: PwmChannel { duty: 0, connected: false },
                lpwm: PwmChannel { duty, connected: true },
                r_en: self.pins.r_en,
                l_en: self.pins.l_en,
            };
            self.put(on, Ghost(speed));
        }
        self.record(MotorCall::SetSpeed(speed));
    }

    /// Both PWM outputs at duty 0 and disconnected (0 V, passive brake).
    fn stop(&mut self)
        ensures
            final(self).same_config(*old(self)),
            final(self)@ == (BtsPins {
                rpwm: channel_off(),
                lpwm: channel_off(),
                ..old(self)@
            }),
    {
        let off = self.halted();
        self.put(off, Ghost(0));
        self.record(MotorCall::Stop);
    }

    /// No hardware brake: the pin state of `stop`.
    fn brake(&mut self)
        ensures
            final(self).same_config(*old(self)),
            final(self)@ == (BtsPins {
                rpwm: channel_off(),
                lpwm: channel_off(),
                ..old(self)@
            }),
    {
        let off = self.halted();
        self.put(off, Ghost(0));
        self.record(MotorCall::Brake);
    }

    /// R_EN and L_EN high.
    fn enable(&mut self)
        ensures
            final(self).same_config(*old(self)),
            final(self)@ == (BtsPins { r_en: true, l_en: true, ..old(self)@ }),
    {
        let on = BtsPins { r_en: true, l_en: true, ..self.pins };
        let speed = Ghost(self.speed());
        self.put(on, speed);
        self.record(MotorCall::Enable);
    }

    /// Stops, then R_EN and L_EN low.
    fn disable(&mut self)
        ensures
            final(self).same_config(*old(self)),
            final(self)@ == (BtsPins {
                rpwm: channel_off(),
                lpwm: channel_off(),
                r_en: false,
                l_en: false,
            }),
    {
        let off = self.halted();
        self.put(off, Ghost(0));
        let idle = BtsPins { r_en: false, l_en: false, ..self.pins };
        self.put(idle, Ghost(0));
        self.record(MotorCall::Disable);
    }
}


/// Direction law: a motor mounted the normal way drives RPWM (forward)
/// exactly for positive speeds, and mounting it the other way round swaps
/// the sense of every non-zero speed; zero is never forward.
pub proof fn law_bts7960_direction(speed: i16)
    ensures
        bts7960_forward_spec(speed, false) == (speed > 0),
        speed != 0 ==> bts7960_forward_spec(speed, true) == !bts7960_forward_spec(speed, false),
        !bts7960_forward_spec(0, false) && !bts7960_forward_spec(0, true),
{
}

} // verus!
