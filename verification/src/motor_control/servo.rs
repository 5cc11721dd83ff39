//! Standard hobby servo (0–180°), positioned by the width of a pulse
//! repeated every ~20 ms.

use vstd::prelude::*;

use crate::motor_control::Servo;

verus! {

/// Pulse width in µs for an angle: 0° → 1000 µs, 90° → 1500 µs,
/// 180° → 2000 µs; angles above 180° count as 180°.
pub open spec fn pulse_width_spec(angle: u8) -> u16 {
    let a: nat = if angle > 180 {
        180
    } else {
        angle as nat
    };
    (1000 + a * 1000 / 180) as u16
}

/// Pulse width for `angle`, as `StandardServo::set_angle` emits it.
pub fn pulse_width_us(angle: u8) -> (w: u16)
    ensures
        w == pulse_width_spec(angle),
        1000 <= w <= 2000,
{
    let a: u32 = if angle > 180 {
        180
    } else {
        angle as u32
    };
    assert(a * 1000 / 180 <= 1000) by (nonlinear_arith)
        requires
            a <= 180,
    ;
    1000 + (a * 1000 / 180) as u16
}

/// The servo's signal pin and the microsecond delay, as the board
/// provides them.
pub trait PulsePin {
    fn set_high(&mut self);

    fn set_low(&mut self);

    /// Busy-waits `us` microseconds.
    fn delay_us(&mut self, us: u32);
}

/// An operation on the servo's signal pin.
#[derive(Debug, Clone, Copy, PartialEq, Eq, Structural)]
pub enum PulseOp {
    High,
    Low,
    /// A busy wait of the given µs.
    Delay(u32),
}

/// One pulse of `us` µs: the line high, the wait, the line low.
pub open spec fn pulse_ops(us: u16) -> Seq<PulseOp> {
    seq![PulseOp::High, PulseOp::Delay(us as u32), PulseOp::Low]
}

/// Servo driven by software-timed pulses on a digital pin.
pub struct StandardServo<P> {
    pin: P,
    ops: Ghost<Seq<PulseOp>>,
}

impl<P: PulsePin> StandardServo<P> {
    /// Every operation made on the signal pin, in order.
    pub closed spec fn pin_ops(&self) -> Seq<PulseOp> {
        self.ops@
    }

    /// A servo on `pin`.
    pub fn new(pin: P) -> (s: Self)
        ensures
            s.pin_ops() == Seq::<PulseOp>::empty(),
    {
        StandardServo { pin, ops: Ghost(Seq::empty()) }
    }

    /// Drives the signal line, and records it.
    fn level(&mut self, high: bool)
        ensures
            final(self).pin_ops() == old(self).pin_ops().push(
                if high {
                    PulseOp::High
                } else {
                    PulseOp::Low
                },
            ),
    {
        if high {
            self.pin.set_high();
        } else {
            self.pin.set_low();
        }
        self.ops = Ghost(self.ops@.push(if high { PulseOp::High } else { PulseOp::Low }));
    }

    /// Waits `us` µs, and records it.
    fn wait_us(&mut self, us: u32)
        ensures
            final(self).pin_ops() == old(self).pin_ops().push(PulseOp::Delay(us)),
    {
        self.pin.delay_us(us);
        self.ops = Ghost(self.ops@.push(PulseOp::Delay(us)));
    }

    /// Sends one pulse of `microseconds`; repeat about every 20 ms to hold
    /// the position.
    pub fn pulse(&mut self, microseconds: u16)
        ensures
            final(self).pin_ops() == old(self).pin_ops() + pulse_ops(microseconds),
    {
        self.level(true);
        self.wait_us(microseconds as u32);
        self.level(false);
        assert(self.ops@ =~= old(self).pin_ops() + pulse_ops(microseconds));
    }
}

impl<P: PulsePin> Servo for StandardServo<P> {
    /// Sends the pulse for `angle` (clamped to 180°).
    fn set_angle(&mut self, angle: u8)
        ensures
            final(self).pin_ops() == old(self).pin_ops() + pulse_ops(pulse_width_spec(angle)),
    {
        let width = pulse_width_us(angle);
        self.pulse(width);
    }
}

} // verus!
