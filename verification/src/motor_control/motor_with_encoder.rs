//! A motor paired with an encoder; behaves as a `Motor` and adds the
//! encoder readings.

use vstd::prelude::*;

use crate::motor_control::{Motor, MotorCall};
use crate::sensors::Encoder;

verus! {

/// DC motor with its encoder. The encoder is `'static` because it lives in
/// a global shared with interrupt handlers.
pub struct MotorWithEncoder<M, E: 'static> {
    motor: M,
    encoder: &'static E,
    last_counts: i32,
    encoder_log: Ghost<Seq<EncoderEvent>>,
}

/// An operation on the encoder.
#[derive(Debug, Clone, Copy, PartialEq, Eq, Structural)]
pub enum EncoderEvent {
    /// A reading, with the count it gave.
    Read(i32),
    /// The counter was set to zero.
    Reset,
}

impl<M: Motor, E: Encoder> MotorWithEncoder<M, E> {
    /// Encoder reading at the last `delta_counts` (0 after `new` / reset).
    pub closed spec fn last_counts(&self) -> i32 {
        self.last_counts
    }

    /// Operations made on the encoder by `delta_counts` and
    /// `reset_encoder`, oldest first.
    pub closed spec fn encoder_log(&self) -> Seq<EncoderEvent> {
        self.encoder_log@
    }

    /// The motor inside.
    pub closed spec fn motor(&self) -> M {
        self.motor
    }

    pub fn new(motor: M, encoder: &'static E) -> (r: Self)
        ensures
            r.last_counts() == 0,
            r.motor() == motor,
            r.encoder_log() == Seq::<EncoderEvent>::empty(),
    {
        MotorWithEncoder { motor, encoder, last_counts: 0, encoder_log: Ghost(Seq::empty()) }
    }

    /// Pulses counted since start or since the last `reset_encoder` (the
    /// value comes from the interrupt-driven counter).
    pub fn counts(&self) -> i32 {
        self.encoder.get_counts()
    }

    /// Pulses counted since the previous call: takes one encoder reading,
    /// which becomes the reference, and returns it minus the previous
    /// reference, modulo 2³².
    pub fn delta_counts(&mut self) -> (d: i32)
        ensures
            final(self).encoder_log() == old(self).encoder_log().push(
                EncoderEvent::Read(final(self).last_counts()),
            ),
            d == final(self).last_counts().wrapping_sub(old(self).last_counts()),
            final(self).motor() == old(self).motor(),
    {
        let now = self.encoder.get_counts();
        let delta = now.wrapping_sub(self.last_counts);
        self.last_counts = now;
        self.encoder_log = Ghost(self.encoder_log@.push(EncoderEvent::Read(now)));
        delta
    }

    /// Resets the encoder counter and the delta reference.
    pub fn reset_encoder(&mut self)
        ensures
            final(self).last_counts() == 0,
            final(self).motor() == old(self).motor(),
            final(self).encoder_log() == old(self).encoder_log().push(EncoderEvent::Reset),
    {
        self.encoder.reset();
        self.last_counts = 0;
        self.encoder_log = Ghost(self.encoder_log@.push(EncoderEvent::Reset));
    }
}

impl<M: Motor, E: Encoder> Motor for MotorWithEncoder<M, E> {
    closed spec fn speed(&self) -> i16 {
        self.motor.speed()
    }

    closed spec fn calls(&self) -> Seq<MotorCall> {
        self.motor.calls()
    }

    closed spec fn has_enable_lines(&self) -> bool {
        self.motor.has_enable_lines()
    }

    fn set_speed(&mut self, speed: i16) {
        self.motor.set_speed(speed);
    }

    fn stop(&mut self) {
        self.motor.stop();
    }

    fn brake(&mut self) {
        self.motor.brake();
    }

    fn enable(&mut self) {
        self.motor.enable();
    }

    fn disable(&mut self) {
        self.motor.disable();
    }
}

} // verus!
