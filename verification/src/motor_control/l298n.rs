//! L298N H-bridge driver, as the levels and duty cycle it puts on its pins
//! (IN1, IN2 and the PWM enable pin), and the plain six-wheel chassis that
//! the main firmware drives with it.

use vstd::prelude::*;

use crate::motor_control::{called_once, Motor, MotorCall};

verus! {

/// Magnitude of a speed, as an unsigned number.
pub open spec fn speed_magnitude(speed: i16) -> nat {
    if speed < 0 {
        (-speed) as nat
    } else {
        speed as nat
    }
}

/// PWM duty for a speed: `|speed| × max_duty / 100`, kept to its low 8 bits
/// as the 8-bit compare register does.
pub open spec fn duty_spec(speed: i16, max_duty: u32) -> u8 {
    ((speed_magnitude(speed) * max_duty) / 100) as u8
}

/// Duty cycle written to the PWM pin for `speed` with a timer whose full
/// scale is `max_duty`.
pub fn duty_for_speed(speed: i16, max_duty: u32) -> (d: u8)
    requires
        max_duty <= 131071,
    ensures
        d == duty_spec(speed, max_duty),
{
    let magnitude: u32 = if speed < 0 {
        (-(speed as i32)) as u32
    } else {
        speed as u32
    };
    assert(magnitude * max_duty <= 32768 * 131071) by (nonlinear_arith)
        requires
            magnitude <= 32768,
            max_duty <= 131071,
    ;
    ((magnitude * max_duty) / 100) as u8
}

/// Logical direction of the L298N: zero counts as forward; `inverted`
/// swaps the sense for motors mounted the other way round.
pub open spec fn l298n_forward_spec(speed: i16, inverted: bool) -> bool {
    if inverted {
        speed < 0
    } else {
        speed >= 0
    }
}

pub fn l298n_is_forward(speed: i16, inverted: bool) -> (r: bool)
    ensures
        r == l298n_forward_spec(speed, inverted),
{
    if inverted {
        speed < 0
    } else {
        speed >= 0
    }
}

/// Levels of IN1 / IN2 and the PWM duty of one L298N channel.
#[derive(Debug, PartialEq, Eq, Clone, Copy, Structural)]
pub struct HBridgePins {
    pub in1: bool,
    pub in2: bool,
    pub duty: u8,
}

/// The IN1 / IN2 pins and the PWM compare register of an L298N channel,
/// as the board provides them.
pub trait HBridgeOutput {
    /// Puts `pins` on the channel.
    fn apply(&mut self, pins: HBridgePins);
}

/// One motor on an L298N channel; every change of its pin state is applied
/// to the channel's output.
pub struct L298NMotor<P> {
    out: P,
    pins: HBridgePins,
    max_duty: u8,
    inverted: bool,
    commanded: Ghost<i16>,
    history: Ghost<Seq<MotorCall>>,
}

impl<P: HBridgeOutput> View for L298NMotor<P> {
    type V = HBridgePins;

    closed spec fn view(&self) -> HBridgePins {
        self.pins
    }
}

impl<P: HBridgeOutput> L298NMotor<P> {
    pub closed spec fn max_duty_spec(&self) -> u8 {
        self.max_duty
    }

    pub closed spec fn is_inverted(&self) -> bool {
        self.inverted
    }

    /// A stopped channel on `out`, whose PWM timer has full scale
    /// `max_duty`.
    pub fn new(max_duty: u8, inverted: bool, out: P) -> (m: Self)
        ensures
            m@ == (HBridgePins { in1: false, in2: false, duty: 0 }),
            m.max_duty_spec() == max_duty,
            m.is_inverted() == inverted,
            m.speed() == 0,
            m.calls() == Seq::<MotorCall>::empty(),
    {
        L298NMotor {
            out,
            pins: HBridgePins { in1: false, in2: false, duty: 0 },
            max_duty,
            inverted,
            commanded: Ghost(0),
            history: Ghost(Seq::empty()),
        }
    }

    /// The one place where the pin state changes: `pins` becomes the state
    /// and is applied to the output, for the commanded speed `speed`.
    fn put(&mut self, pins: HBridgePins, speed: Ghost<i16>)
        ensures
            final(self)@ == pins,
            final(self).max_duty_spec() == old(self).max_duty_spec(),
            final(self).is_inverted() == old(self).is_inverted(),
            final(self).speed() == speed@,
            final(self).calls() == old(self).calls(),
    {
        self.pins = pins;
        self.commanded = speed;
        self.out.apply(pins);
    }

    fn record(&mut self, call: MotorCall)
        ensures
            final(self)@ == old(self)@,
            final(self).max_duty_spec() == old(self).max_duty_spec(),
            final(self).is_inverted() == old(self).is_inverted(),
            final(self).speed() == old(self).speed(),
            final(self).calls() == old(self).calls().push(call),
    {
        self.history = Ghost(self.history@.push(call));
    }

    /// The pin levels to apply.
    pub fn pins(&self) -> (p: HBridgePins)
        ensures
            p == self@,
    {
        self.pins
    }
}

impl<P: HBridgeOutput> Motor for L298NMotor<P> {
    closed spec fn speed(&self) -> i16 {
        self.commanded@
    }

    closed spec fn calls(&self) -> Seq<MotorCall> {
        self.history@
    }

    /// The L298N has no enable lines: its enable pin carries the PWM.
    closed spec fn has_enable_lines(&self) -> bool {
        false
    }

    /// Forward: IN1 high, IN2 low; reverse: IN1 low, IN2 high; the duty
    /// follows the magnitude. Speed 0 stops the channel.
    fn set_speed(&mut self, speed: i16)
        ensures
            final(self).max_duty_spec() == old(self).max_duty_spec(),
            final(self).is_inverted() == old(self).is_inverted(),
            speed == 0 ==> final(self)@ == (HBridgePins { in1: false, in2: false, duty: 0 }),
            speed != 0 ==> final(self)@ == (HBridgePins {
                in1: l298n_forward_spec(speed, old(self).is_inverted()),
                in2: !l298n_forward_spec(speed, old(self).is_inverted()),
                duty: duty_spec(speed, old(self).max_duty_spec() as u32),
            }),
    {
        if speed == 0 {
            self.put(HBridgePins { in1: false, in2: false, duty: 0 }, Ghost(0));
        } else {
            let forward = l298n_is_forward(speed, self.inverted);
            let duty = duty_for_speed(speed, self.max_duty as u32);
            self.put(HBridgePins { in1: forward, in2: !forward, duty }, Ghost(speed));
        }
        self.record(MotorCall::SetSpeed(speed));
    }

    /// Both inputs low and duty 0.
    fn stop(&mut self)
        ensures
            final(self)@ == (HBridgePins { in1: false, in2: false, duty: 0 }),
            final(self).max_duty_spec() == old(self).max_duty_spec(),
            final(self).is_inverted() == old(self).is_inverted(),
    {
        self.put(HBridgePins { in1: false, in2: false, duty: 0 }, Ghost(0));
        self.record(MotorCall::Stop);
    }

    /// No hardware brake: the same pin state as `stop`.
    fn brake(&mut self)
        ensures
            final(self)@ == (HBridgePins { in1: false, in2: false, duty: 0 }),
            final(self).max_duty_spec() == old(self).max_duty_spec(),
            final(self).is_inverted() == old(self).is_inverted(),
    {
        self.put(HBridgePins { in1: false, in2: false, duty: 0 }, Ghost(0));
        self.record(MotorCall::Brake);
    }

    /// Always enabled: the pins are not touched.
    fn enable(&mut self)
        ensures
            final(self)@ == old(self)@,
            final(self).max_duty_spec() == old(self).max_duty_spec(),
            final(self).is_inverted() == old(self).is_inverted(),
    {
        self.record(MotorCall::Enable);
    }

    /// Always enabled: the pins are not touched.
    fn disable(&mut self)
        ensures
            final(self)@ == old(self)@,
            final(self).max_duty_spec() == old(self).max_duty_spec(),
            final(self).is_inverted() == old(self).is_inverted(),
    {
        self.record(MotorCall::Disable);
    }
}

/// Six-wheel chassis driven without dead band: FR, FL, CR, CL, RR, RL.
pub struct SixWheelRover<M1, M2, M3, M4, M5, M6> {
    pub frontal_right: M1,
    pub frontal_left: M2,
    pub center_right: M3,
    pub center_left: M4,
    pub rear_right: M5,
    pub rear_left: M6,
}

impl<M1, M2, M3, M4, M5, M6> SixWheelRover<M1, M2, M3, M4, M5, M6> where
    M1: Motor,
    M2: Motor,
    M3: Motor,
    M4: Motor,
    M5: Motor,
    M6: Motor,
 {
    /// The three left motors all run at `l` and the three right ones at `r`.
    pub open spec fn sides_at(self, l: i16, r: i16) -> bool {
        &&& self.frontal_left.speed() == l
        &&& self.center_left.speed() == l
        &&& self.rear_left.speed() == l
        &&& self.frontal_right.speed() == r
        &&& self.center_right.speed() == r
        &&& self.rear_right.speed() == r
    }

    /// Each left motor got exactly the call `l` and each right motor exactly
    /// the call `r`, relative to `before`.
    pub open spec fn sides_called(self, before: Self, l: MotorCall, r: MotorCall) -> bool {
        &&& called_once(before.frontal_left, self.frontal_left, l)
        &&& called_once(before.center_left, self.center_left, l)
        &&& called_once(before.rear_left, self.rear_left, l)
        &&& called_once(before.frontal_right, self.frontal_right, r)
        &&& called_once(before.center_right, self.center_right, r)
        &&& called_once(before.rear_right, self.rear_right, r)
    }

    pub fn new(fr: M1, fl: M2, cr: M3, cl: M4, rr: M5, rl: M6) -> (r: Self)
        ensures
            r.frontal_right == fr,
            r.frontal_left == fl,
            r.center_right == cr,
            r.center_left == cl,
            r.rear_right == rr,
            r.rear_left == rl,
    {
        SixWheelRover {
            frontal_right: fr,
            frontal_left: fl,
            center_right: cr,
            center_left: cl,
            rear_right: rr,
            rear_left: rl,
        }
    }

    /// `left_speed` on the three left motors, `right_speed` on the right ones.
    pub fn set_speeds(&mut self, left_speed: i16, right_speed: i16)
        ensures
            final(self).sides_at(left_speed, right_speed),
            final(self).sides_called(
                *old(self),
                MotorCall::SetSpeed(left_speed),
                MotorCall::SetSpeed(right_speed),
            ),
    {
        self.frontal_left.set_speed(left_speed);
        self.center_left.set_speed(left_speed);
        self.rear_left.set_speed(left_speed);
        self.frontal_right.set_speed(right_speed);
        self.center_right.set_speed(right_speed);
        self.rear_right.set_speed(right_speed);
    }

    /// Stops all six motors.
    pub fn stop(&mut self)
        ensures
            final(self).sides_at(0, 0),
            final(self).sides_called(*old(self), MotorCall::Stop, MotorCall::Stop),
    {
        self.frontal_left.stop();
        self.center_left.stop();
        self.rear_left.stop();
        self.frontal_right.stop();
        self.center_right.stop();
        self.rear_right.stop();
    }
}


/// Duty law: the PWM duty is proportional to the speed's magnitude,
/// `|speed| × max_duty / 100`, for every speed within ±100 % and every
/// full scale; so on an 8-bit timer (full scale 255) any speed below full
/// magnitude gets less than full duty, and a faster speed never gets less.
pub proof fn law_duty_proportional(speed: i16, max_duty: u32, faster: i16)
    requires
        -100 <= speed <= 100,
        -100 <= faster <= 100,
        max_duty <= 255,
    ensures
        duty_spec(speed, max_duty) as int == (if speed < 0 {
            -speed
        } else {
            speed as int
        }) * max_duty / 100,
        max_duty == 255 && -100 < speed < 100 ==> duty_spec(speed, max_duty) < 255,
        max_duty == 255 && (speed == 100 || speed == -100) ==> duty_spec(speed, max_duty) == 255,
        (if speed < 0 {
            -speed
        } else {
            speed as int
        }) <= (if faster < 0 {
            -faster
        } else {
            faster as int
        }) ==> duty_spec(speed, max_duty) <= duty_spec(faster, max_duty),
{
    let a: int = if speed < 0 {
        -speed
    } else {
        speed as int
    };
    let b: int = if faster < 0 {
        -faster
    } else {
        faster as int
    };
    let m = max_duty as int;
    assert(0 <= a * m <= 100 * 255) by (nonlinear_arith)
        requires
            0 <= a <= 100,
            0 <= m <= 255,
    ;
    assert(0 <= b * m <= 100 * 255) by (nonlinear_arith)
        requires
            0 <= b <= 100,
            0 <= m <= 255,
    ;
    assert(a * m / 100 <= 255) by (nonlinear_arith)
        requires
            0 <= a * m <= 25500,
    ;
    assert(b * m / 100 <= 255) by (nonlinear_arith)
        requires
            0 <= b * m <= 25500,
    ;
    assert(a <= b ==> a * m / 100 <= b * m / 100) by (nonlinear_arith)
        requires
            0 <= a,
            0 <= m,
    ;
    assert(m == 255 && a < 100 ==> a * m / 100 < 255) by (nonlinear_arith)
        requires
            0 <= a,
    ;
}


/// Direction law of the L298N: the normal mounting drives IN1 (forward)
/// for every speed from 0 up and IN2 for negative speeds; the inverted
/// mounting swaps the sense of every non-zero speed.
pub proof fn law_l298n_direction(speed: i16)
    ensures
        l298n_forward_spec(speed, false) == (speed >= 0),
        speed != 0 ==> l298n_forward_spec(speed, true) == !l298n_forward_spec(speed, false),
{
}

} // verus!
