//! Motor control: the `Motor` and `Servo` interfaces, the six-wheel
//! differential chassis, and the models of the motor drivers.

use vstd::prelude::*;

pub mod bts7960;
pub mod l298n;
pub mod motor_with_encoder;
pub mod servo;

pub use crate::motor_control::motor_with_encoder::MotorWithEncoder;

use crate::config::MIN_MOTOR_SPEED;

verus! {

/// Common interface of every DC motor driver.
///
/// `speed()` is the speed (−100 … 100 %) the motor is currently commanded
/// to run at; 0 once stopped or braked. `calls()` is the record of the
/// driver operations the motor has carried out, oldest first: every
/// operation adds exactly its own call. `has_enable_lines()` tells a driver
/// with enable lines (which `disable` puts in Hi-Z after stopping) from an
/// always-enabled one.
///
/// The three spec functions have default bodies only so that drivers
/// written outside this library still compile; such a driver is not held
/// to the contracts below, while every driver of this library defines them
/// and is verified against them. The operations have no default bodies: a
/// default would be verified for every driver at once and could not record
/// the call of the driver it runs for.
pub trait Motor {
    open spec fn speed(&self) -> i16 {
        0
    }

    open spec fn calls(&self) -> Seq<MotorCall> {
        Seq::empty()
    }

    open spec fn has_enable_lines(&self) -> bool {
        false
    }

    /// Sets the speed: −100 (full reverse) … 0 (stopped) … 100 (full forward).
    fn set_speed(&mut self, speed: i16)
        ensures
            final(self).speed() == speed,
            final(self).calls() == old(self).calls().push(MotorCall::SetSpeed(speed)),
            final(self).has_enable_lines() == old(self).has_enable_lines(),
    ;

    /// Stops the motor (coast).
    fn stop(&mut self)
        ensures
            final(self).speed() == 0,
            final(self).calls() == old(self).calls().push(MotorCall::Stop),
            final(self).has_enable_lines() == old(self).has_enable_lines(),
    ;

    /// Active brake; a driver without a hardware brake stops.
    fn brake(&mut self)
        ensures
            final(self).speed() == 0,
            final(self).calls() == old(self).calls().push(MotorCall::Brake),
            final(self).has_enable_lines() == old(self).has_enable_lines(),
    ;

    /// Enables the driver; nothing changes on an always-enabled one.
    fn enable(&mut self)
        ensures
            final(self).speed() == old(self).speed(),
            final(self).calls() == old(self).calls().push(MotorCall::Enable),
            final(self).has_enable_lines() == old(self).has_enable_lines(),
    ;

    /// Disables the driver: one with enable lines is stopped first and its
    /// outputs go to Hi-Z; nothing changes on an always-enabled one.
    fn disable(&mut self)
        ensures
            final(self).speed() == (if old(self).has_enable_lines() {
                0
            } else {
                old(self).speed()
            }),
            final(self).calls() == old(self).calls().push(MotorCall::Disable),
            final(self).has_enable_lines() == old(self).has_enable_lines(),
    ;
}

/// Interface of angular-position servos.
pub trait Servo {
    /// Moves the servo to `angle` degrees (0–180).
    fn set_angle(&mut self, angle: u8);
}

/// Speed applied to a side for a commanded speed: magnitudes below
/// `MIN_MOTOR_SPEED` are applied as 0.
pub open spec fn dead_band(speed: i16) -> i16 {
    if -MIN_MOTOR_SPEED < speed < MIN_MOTOR_SPEED {
        0
    } else {
        speed
    }
}

/// A call on a motor's driver.
#[derive(Debug, Clone, Copy, PartialEq, Eq, Structural)]
pub enum MotorCall {
    SetSpeed(i16),
    Stop,
    Brake,
    Enable,
    Disable,
}

/// `after` is `before` with exactly the call `c` more on its record.
pub open spec fn called_once<M: Motor>(before: M, after: M, c: MotorCall) -> bool {
    after.calls() == before.calls().push(c)
}

/// Speed after one `disable`: 0 for a driver with enable lines,
/// unchanged otherwise.
pub open spec fn disabled_speed<M: Motor>(before: M, after: M) -> bool {
    after.speed() == (if before.has_enable_lines() {
        0
    } else {
        before.speed()
    })
}

/// Six-wheel differential chassis: FR, FL, CR, CL, RR, RL.
pub struct SixWheelRover<M1, M2, M3, M4, M5, M6> {
    pub frontal_right: M1,
    pub frontal_left: M2,
    pub center_right: M3,
    pub center_left: M4,
    pub rear_right: M5,
    pub rear_left: M6,
}

impl<M1, M2, M3, M4, M5, M6> SixWheelRover<M1, M2, M3, M4, M5, M6> where
    M1: Motor,
    M2: Motor,
    M3: Motor,
    M4: Motor,
    M5: Motor,
    M6: Motor,
 {
    /// The three left motors all run at `l` and the three right ones at `r`.
    pub open spec fn sides_at(self, l: i16, r: i16) -> bool {
        &&& self.frontal_left.speed() == l
        &&& self.center_left.speed() == l
        &&& self.rear_left.speed() == l
        &&& self.frontal_right.speed() == r
        &&& self.center_right.speed() == r
        &&& self.rear_right.speed() == r
    }

    /// Each left motor got exactly the call `l` and each right motor exactly
    /// the call `r`, relative to `before`.
    pub open spec fn sides_called(self, before: Self, l: MotorCall, r: MotorCall) -> bool {
        &&& called_once(before.frontal_left, self.frontal_left, l)
        &&& called_once(before.center_left, self.center_left, l)
        &&& called_once(before.rear_left, self.rear_left, l)
        &&& called_once(before.frontal_right, self.frontal_right, r)
        &&& called_once(before.center_right, self.center_right, r)
        &&& called_once(before.rear_right, self.rear_right, r)
    }

    /// Builds the chassis from its six configured motors.
    pub fn new(fr: M1, fl: M2, cr: M3, cl: M4, rr: M5, rl: M6) -> (r: Self)
        ensures
            r.frontal_right == fr,
            r.frontal_left == fl,
            r.center_right == cr,
            r.center_left == cl,
            r.rear_right == rr,
            r.rear_left == rl,
    {
        SixWheelRover {
            frontal_right: fr,
            frontal_left: fl,
            center_right: cr,
            center_left: cl,
            rear_right: rr,
            rear_left: rl,
        }
    }

    /// Tank drive: `left_speed` on the three left motors and `right_speed`
    /// on the three right ones, after the dead band.
    pub fn set_speeds(&mut self, left_speed: i16, right_speed: i16)
        ensures
            final(self).sides_at(dead_band(left_speed), dead_band(right_speed)),
            final(self).sides_called(
                *old(self),
                MotorCall::SetSpeed(dead_band(left_speed)),
                MotorCall::SetSpeed(dead_band(right_speed)),
            ),
    {
        let l = if -MIN_MOTOR_SPEED < left_speed && left_speed < MIN_MOTOR_SPEED {
            0
        } else {
            left_speed
        };
        let r = if -MIN_MOTOR_SPEED < right_speed && right_speed < MIN_MOTOR_SPEED {
            0
        } else {
            right_speed
        };
        self.frontal_left.set_speed(l);
        self.center_left.set_speed(l);
        self.rear_left.set_speed(l);
        self.frontal_right.set_speed(r);
        self.center_right.set_speed(r);
        self.rear_right.set_speed(r);
    }

    /// Stops all six motors (coast).
    pub fn stop(&mut self)
        ensures
            final(self).sides_at(0, 0),
            final(self).sides_called(*old(self), MotorCall::Stop, MotorCall::Stop),
    {
        self.frontal_left.stop();
        self.center_left.stop();
        self.rear_left.stop();
        self.frontal_right.stop();
        self.center_right.stop();
        self.rear_right.stop();
    }

    /// Active brake on all six motors.
    pub fn brake_all(&mut self)
        ensures
            final(self).sides_at(0, 0),
            final(self).sides_called(*old(self), MotorCall::Brake, MotorCall::Brake),
    {
        self.frontal_left.brake();
        self.center_left.brake();
        self.rear_left.brake();
        self.frontal_right.brake();
        self.center_right.brake();
        self.rear_right.brake();
    }

    /// Enables the six drivers; commanded speeds are unchanged.
    pub fn enable_all(&mut self)
        ensures
            final(self).sides_called(*old(self), MotorCall::Enable, MotorCall::Enable),
            final(self).frontal_left.speed() == old(self).frontal_left.speed(),
            final(self).center_left.speed() == old(self).center_left.speed(),
            final(self).rear_left.speed() == old(self).rear_left.speed(),
            final(self).frontal_right.speed() == old(self).frontal_right.speed(),
            final(self).center_right.speed() == old(self).center_right.speed(),
            final(self).rear_right.speed() == old(self).rear_right.speed(),
    {
        self.frontal_left.enable();
        self.center_left.enable();
        self.rear_left.enable();
        self.frontal_right.enable();
        self.center_right.enable();
        self.rear_right.enable();
    }

    /// Disables the six drivers; a driver with enable lines is stopped and
    /// goes to Hi-Z, an always-enabled one keeps its speed.
    pub fn disable_all(&mut self)
        ensures
            final(self).sides_called(*old(self), MotorCall::Disable, MotorCall::Disable),
            disabled_speed(old(self).frontal_left, final(self).frontal_left),
            disabled_speed(old(self).center_left, final(self).center_left),
            disabled_speed(old(self).rear_left, final(self).rear_left),
            disabled_speed(old(self).frontal_right, final(self).frontal_right),
            disabled_speed(old(self).center_right, final(self).center_right),
            disabled_speed(old(self).rear_right, final(self).rear_right),
    {
        self.frontal_left.disable();
        self.center_left.disable();
        self.rear_left.disable();
        self.frontal_right.disable();
        self.center_right.disable();
        self.rear_right.disable();
    }
}

} // verus!
