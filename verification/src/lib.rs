//! Low-level controller of a six-wheel rover: master state machine, drive
//! ramp, motor and traction control, sensor conversions and device drivers.

use vstd::prelude::*;

pub mod command_interface;
pub mod config;
pub mod controller;
pub mod motor_control;
pub mod ramp;
pub mod relay;
pub mod sensors;
pub mod state_machine;
pub mod supervisor;

verus! {
} // verus!
