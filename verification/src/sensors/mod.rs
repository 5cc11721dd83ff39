//! Sensors of the rover: analog conversions, serial range finders, I2C
//! devices and encoder counting.

use vstd::prelude::*;

pub mod acs712;
pub mod encoder;
pub mod hc_sr04;
pub mod ina226;
pub mod ina3221;
pub mod lm335;
pub mod mpu6050;
pub mod ntc_thermistor;
pub mod soft_i2c;
pub mod tf02;
pub mod tf_luna;
pub mod vl53l0x;

pub use crate::sensors::acs712::ACS712;
pub use crate::sensors::ina226::INA226;
pub use crate::sensors::ina3221::INA3221;
pub use crate::sensors::lm335::LM335;
pub use crate::sensors::mpu6050::MPU6050;
pub use crate::sensors::ntc_thermistor::NTCThermistor;
pub use crate::sensors::tf02::TF02;
pub use crate::sensors::tf_luna::TFLuna;
pub use crate::sensors::hc_sr04::HCSR04;
pub use crate::sensors::vl53l0x::VL53L0X;

verus! {

/// Failure of a range reading.
#[derive(Debug, Clone, Copy, PartialEq, Eq, Structural)]
pub enum SensorError {
    /// No new measurement yet; try again next cycle.
    NotReady,
    /// The sensor did not answer in time.
    Timeout,
    /// The measurement is outside the sensor's valid range.
    OutOfRange,
    /// The data received failed its integrity check.
    ChecksumError,
}

/// Common interface of the proximity and range sensors.
pub trait ProximitySensor {
    /// Distance to the nearest object, in mm.
    fn get_distance_mm(&mut self) -> Result<u16, SensorError>;
}

/// Interrupt-driven pulse counter of a wheel encoder. The counter lives
/// outside the main loop (it is advanced by interrupt handlers), hence the
/// shared receivers.
pub trait Encoder {
    /// Current count.
    fn get_counts(&self) -> i32;

    /// Sets the count to zero.
    fn reset(&self);
}

/// Returns `Some(t)` when the reading `t` lies within the plausible range
/// `[min_c, max_c]` (bounds included), `None` when it most likely comes from
/// a disconnected or failed sensor.
pub fn check_temp_c(t: i32, min_c: i32, max_c: i32) -> (r: Option<i32>)
    ensures
        r == (if min_c <= t <= max_c {
            Some(t)
        } else {
            None::<i32>
        }),
{
    if t >= min_c && t <= max_c {
        Some(t)
    } else {
        None
    }
}

} // verus!
