//! Firmware parameters fixed at build time: loop timing, thresholds, ADC
//! sampling and protection limits. The values are those of the default
//! hardware variant (six L298N drivers, ACS712 current sensors).

use vstd::prelude::*;

verus! {

// ─── Main loop ───────────────────────────────────────────────────────────────

/// Length of one main-loop cycle, in ms.
pub const LOOP_MS: u32 = 20;

/// Cycles between periodic telemetry frames (~1 s).
pub const TLM_PERIOD: u8 = 50;

/// Size of the ASCII response buffer, in bytes (a full frame is ≈185 bytes).
pub const RESP_BUF: usize = 200;

// ─── Proximity sensors ───────────────────────────────────────────────────────

/// Cycles between HC-SR04 readings (100 ms).
pub const HC_READ_PERIOD: u8 = 5;

/// HC-SR04 emergency distance in mm: closer means hard stop and FAULT.
pub const HC_EMERGENCY_MM: u16 = 200;

/// HC-SR04 echo timeout in µs (objects up to ~300 mm).
pub const HC_ECHO_TIMEOUT_US: u32 = 1750;

/// VL53L0X emergency distance in mm.
pub const TOF_EMERGENCY_MM: u16 = 150;

/// HC-SR04 emergency distance while climbing, in mm.
pub const CLB_HC_EMERGENCY_MM: u16 = 60;

/// VL53L0X emergency distance while climbing, in mm.
pub const CLB_TOF_EMERGENCY_MM: u16 = 50;

/// Cycles without encoder movement that mean a stall while climbing (~3 s).
pub const CLB_STALL_THRESHOLD: u16 = 150;

// ─── Stall detection ─────────────────────────────────────────────────────────

/// Cycles without encoder movement that mean a stall (~1 s).
pub const STALL_THRESHOLD: u16 = 50;

/// Minimum commanded speed (%) at which stall detection runs.
pub const STALL_SPEED_MIN: i16 = 20;

/// Dead band of the drive: speeds with a smaller magnitude are applied as 0,
/// since they would energise a motor without overcoming static friction.
pub const MIN_MOTOR_SPEED: i16 = 15;

// ─── ADC sampling ────────────────────────────────────────────────────────────

/// Cycles between full analog readings (~500 ms).
pub const SEN_READ_PERIOD: u8 = 25;

/// Cycles between fast overcurrent checks (~60 ms).
pub const SEN_FAST_PERIOD: u8 = 3;

/// ADC samples per channel in the full reading.
pub const SEN_SAMPLES: u8 = 8;

/// ADC samples per channel in the fast check.
pub const SEN_FAST_SAMPLES: u8 = 2;

// ─── Power monitoring ────────────────────────────────────────────────────────

/// INA226 shunt resistance in mΩ.
pub const INA226_SHUNT_MOHM: u16 = 10;

// ─── Current protection ──────────────────────────────────────────────────────

/// Speed cap (%) applied to every motor while safety is `Limit`.
pub const LIMIT_SPEED_CAP: i16 = 60;

/// Largest speed change (%) per cycle in soft stop / soft start.
pub const RAMP_STEP_SOFT: i16 = 10;

/// L298N thresholds in mA: 60 %, 80 % and 100 % of 2 A continuous.
pub const OC_WARN_L298N: i32 = 1200;
pub const OC_LIMIT_L298N: i32 = 1600;
pub const OC_FAULT_L298N: i32 = 2000;

/// BTS7960 thresholds in mA (provisional, to be calibrated on the motor).
pub const OC_WARN_BTS: i32 = 8000;
pub const OC_LIMIT_BTS: i32 = 12000;
pub const OC_FAULT_BTS: i32 = 15000;

/// Which driver each motor `[FR, FL, CR, CL, RR, RL]` has; it sets the
/// motor's overcurrent thresholds and its ACS712 variant.
#[derive(Debug, Clone, Copy, PartialEq, Eq, Structural)]
pub enum DriverLayout {
    /// Six L298N drivers (the default fit).
    AllL298N,
    /// FR and FL on L298N drivers, CR, CL, RR and RL on BTS7960 drivers.
    MixedDrivers,
    /// Six BTS7960 drivers.
    AllBts7960,
}

/// Motor `i` has a BTS7960 driver in `layout`.
pub open spec fn on_bts7960(layout: DriverLayout, i: int) -> bool {
    match layout {
        DriverLayout::AllL298N => false,
        DriverLayout::MixedDrivers => i >= 2,
        DriverLayout::AllBts7960 => true,
    }
}

/// Whether motor `i` (0–5) has a BTS7960 driver.
pub fn has_bts7960(layout: DriverLayout, i: usize) -> (r: bool)
    requires
        i < 6,
    ensures
        r == on_bts7960(layout, i as int),
{
    match layout {
        DriverLayout::AllL298N => false,
        DriverLayout::MixedDrivers => i >= 2,
        DriverLayout::AllBts7960 => true,
    }
}

/// Warning, limit and fault thresholds (mA) of motor `i` in `layout`.
pub open spec fn oc_thresholds_spec(layout: DriverLayout, i: int) -> (i32, i32, i32) {
    if on_bts7960(layout, i) {
        (OC_WARN_BTS, OC_LIMIT_BTS, OC_FAULT_BTS)
    } else {
        (OC_WARN_L298N, OC_LIMIT_L298N, OC_FAULT_L298N)
    }
}

/// The overcurrent thresholds of motor `i` (0–5): those of its driver.
pub fn oc_thresholds(layout: DriverLayout, i: usize) -> (t: (i32, i32, i32))
    requires
        i < 6,
    ensures
        t == oc_thresholds_spec(layout, i as int),
{
    if has_bts7960(layout, i) {
        (OC_WARN_BTS, OC_LIMIT_BTS, OC_FAULT_BTS)
    } else {
        (OC_WARN_L298N, OC_LIMIT_L298N, OC_FAULT_L298N)
    }
}

// ─── Battery temperature protection ─────────────────────────────────────────

/// Cell temperature (°C) for each protection level.
pub const BATT_WARN_C: i32 = 45;
pub const BATT_LIMIT_C: i32 = 55;
pub const BATT_FAULT_C: i32 = 65;

// ─── Temperature plausibility ───────────────────────────────────────────────

/// Plausible range of the LM335 ambient temperature.
pub const AMBIENT_TEMP_MIN_C: i32 = -40;
pub const AMBIENT_TEMP_MAX_C: i32 = 80;

/// Ambient temperature that sends the rover to Safe Mode.
pub const AMBIENT_SAFE_C: i32 = 60;

/// Plausible range of the battery NTC temperatures.
pub const BATT_TEMP_MIN_C: i32 = -20;
pub const BATT_TEMP_MAX_C: i32 = 100;

// ─── Odometry (to be calibrated on the rover) ───────────────────────────────

/// Encoder pulses per output-shaft revolution.
pub const TICKS_PER_REV: u32 = 20;

/// Wheel radius in mm.
pub const WHEEL_RADIUS_MM: u32 = 50;

/// Track width in mm.
pub const WHEEL_BASE_MM: u32 = 280;


/// Layout law: with six L298N drivers no motor is on a BTS7960, with six
/// BTS7960 every motor is, and in the mixed fit exactly FR and FL (motors
/// 0 and 1) stay on L298N; each motor gets its own driver's thresholds:
/// 1 200 / 1 600 / 2 000 mA on an L298N, 8 000 / 12 000 / 15 000 mA on a
/// BTS7960.
pub proof fn law_layout_thresholds(i: int)
    requires
        0 <= i < 6,
    ensures
        !on_bts7960(DriverLayout::AllL298N, i),
        on_bts7960(DriverLayout::AllBts7960, i),
        on_bts7960(DriverLayout::MixedDrivers, i) == (i >= 2),
        i >= 2 ==> oc_thresholds_spec(DriverLayout::MixedDrivers, i) == (8000i32, 12000i32, 15000i32),
        i < 2 ==> oc_thresholds_spec(DriverLayout::MixedDrivers, i) == (1200i32, 1600i32, 2000i32),
        oc_thresholds_spec(DriverLayout::AllL298N, i) == (1200i32, 1600i32, 2000i32),
        oc_thresholds_spec(DriverLayout::AllBts7960, i) == (8000i32, 12000i32, 15000i32),
{
}

} // verus!
