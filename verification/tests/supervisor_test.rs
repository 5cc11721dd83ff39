use rover_low_level_controller::config::{DriverLayout, OC_FAULT_L298N, STALL_THRESHOLD};
use rover_low_level_controller::state_machine::{
    format_response, DriveOutput, Response, RoverState, SafetyState, SensorFrame,
    MAX_RESPONSE_LEN,
};
use rover_low_level_controller::supervisor::{
    adc_mean, after_sensor_read, applied_drive, battery_level, current_level, hex_digit,
    overcurrent_mask, tof_emergency, ultrasonic_emergency, wheel_speeds, worse, worst_level,
    mirror6, LoopSchedule, StallMonitor,
};

fn drive(left: i16, right: i16) -> DriveOutput {
    DriveOutput { left, right }
}

#[test]
fn fault_and_standby_stop_the_chassis() {
    assert_eq!(applied_drive(RoverState::Fault, SafetyState::Normal, drive(80, 80)), None);
    assert_eq!(applied_drive(RoverState::Standby, SafetyState::Normal, drive(0, 0)), None);
}

#[test]
fn limit_caps_the_speeds() {
    assert_eq!(
        applied_drive(RoverState::Explore, SafetyState::Limit, drive(99, -99)),
        Some((60, -60))
    );
    assert_eq!(
        applied_drive(RoverState::Explore, SafetyState::Limit, drive(40, -20)),
        Some((40, -20))
    );
    assert_eq!(
        applied_drive(RoverState::Explore, SafetyState::Warn, drive(99, -99)),
        Some((99, -99))
    );
}

#[test]
fn wheel_speeds_follow_the_sides() {
    assert_eq!(wheel_speeds(drive(10, 20)), [20, 10, 20, 10, 20, 10]);
}

#[test]
fn stall_after_threshold_cycles_without_progress() {
    let mut m = StallMonitor::new();
    let speeds = wheel_speeds(drive(80, 80));
    let counts = [5, 5, 5, 5, 5, 5];
    // First cycle: counts change from 0 to 5, no stall time.
    assert_eq!(m.update(speeds, counts), 0);
    for _ in 0..STALL_THRESHOLD {
        assert_eq!(m.update(speeds, counts), 0);
    }
    assert_eq!(m.update(speeds, counts), 0b11_1111);
}

#[test]
fn stall_mask_reports_front_right_in_bit_five() {
    let mut m = StallMonitor::new();
    // Only FR (motor 0) is commanded; only FR can stall.
    let speeds = [80, 0, 0, 0, 0, 0];
    let counts = [0; 6];
    for _ in 0..STALL_THRESHOLD {
        assert_eq!(m.update(speeds, counts), 0);
    }
    assert_eq!(m.update(speeds, counts), 0b10_0000);
    // RL (motor 5) alone shows in bit 0.
    let mut m = StallMonitor::new();
    for _ in 0..STALL_THRESHOLD {
        m.update([0, 0, 0, 0, 0, -80], counts);
    }
    assert_eq!(m.update([0, 0, 0, 0, 0, -80], counts), 0b00_0001);
}

#[test]
fn mirror_reverses_the_six_bits() {
    assert_eq!(mirror6(0b00_0001), 0b10_0000);
    assert_eq!(mirror6(0b00_0110), 0b01_1000);
    assert_eq!(mirror6(0b11_1111), 0b11_1111);
}

#[test]
fn slow_or_moving_motors_never_stall() {
    let mut m = StallMonitor::new();
    for k in 0..200 {
        let speeds = [10, 10, 80, 80, -20, 20];
        let counts = [0, 0, k, k, 0, 0];
        assert_eq!(m.update(speeds, counts), 0);
    }
}

#[test]
fn current_levels_are_strict_thresholds() {
    assert_eq!(current_level(1200, 1200, 1600, 2000), SafetyState::Normal);
    assert_eq!(current_level(1201, 1200, 1600, 2000), SafetyState::Warn);
    assert_eq!(current_level(-1601, 1200, 1600, 2000), SafetyState::Limit);
    assert_eq!(current_level(2001, 1200, 1600, 2000), SafetyState::FaultStall);
    assert_eq!(current_level(i32::MIN, 1200, 1600, 2000), SafetyState::FaultStall);
}

#[test]
fn battery_levels() {
    assert_eq!(battery_level(45), SafetyState::Normal);
    assert_eq!(battery_level(46), SafetyState::Warn);
    assert_eq!(battery_level(56), SafetyState::Limit);
    assert_eq!(battery_level(66), SafetyState::FaultStall);
}

#[test]
fn worst_of_currents_and_temperatures() {
    assert_eq!(worse(SafetyState::Warn, SafetyState::Limit), SafetyState::Limit);
    assert_eq!(worse(SafetyState::FaultStall, SafetyState::Normal), SafetyState::FaultStall);
    assert_eq!(worst_level([0; 6], [25; 6], DriverLayout::AllL298N), SafetyState::Normal);
    assert_eq!(worst_level([0, 1300, 0, 0, 0, 0], [25; 6], DriverLayout::AllL298N), SafetyState::Warn);
    assert_eq!(worst_level([0, 1300, 0, 0, 0, 0], [25, 25, 60, 25, 25, 25], DriverLayout::AllL298N), SafetyState::Limit);
    assert_eq!(worst_level([0, 0, 0, 0, 0, -2500], [25; 6], DriverLayout::AllL298N), SafetyState::FaultStall);
}

#[test]
fn overcurrent_mask_marks_faulting_motors() {
    let over = OC_FAULT_L298N + 1;
    assert_eq!(overcurrent_mask([0; 6], DriverLayout::AllL298N), 0);
    assert_eq!(overcurrent_mask([over, 0, -over, 0, 0, over], DriverLayout::AllL298N), 0b10_0101);
}

#[test]
fn thresholds_follow_each_motor_driver() {
    // FR/FL on L298N, the other four on BTS7960.
    let mixed = DriverLayout::MixedDrivers;
    assert_eq!(worst_level([0, 0, 2500, 0, 0, 0], [25; 6], mixed), SafetyState::Normal);
    assert_eq!(worst_level([0, 0, 9000, 0, 0, 0], [25; 6], mixed), SafetyState::Warn);
    assert_eq!(worst_level([0, 2500, 0, 0, 0, 0], [25; 6], mixed), SafetyState::FaultStall);
    assert_eq!(overcurrent_mask([2001, 0, 15001, 0, 0, 14000], mixed), 0b101);
    assert_eq!(overcurrent_mask([2001; 6], DriverLayout::AllBts7960), 0);
    assert_eq!(overcurrent_mask([15001; 6], DriverLayout::AllBts7960), 0b11_1111);
}

#[test]
fn emergency_distances() {
    assert!(ultrasonic_emergency(199));
    assert!(!ultrasonic_emergency(200));
    assert!(tof_emergency(149));
    assert!(!tof_emergency(150));
}

#[test]
fn resync_and_report_after_sensor_read() {
    assert_eq!(after_sensor_read(false, SafetyState::Normal, SafetyState::Normal), (false, false));
    assert_eq!(after_sensor_read(false, SafetyState::Warn, SafetyState::Normal), (true, false));
    assert_eq!(after_sensor_read(false, SafetyState::Normal, SafetyState::Limit), (true, true));
    assert_eq!(after_sensor_read(true, SafetyState::FaultStall, SafetyState::FaultStall), (true, true));
}

#[test]
fn schedule_periods() {
    let mut s = LoopSchedule::new();
    let due: Vec<bool> = (0..10).map(|_| s.range_due()).collect();
    assert_eq!(due, vec![false, false, false, false, true, false, false, false, false, true]);
    let mut t = LoopSchedule::new();
    let tlm: usize = (0..100).filter(|_| t.telemetry_due()).count();
    assert_eq!(tlm, 2);
    let mut f = LoopSchedule::new();
    assert!(!f.fast_check_due(RoverState::Explore));
    assert!(!f.fast_check_due(RoverState::Explore));
    assert!(f.fast_check_due(RoverState::Explore));
    assert!(!f.fast_check_due(RoverState::Fault));
    assert!(!f.fast_check_due(RoverState::Fault));
    assert!(!f.fast_check_due(RoverState::Fault));
    assert!(f.fast_check_due(RoverState::Explore));
    let mut c = LoopSchedule::new();
    assert_eq!(c.end_cycle(), 20);
    assert_eq!(c.end_cycle(), 40);
}

#[test]
fn adc_mean_and_hex() {
    assert_eq!(adc_mean(8 * 512 + 7, 8), 512);
    assert_eq!(hex_digit(9), b'9');
    assert_eq!(hex_digit(10), b'a');
    assert_eq!(hex_digit(15), b'f');
}

#[test]
fn longest_telemetry_frame_fits() {
    let mut s = SensorFrame::zero();
    s.tick_ms = u32::MAX;
    s.batt_mv = u16::MAX;
    s.batt_ma = i32::MIN;
    s.currents = [i32::MIN; 6];
    s.temp_c = i32::MIN;
    s.batt_temps = [i32::MIN; 6];
    s.dist_mm = u16::MAX;
    s.enc_left = i32::MIN;
    s.enc_right = i32::MIN;
    let mut buf = [0u8; MAX_RESPONSE_LEN];
    let resp = Response::TelemetryFrame { safety: SafetyState::Normal, stall_mask: 0x3F, sensors: s };
    let out = format_response(resp, &mut buf);
    assert!(out.len() <= MAX_RESPONSE_LEN);
    assert!(out.starts_with(b"TLM:NORMAL:111111:4294967295ms:65535mV:-2147483648mA:"));
    assert!(out.ends_with(b"C:65535mm:-2147483648:-2147483648\n"));
}
