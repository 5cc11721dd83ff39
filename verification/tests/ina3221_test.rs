use rover_low_level_controller::sensors::soft_i2c::I2cLines;
use rover_low_level_controller::sensors::INA3221;

/// Bus lines that are never driven: the conversion needs no bus.
#[derive(Default)]
struct IdleLines;

impl I2cLines for IdleLines {
    fn sda_low(&mut self) {}
    fn sda_release(&mut self) {}
    fn scl_low(&mut self) {}
    fn scl_release(&mut self) {}
    fn sda_is_high(&mut self) -> bool {
        true
    }
    fn scl_is_high(&mut self) -> bool {
        true
    }
    fn half_period(&mut self) {}
}

type Monitor = INA3221<IdleLines>;

#[test]
fn raw_to_mv_zero() {
    assert_eq!(Monitor::raw_to_mv(0x0000), 0);
}

#[test]
fn raw_to_mv_lsb_8mv() {
    // Bit 3 set: 8 mV, the bus-voltage LSB.
    assert_eq!(Monitor::raw_to_mv(0x0008), 8);
}

#[test]
fn raw_to_mv_strips_reserved_bits() {
    // Bits 2..0 are ignored even when they hold garbage.
    assert_eq!(Monitor::raw_to_mv(0x0007), 0);
    assert_eq!(Monitor::raw_to_mv(0x000F), 0x0008);
}

#[test]
fn raw_to_mv_typical_12v_bank() {
    // 12 000 mV = 0x2EE0.
    assert_eq!(Monitor::raw_to_mv(0x2EE0), 12_000);
}

#[test]
fn raw_to_mv_max_26v() {
    // 26 000 mV = 0x6590, the top of the bus-voltage range.
    assert_eq!(Monitor::raw_to_mv(0x6590), 26_000);
}

#[test]
fn raw_to_mv_masks_sign_bit() {
    // The sign bit is always 0 for bus voltage; if it came set, the mask drops it.
    assert_eq!(Monitor::raw_to_mv(0xFFFF), 0x7FF8);
}

#[test]
fn default_monitor_is_not_ready() {
    let m: Monitor = Default::default();
    assert!(!m.ready);
}
