use std::cell::RefCell;
use std::collections::VecDeque;
use std::rc::Rc;

use rover_low_level_controller::sensors::ina226::INA226;
use rover_low_level_controller::sensors::mpu6050::MPU6050;
use rover_low_level_controller::sensors::soft_i2c::{I2cLines, SoftI2C};
use rover_low_level_controller::sensors::vl53l0x::{select_ref_spads, VL53L0X};

/// What the scripted slave saw and what it answers.
#[derive(Default)]
struct Wire {
    /// Levels the slave puts on SDA when the master samples it, in order
    /// (ACK bits and data bits); an empty script answers low (ACK, 0).
    answers: VecDeque<bool>,
    /// SDA level (`true` = released) at every rising edge of SCL.
    clocked: Vec<bool>,
    sda_released: bool,
}

#[derive(Clone, Default)]
struct ScriptedLines(Rc<RefCell<Wire>>);

impl I2cLines for ScriptedLines {
    fn sda_low(&mut self) {
        self.0.borrow_mut().sda_released = false;
    }
    fn sda_release(&mut self) {
        self.0.borrow_mut().sda_released = true;
    }
    fn scl_low(&mut self) {}
    fn scl_release(&mut self) {
        let mut w = self.0.borrow_mut();
        let level = w.sda_released;
        w.clocked.push(level);
    }
    fn sda_is_high(&mut self) -> bool {
        self.0.borrow_mut().answers.pop_front().unwrap_or(false)
    }
    fn scl_is_high(&mut self) -> bool {
        true
    }
    fn half_period(&mut self) {}
}

fn bits_of(byte: u8) -> Vec<bool> {
    (0..8).rev().map(|i| (byte >> i) & 1 == 1).collect()
}

fn byte_of(bits: &[bool]) -> u8 {
    bits.iter().fold(0u8, |acc, b| (acc << 1) | (*b as u8))
}

/// Slave answers for a register read of `data` on a device that
/// acknowledges everything: three ACKs, then the data bits.
fn read_answers(data: &[u8]) -> Vec<bool> {
    let mut v = vec![false, false, false];
    for b in data {
        v.extend(bits_of(*b));
    }
    v
}

fn script(lines: &ScriptedLines, answers: Vec<bool>) {
    lines.0.borrow_mut().answers.extend(answers);
}

#[test]
fn soft_i2c_write_sends_address_register_and_data_msb_first() {
    let lines = ScriptedLines::default();
    let mut bus = SoftI2C::new(lines.clone());
    lines.0.borrow_mut().clocked.clear();
    assert!(bus.write(0x40, 0x02, &[0x12]));
    let w = lines.0.borrow();
    // START (1 edge), three bytes of 9 edges each, STOP (1 edge).
    assert_eq!(w.clocked.len(), 1 + 27 + 1);
    let bytes: Vec<u8> = (0..3).map(|k| byte_of(&w.clocked[1 + 9 * k..1 + 9 * k + 8])).collect();
    assert_eq!(bytes, vec![0x80, 0x02, 0x12]);
}

#[test]
fn soft_i2c_write_fails_on_nack() {
    let lines = ScriptedLines::default();
    let mut bus = SoftI2C::new(lines.clone());
    // The address byte is not acknowledged (SDA stays high).
    script(&lines, vec![true]);
    assert!(!bus.write(0x40, 0x02, &[0x12]));
}

#[test]
fn soft_i2c_read_returns_the_bytes_on_the_wire() {
    let lines = ScriptedLines::default();
    let mut bus = SoftI2C::new(lines.clone());
    script(&lines, read_answers(&[0xA5, 0x3C]));
    let mut buf = [0u8; 2];
    assert!(bus.read(0x29, 0x1E, &mut buf));
    assert_eq!(buf, [0xA5, 0x3C]);
}

#[test]
fn soft_i2c_read_acks_all_but_the_last_byte() {
    let lines = ScriptedLines::default();
    let mut bus = SoftI2C::new(lines.clone());
    script(&lines, read_answers(&[1, 2, 3]));
    lines.0.borrow_mut().clocked.clear();
    let mut buf = [0u8; 3];
    assert!(bus.read(0x29, 0x00, &mut buf));
    let w = lines.0.borrow();
    // START, two header bytes, repeated START, read address, three data bytes, STOP.
    let data_start = 1 + 18 + 1 + 9;
    let acks: Vec<bool> = (0..3).map(|k| w.clocked[data_start + 9 * k + 8]).collect();
    // ACK is SDA low, NACK is SDA released.
    assert_eq!(acks, vec![false, false, true]);
    assert_eq!(byte_of(&w.clocked[1 + 18 + 1..1 + 18 + 1 + 8]), 0x53);
}

#[test]
fn soft_i2c_write16_sends_register_high_byte_first() {
    let lines = ScriptedLines::default();
    let mut bus = SoftI2C::new(lines.clone());
    lines.0.borrow_mut().clocked.clear();
    assert!(bus.write16(0x29, 0x0102, &[]));
    let w = lines.0.borrow();
    let bytes: Vec<u8> = (0..3).map(|k| byte_of(&w.clocked[1 + 9 * k..1 + 9 * k + 8])).collect();
    assert_eq!(bytes, vec![0x52, 0x01, 0x02]);
}

#[test]
fn soft_i2c_read16_fills_buffer() {
    let lines = ScriptedLines::default();
    let mut bus = SoftI2C::new(lines.clone());
    let mut answers = vec![false, false, false, false];
    answers.extend(bits_of(0x7E));
    script(&lines, answers);
    let mut buf = [0u8; 1];
    assert!(bus.read16(0x29, 0x0110, &mut buf));
    assert_eq!(buf, [0x7E]);
}

#[test]
fn ina226_current_is_signed() {
    let lines = ScriptedLines::default();
    let mut ina = INA226::new(lines.clone());
    script(&lines, read_answers(&[0xFF, 0xFF]));
    assert_eq!(ina.read_current_ma(), -1);
    script(&lines, read_answers(&[0x01, 0xF4]));
    assert_eq!(ina.read_current_ma(), 500);
}

#[test]
fn ina226_bus_voltage_and_power_scaling() {
    let lines = ScriptedLines::default();
    let mut ina = INA226::new(lines.clone());
    // 9600 × 1.25 mV = 12 000 mV.
    script(&lines, read_answers(&[0x25, 0x80]));
    assert_eq!(ina.read_bus_mv(), 12_000);
    // 40 × 25 mW = 1 000 mW.
    script(&lines, read_answers(&[0x00, 0x28]));
    assert_eq!(ina.read_power_mw(), 1_000);
}

#[test]
fn ina226_init_checks_die_id() {
    let lines = ScriptedLines::default();
    let mut ina = INA226::new(lines.clone());
    script(&lines, read_answers(&[0x22, 0x60]));
    assert!(ina.init(10));
    assert!(ina.ready);
    let lines2 = ScriptedLines::default();
    let mut other = INA226::new(lines2.clone());
    script(&lines2, read_answers(&[0x12, 0x34]));
    assert!(!other.init(10));
    assert!(!other.ready);
}

#[test]
fn mpu6050_needs_init_before_reading() {
    let lines = ScriptedLines::default();
    let mut mpu = MPU6050::new(lines.clone());
    let before = lines.0.borrow().clocked.len();
    assert_eq!(mpu.read_raw(), None);
    assert!(!mpu.ready);
    // Nothing went over the bus.
    assert_eq!(lines.0.borrow().clocked.len(), before);
}

#[test]
fn mpu6050_init_and_read_raw_words() {
    let lines = ScriptedLines::default();
    let mut mpu = MPU6050::new(lines.clone());
    // WHO_AM_I = 0x68 at the default address.
    script(&lines, read_answers(&[0x68]));
    assert_eq!(mpu.init(), 0x68);
    assert!(mpu.ready);
    let sample = [0x00, 0x01, 0xFF, 0xFF, 0x80, 0x00, 0x7F, 0xFF, 0x12, 0x34, 0x00, 0x00, 0xFE, 0x0C];
    script(&lines, read_answers(&sample));
    assert_eq!(mpu.read_raw(), Some((1, -1, -32768, 32767, 0x1234, 0, -500)));
}

#[test]
fn mpu6050_init_tries_the_second_address() {
    let lines = ScriptedLines::default();
    let mut mpu = MPU6050::new(lines.clone());
    // 0x68 answers WHO_AM_I = 0, 0x69 answers 0x70 (a clone).
    let mut answers = read_answers(&[0x00]);
    answers.extend(read_answers(&[0x70]));
    script(&lines, answers);
    assert_eq!(mpu.init(), 0x70);
    assert!(mpu.ready);
}

#[test]
fn vl53l0x_read_mm_filters_out_of_range() {
    let lines = ScriptedLines::default();
    let mut tof = VL53L0X::new(lines.clone());
    // Status not ready: nothing else is read.
    script(&lines, read_answers(&[0x00]));
    assert_eq!(tof.read_mm(), None);
    // Ready, 250 mm.
    script(&lines, read_answers(&[0x07]));
    script(&lines, read_answers(&[0x00, 0xFA]));
    script(&lines, vec![false, false, false]);
    assert_eq!(tof.read_mm(), Some(250));
    // Ready, 8190 mm: no target.
    script(&lines, read_answers(&[0x01]));
    script(&lines, read_answers(&[0x1F, 0xFE]));
    script(&lines, vec![false, false, false]);
    assert_eq!(tof.read_mm(), None);
}

#[test]
fn vl53l0x_spad_selection_keeps_first_count_spads() {
    let mut map = [0xFF, 0xFF, 0xFF, 0xFF, 0xFF, 0xFF];
    select_ref_spads(&mut map, 5, false);
    assert_eq!(map, [0x1F, 0, 0, 0, 0, 0]);
}

#[test]
fn vl53l0x_spad_selection_aperture_starts_at_twelve() {
    let mut map = [0xFF, 0xFF, 0xFF, 0xFF, 0xFF, 0xFF];
    select_ref_spads(&mut map, 3, true);
    assert_eq!(map, [0x00, 0x70, 0, 0, 0, 0]);
}

#[test]
fn vl53l0x_spad_selection_skips_unset_spads() {
    let mut map = [0b1010_1010, 0x01, 0, 0, 0, 0xFF];
    select_ref_spads(&mut map, 4, false);
    assert_eq!(map, [0b1010_1010, 0, 0, 0, 0, 0]);
    let mut few = [0b0000_0101, 0, 0, 0, 0, 0];
    select_ref_spads(&mut few, 10, false);
    assert_eq!(few, [0b0000_0101, 0, 0, 0, 0, 0]);
}

/// Lines whose slave holds SCL low for good after `free_clocks` pulses.
struct HeldClock {
    polls: u32,
    free_clocks: u32,
    releases: u32,
}

impl I2cLines for HeldClock {
    fn sda_low(&mut self) {}
    fn sda_release(&mut self) {}
    fn scl_low(&mut self) {}
    fn scl_release(&mut self) {
        self.releases += 1;
    }
    fn sda_is_high(&mut self) -> bool {
        false
    }
    fn scl_is_high(&mut self) -> bool {
        self.polls += 1;
        // The first release is the idle bus; the START's release follows.
        self.releases <= self.free_clocks + 2
    }
    fn half_period(&mut self) {}
}

#[test]
fn soft_i2c_gives_up_on_a_clock_held_low() {
    // The third data clock of the address byte is held low.
    let mut bus = SoftI2C::new(HeldClock { polls: 0, free_clocks: 2, releases: 0 });
    assert!(!bus.write(0x40, 0x01, &[0x12]));
    let mut buf = [7u8; 2];
    let mut bus = SoftI2C::new(HeldClock { polls: 0, free_clocks: 0, releases: 0 });
    assert!(!bus.read(0x40, 0x01, &mut buf));
    assert_eq!(buf, [7, 7]);
}
