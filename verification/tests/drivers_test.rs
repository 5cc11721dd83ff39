use std::collections::VecDeque;

use rover_low_level_controller::command_interface::{CommandInterface, RxRingBuffer};
use rover_low_level_controller::motor_control::servo::pulse_width_us;
use rover_low_level_controller::relay::RelayModule;
use rover_low_level_controller::sensors::encoder::{directed_count, pulse_count, quadrature_count};
use rover_low_level_controller::sensors::hc_sr04::{distance_from_echo, EchoPins};
use rover_low_level_controller::sensors::tf_luna::{decode_payload, ByteSource};
use rover_low_level_controller::sensors::{SensorError, TFLuna, HCSR04};
use rover_low_level_controller::state_machine::BankMode;

// ─── HC-SR04 ──────────────────────────────────────────────────────────────────

#[test]
fn hcsr04_distance_formula() {
    // 1 166 µs of echo ≈ 200 mm: 1166 × 1715 / 10 000 = 199.
    assert_eq!(distance_from_echo(1166), Ok(199));
    assert_eq!(distance_from_echo(23326), Ok(4000));
}

#[test]
fn hcsr04_out_of_range_below_2mm_and_above_4m() {
    assert_eq!(distance_from_echo(0), Err(SensorError::OutOfRange));
    assert_eq!(distance_from_echo(11), Err(SensorError::OutOfRange));
    assert_eq!(distance_from_echo(12), Ok(2));
    assert_eq!(distance_from_echo(23330), Err(SensorError::OutOfRange));
}

/// Echo line that stays low for `wait` polls, then high for `width` polls.
struct EchoScript {
    wait: u32,
    width: u32,
    delays: u32,
}

impl EchoPins for EchoScript {
    fn trigger_low(&mut self) {}
    fn trigger_high(&mut self) {}
    fn echo_is_high(&mut self) -> bool {
        if self.wait > 0 {
            self.wait -= 1;
            false
        } else if self.width > 0 {
            self.width -= 1;
            true
        } else {
            false
        }
    }
    fn delay_us(&mut self, us: u32) {
        self.delays += us;
    }
}

#[test]
fn hcsr04_measures_echo_width() {
    let mut s = HCSR04::new(EchoScript { wait: 3, width: 1166, delays: 0 });
    assert_eq!(s.measure_mm(), Ok(199));
}

#[test]
fn hcsr04_short_timeout_cuts_far_objects() {
    let mut s = HCSR04::new(EchoScript { wait: 0, width: 3000, delays: 0 }).with_timeout(1750);
    assert_eq!(s.measure_mm(), Err(SensorError::Timeout));
}

#[test]
fn hcsr04_no_echo_is_timeout() {
    let mut s = HCSR04::new(EchoScript { wait: 40_000, width: 0, delays: 0 });
    assert_eq!(s.measure_mm(), Err(SensorError::Timeout));
}

// ─── TF-Luna ─────────────────────────────────────────────────────────────────

fn luna_payload(dist_cm: u16) -> [u8; 7] {
    let mut d = [(dist_cm & 0xFF) as u8, (dist_cm >> 8) as u8, 0x10, 0x00, 0x20, 0x09, 0];
    let sum: u32 = 0x59 + 0x59 + d[..6].iter().map(|b| *b as u32).sum::<u32>();
    d[6] = (sum & 0xFF) as u8;
    d
}

#[test]
fn tf_luna_decodes_distance_in_mm() {
    assert_eq!(decode_payload(&luna_payload(123)), Some(1230));
    assert_eq!(decode_payload(&luna_payload(800)), Some(8000));
}

#[test]
fn tf_luna_rejects_bad_checksum() {
    let mut d = luna_payload(123);
    d[6] = d[6].wrapping_add(1);
    assert_eq!(decode_payload(&d), None);
}

struct Bytes(VecDeque<Option<u8>>);

impl ByteSource for Bytes {
    fn read_byte(&mut self) -> Option<u8> {
        self.0.pop_front().unwrap_or(None)
    }
}

#[test]
fn tf_luna_reads_a_frame_after_noise() {
    let mut stream: VecDeque<Option<u8>> = VecDeque::new();
    for b in [0x12u8, 0x59, 0x33] {
        stream.push_back(Some(b));
    }
    stream.push_back(None);
    stream.push_back(Some(0x59));
    stream.push_back(Some(0x59));
    for b in luna_payload(250) {
        stream.push_back(None);
        stream.push_back(Some(b));
    }
    let mut lidar = TFLuna::new(Bytes(stream));
    assert_eq!(lidar.read_packet(), Some(2500));
}

#[test]
fn tf_luna_times_out_without_header() {
    let mut lidar = TFLuna::new(Bytes(VecDeque::new()));
    assert_eq!(lidar.read_packet(), None);
}

// ─── Encoders ────────────────────────────────────────────────────────────────

#[test]
fn encoder_counting_steps() {
    assert_eq!(pulse_count(41), 42);
    assert_eq!(directed_count(10, true), 11);
    assert_eq!(directed_count(10, false), 9);
    assert_eq!(pulse_count(i32::MAX), i32::MIN);
}

#[test]
fn quadrature_edges_count_by_direction() {
    // A rising with B low, or A falling with B high: forward.
    assert_eq!(quadrature_count(0, true, false), 1);
    assert_eq!(quadrature_count(0, false, true), 1);
    assert_eq!(quadrature_count(0, true, true), -1);
    assert_eq!(quadrature_count(0, false, false), -1);
}

// ─── Relay ───────────────────────────────────────────────────────────────────

#[test]
fn relay_starts_on_bank_two() {
    let r = RelayModule::new();
    assert_eq!(r.mode(), BankMode::Bank2Only);
    assert_eq!(r.levels(), (false, true));
}

#[test]
fn relay_levels_are_active_low() {
    let mut r = RelayModule::new();
    r.set_mode(BankMode::Bank3Only);
    assert_eq!(r.levels(), (true, false));
    r.set_mode(BankMode::BothBanks);
    assert_eq!(r.levels(), (false, false));
    r.emergency_off();
    assert_eq!(r.mode(), BankMode::AllOff);
    assert_eq!(r.levels(), (true, true));
    r.emergency_off();
    assert_eq!(r.levels(), (true, true));
    r.reset_normal();
    assert_eq!(r.levels(), (false, true));
}

// ─── Servo ───────────────────────────────────────────────────────────────────

#[test]
fn servo_pulse_widths() {
    assert_eq!(pulse_width_us(0), 1000);
    assert_eq!(pulse_width_us(90), 1500);
    assert_eq!(pulse_width_us(180), 2000);
    assert_eq!(pulse_width_us(200), 2000);
}

// ─── Command line assembly ───────────────────────────────────────────────────

#[test]
fn command_line_is_assembled_until_newline() {
    let mut ci = CommandInterface::new();
    for b in b"PING" {
        assert!(!ci.accept_byte(*b));
    }
    assert!(ci.accept_byte(b'\n'));
    assert_eq!(ci.get_command(), b"PING");
}

#[test]
fn empty_lines_are_ignored() {
    let mut ci = CommandInterface::new();
    assert!(!ci.accept_byte(b'\r'));
    assert!(!ci.accept_byte(b'\n'));
    assert_eq!(ci.get_command(), b"");
}

#[test]
fn overlong_lines_are_truncated() {
    let mut ci = CommandInterface::new();
    for _ in 0..40 {
        ci.accept_byte(b'A');
    }
    assert!(ci.accept_byte(b'\n'));
    assert_eq!(ci.get_command().len(), 31);
}

#[test]
fn ring_buffer_feeds_the_assembler_and_keeps_the_rest() {
    let mut rx = RxRingBuffer::new();
    for b in b"RST\nPI" {
        rx.push(*b);
    }
    let mut ci = CommandInterface::new();
    assert!(ci.poll_from_ring(&mut rx));
    assert_eq!(ci.get_command(), b"RST");
    assert!(!ci.poll_from_ring(&mut rx));
    rx.push(b'N');
    rx.push(b'G');
    rx.push(b'\r');
    assert!(ci.poll_from_ring(&mut rx));
    assert_eq!(ci.get_command(), b"PING");
}

#[test]
fn ring_buffer_is_fifo_and_drops_when_full() {
    let mut rx = RxRingBuffer::new();
    for i in 0..70u8 {
        rx.push(i);
    }
    // 64 bytes fit; the later ones are dropped.
    for i in 0..64u8 {
        assert_eq!(rx.pop(), Some(i));
    }
    assert_eq!(rx.pop(), None);
}
