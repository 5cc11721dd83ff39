//! ST VL53L0X time-of-flight range sensor (GY-VL53L0XV2 board) on the
//! bit-banged I2C bus, address 0x29: 3–200 cm, ±3 %.
//!
//! The start-up sequence (2V8 mode, reference SPAD set-up, ST's default
//! tuning settings, VHV and phase calibration) follows Pololu's VL53L0X
//! library. The driver keeps, as ghost state, the log of the register
//! accesses it made, each tied to its bus transaction.

use vstd::prelude::*;

use crate::sensors::soft_i2c::{
    added, be16, lemma_reg_trace_step, op_tx, read_tx, reg_read, reg_trace, reg_write,
    word_bytes, write_tx, zeros, BusEvent, I2cLines, RegOp, SoftI2C,
};

verus! {

/// Bus address.
pub const VL53L0X_ADDR: u8 = 0x29;

pub const SYSRANGE_START: u8 = 0x00;

pub const SYSTEM_SEQUENCE_CONFIG: u8 = 0x01;

pub const SYSTEM_INTERRUPT_CONFIG_GPIO: u8 = 0x0A;

pub const SYSTEM_INTERRUPT_CLEAR: u8 = 0x0B;

pub const RESULT_INTERRUPT_STATUS: u8 = 0x13;

pub const RESULT_RANGE_STATUS: u8 = 0x14;

/// Range in mm, ten registers after RESULT_RANGE_STATUS.
pub const RESULT_RANGE_MM: u8 = 0x1E;

pub const MSRC_CONFIG_CONTROL: u8 = 0x60;

pub const FINAL_RANGE_CONFIG_MIN_COUNT_RATE_RTN: u8 = 0x44;

pub const GLOBAL_CONFIG_SPAD_ENABLES_REF_0: u8 = 0xB0;

pub const GLOBAL_CONFIG_REF_EN_START_SELECT: u8 = 0xB6;

pub const DYNAMIC_SPAD_NUM_REQUESTED_REF_SPAD: u8 = 0x4E;

pub const GPIO_HV_MUX_ACTIVE_HIGH: u8 = 0x84;

pub const VHV_CONFIG_PAD_SCL_SDA_EXTSUP_HV: u8 = 0x89;

/// Model ID register and the value it holds.
pub const IDENTIFICATION_MODEL_ID: u8 = 0xC0;

pub const MODEL_ID: u8 = 0xEE;

/// Reads of a status register before giving up.
pub const POLL_LIMIT: u16 = 5000;

/// Range readings from this value on mean that no target was seen.
pub const RANGE_OUT_OF_RANGE_MM: u16 = 8190;

/// ST's default tuning settings, as (register, value) pairs written in
/// this order during start-up.
pub const TUNING: [(u8, u8); 80] = [
    (0xFF, 0x01), (0x00, 0x00), (0xFF, 0x00), (0x09, 0x00), (0x10, 0x00), (0x11, 0x00),
    (0x24, 0x01), (0x25, 0xFF), (0x75, 0x00), (0xFF, 0x01), (0x4E, 0x2C), (0x48, 0x00),
    (0x30, 0x20), (0xFF, 0x00), (0x30, 0x09), (0x54, 0x00), (0x31, 0x04), (0x32, 0x03),
    (0x40, 0x83), (0x46, 0x25), (0x60, 0x00), (0x27, 0x00), (0x50, 0x06), (0x51, 0x00),
    (0x52, 0x96), (0x56, 0x08), (0x57, 0x30), (0x61, 0xDD), (0x62, 0x00), (0x64, 0x00),
    (0x65, 0x00), (0x66, 0xA0), (0xFF, 0x01), (0x22, 0x32), (0x47, 0x14), (0x49, 0xFF),
    (0x4A, 0x00), (0xFF, 0x00), (0x7A, 0x0A), (0x7B, 0x00), (0x78, 0x21), (0xFF, 0x01),
    (0x23, 0x34), (0x42, 0x00), (0x44, 0xFF), (0x45, 0x26), (0x46, 0x05), (0x40, 0x40),
    (0x0E, 0x06), (0x20, 0x1A), (0x43, 0x40), (0xFF, 0x00), (0x34, 0x03), (0x35, 0x44),
    (0xFF, 0x01), (0x31, 0x04), (0x4B, 0x09), (0x4C, 0x05), (0x4D, 0x04), (0xFF, 0x00),
    (0x44, 0x00), (0x45, 0x20), (0x47, 0x08), (0x48, 0x28), (0x67, 0x00), (0x70, 0x04),
    (0x71, 0x01), (0x72, 0xFE), (0x76, 0x00), (0x77, 0x00), (0xFF, 0x01), (0x0D, 0x01),
    (0xFF, 0x00), (0x80, 0x01), (0x01, 0xFF), (0xFF, 0x01), (0x8E, 0x01), (0x00, 0x01),
    (0xFF, 0x00), (0x80, 0x00),
];

/// A one-byte write.
pub open spec fn w(reg: u8, val: u8) -> RegOp {
    RegOp::Write(reg, seq![val])
}

/// A one-byte read that gave `val`.
pub open spec fn r(reg: u8, val: u8) -> RegOp {
    RegOp::Read(reg, seq![val])
}

/// Range reported for a raw range register.
pub open spec fn range_reading(mm: u16) -> Option<u16> {
    if mm >= RANGE_OUT_OF_RANGE_MM {
        None
    } else {
        Some(mm)
    }
}

/// Register accesses of `start_continuous` with the saved stop variable.
pub open spec fn continuous_start_ops(stop: u8) -> Seq<RegOp> {
    seq![
        w(0x80, 0x01),
        w(0xFF, 0x01),
        w(0x00, 0x00),
        w(0x91, stop),
        w(0x00, 0x01),
        w(0xFF, 0x00),
        w(0x80, 0x00),
        w(SYSRANGE_START, 0x02),
    ]
}

/// Bit `i` of a SPAD map (bit `i % 8` of byte `i / 8`).
pub open spec fn spad_bit(m: Seq<u8>, i: int) -> bool {
    (m[i / 8] >> ((i % 8) as u8)) & 1 == 1
}

/// Number of SPADs set in `m` from `from` (included) to `to` (excluded).
pub open spec fn spads_set(m: Seq<u8>, from: int, to: int) -> nat
    decreases to - from,
{
    if to <= from {
        0
    } else {
        spads_set(m, from, to - 1) + if spad_bit(m, to - 1) {
            1nat
        } else {
            0nat
        }
    }
}

/// First reference SPAD in use: aperture SPADs start at 12.
pub open spec fn first_spad(is_aperture: bool) -> int {
    if is_aperture {
        12
    } else {
        0
    }
}

/// SPAD `i` stays enabled: it is at or after the first SPAD in use, it was
/// set, and fewer than `count` set SPADs come before it from there.
pub open spec fn spad_enabled(m: Seq<u8>, count: u8, is_aperture: bool, i: int) -> bool {
    &&& i >= first_spad(is_aperture)
    &&& spad_bit(m, i)
    &&& spads_set(m, first_spad(is_aperture), i) < count
}

/// Clearing one bit of a byte leaves the others.
proof fn lemma_clear_bit(b: u8, k: u8, l: u8)
    requires
        k < 8,
        l < 8,
    ensures
        k != l ==> ((b & !(1u8 << k)) >> l) & 1 == (b >> l) & 1,
        ((b & !(1u8 << k)) >> k) & 1 == 0,
{
    assert(k < 8 && l < 8 && k != l ==> ((b & !(1u8 << k)) >> l) & 1 == (b >> l) & 1)
        by (bit_vector);
    assert(k < 8 ==> ((b & !(1u8 << k)) >> k) & 1 == 0) by (bit_vector);
}

/// Keeps the first `count` set SPADs of the reference map, starting at SPAD
/// 12 for aperture SPADs and at 0 otherwise, and clears every other bit.
pub fn select_ref_spads(map: &mut [u8; 6], count: u8, is_aperture: bool)
    ensures
        forall|i: int|
            0 <= i < 48 ==> #[trigger] spad_bit(final(map)@, i) == spad_enabled(
                old(map)@,
                count,
                is_aperture,
                i,
            ),
{
    let ghost orig = map@;
    let first: u8 = if is_aperture {
        12
    } else {
        0
    };
    let mut enabled: u8 = 0;
    let mut i: u8 = 0;
    while i < 48
        invariant
            i <= 48,
            first as int == first_spad(is_aperture),
            orig == old(map)@,
            map@.len() == 6,
            enabled as int == (if spads_set(orig, first as int, i as int) < count {
                spads_set(orig, first as int, i as int) as int
            } else {
                count as int
            }),
            forall|j: int|
                0 <= j < i ==> #[trigger] spad_bit(map@, j) == spad_enabled(orig, count, is_aperture, j),
            forall|j: int| i <= j < 48 ==> #[trigger] spad_bit(map@, j) == spad_bit(orig, j),
        decreases 48 - i,
    {
        let bi = (i / 8) as usize;
        let bn = i % 8;
        let ghost before = map@;
        assert(spad_bit(before, i as int) == spad_bit(orig, i as int));
        if i < first || enabled >= count {
            map[bi] = map[bi] & !(1u8 << bn);
            proof {
                assert forall|j: int| 0 <= j < 48 && j != i implies #[trigger] spad_bit(map@, j)
                    == spad_bit(before, j) by {
                    if j / 8 == bi as int {
                        lemma_clear_bit(before[bi as int], bn, (j % 8) as u8);
                    }
                }
                lemma_clear_bit(before[bi as int], bn, bn);
                assert(!spad_bit(map@, i as int));
            }
        } else if (map[bi] >> bn) & 1 == 1 {
            enabled = enabled + 1;
        }
        i = i + 1;
    }
}

/// Value of a one-byte read (0 for anything else).
pub open spec fn read_value(op: RegOp) -> u8 {
    match op {
        RegOp::Read(_, d) => d[0],
        RegOp::Write(_, _) => 0,
    }
}

/// `op` is a one-byte read of `reg`.
pub open spec fn is_read_of(op: RegOp, reg: u8) -> bool {
    match op {
        RegOp::Read(rg, d) => rg == reg && d.len() == 1,
        RegOp::Write(_, _) => false,
    }
}

/// `p` polls `reg`: one-byte reads while the value masked by `mask` is 0,
/// ended by a read where it is not (`done`), or cut off after
/// `POLL_LIMIT + 1` reads that all stayed 0.
pub open spec fn polled(p: Seq<RegOp>, reg: u8, mask: u8, done: bool) -> bool {
    &&& 1 <= p.len() <= POLL_LIMIT + 1
    &&& forall|i: int| 0 <= i < p.len() ==> #[trigger] is_read_of(p[i], reg)
    &&& forall|i: int| 0 <= i < p.len() - 1 ==> #[trigger] read_value(p[i]) & mask == 0
    &&& done == (read_value(p.last()) & mask != 0)
    &&& !done ==> p.len() == POLL_LIMIT + 1
}

/// The tuning settings as register writes.
pub open spec fn tuning_ops() -> Seq<RegOp> {
    Seq::new(80, |i: int| w(TUNING[i].0, TUNING[i].1))
}

/// Accesses of the SPAD-information readout before the poll: `a` is the
/// first value read from 0x83.
pub open spec fn spad_info_head(a: u8) -> Seq<RegOp> {
    seq![
        w(0x80, 0x01),
        w(0xFF, 0x01),
        w(0x00, 0x00),
        w(0xFF, 0x06),
        r(0x83, a),
        w(0x83, a | 0x04),
        w(0xFF, 0x07),
        w(0x81, 0x01),
        w(0x80, 0x01),
        w(0x94, 0x6B),
        w(0x83, 0x00),
    ]
}

/// Accesses of the SPAD-information readout after the poll: `tmp` is the
/// value read from 0x92, `b` the second value read from 0x83.
pub open spec fn spad_info_tail(tmp: u8, b: u8) -> Seq<RegOp> {
    seq![
        w(0x83, 0x01),
        r(0x92, tmp),
        w(0x81, 0x00),
        w(0xFF, 0x06),
        r(0x83, b),
        w(0x83, b & !0x04u8),
        w(0xFF, 0x01),
        w(0x00, 0x01),
        w(0xFF, 0x00),
        w(0x80, 0x00),
    ]
}

/// Reference SPAD count and type held in the SPAD-information byte.
pub open spec fn spad_info(tmp: u8) -> (u8, bool) {
    (tmp & 0x7F, (tmp >> 7u8) & 0x01 == 1)
}

/// Accesses of a reference calibration started with `vhv_init`: the start,
/// the poll `p` of the interrupt status, and, when it completed, the
/// interrupt clear and the stop.
pub open spec fn ref_cal_ops(vhv_init: u8, p: Seq<RegOp>, done: bool) -> Seq<RegOp> {
    seq![w(SYSRANGE_START, 0x01 | vhv_init)] + p + if done {
        seq![w(SYSTEM_INTERRUPT_CLEAR, 0x01), w(SYSRANGE_START, 0x00)]
    } else {
        Seq::empty()
    }
}

/// Accesses of the set-up after the model ID check: 2V8 mode (`v` read
/// from 0x89), standard I2C mode and the stop variable `stop` (read from
/// 0x91), MSRC and pre-range limit checks off (`m` read from 0x60), a
/// 0.25 MCPS final-range signal-rate limit, and the SPAD preparation.
pub open spec fn setup_ops(v: u8, stop: u8, m: u8) -> Seq<RegOp> {
    seq![
        r(VHV_CONFIG_PAD_SCL_SDA_EXTSUP_HV, v),
        w(VHV_CONFIG_PAD_SCL_SDA_EXTSUP_HV, v | 0x01),
        w(0x88, 0x00),
        w(0x80, 0x01),
        w(0xFF, 0x01),
        w(0x00, 0x00),
        r(0x91, stop),
        w(0x00, 0x01),
        w(0xFF, 0x00),
        w(0x80, 0x00),
        r(MSRC_CONFIG_CONTROL, m),
        w(MSRC_CONFIG_CONTROL, m | 0x12),
        RegOp::Write(FINAL_RANGE_CONFIG_MIN_COUNT_RATE_RTN, word_bytes(32)),
        w(0xFF, 0x01),
        w(DYNAMIC_SPAD_NUM_REQUESTED_REF_SPAD, 0x00),
        w(0xFF, 0x00),
        w(GLOBAL_CONFIG_REF_EN_START_SELECT, 0xB4),
    ]
}

/// Accesses of the reference SPAD set-up: the map read, the requested
/// count, and the selected map written back.
pub open spec fn spad_map_ops(map: Seq<u8>, count: u8, selected: Seq<u8>) -> Seq<RegOp> {
    seq![
        RegOp::Read(GLOBAL_CONFIG_SPAD_ENABLES_REF_0, map),
        w(0xFF, 0x01),
        w(DYNAMIC_SPAD_NUM_REQUESTED_REF_SPAD, 0x00),
        w(0xFF, 0x00),
        w(GLOBAL_CONFIG_REF_EN_START_SELECT, 0xB4),
        w(DYNAMIC_SPAD_NUM_REQUESTED_REF_SPAD, count),
        RegOp::Write(GLOBAL_CONFIG_SPAD_ENABLES_REF_0, selected),
    ]
}

/// `selected` is the six-byte map that keeps the SPADs of `map` chosen for
/// `count` and `is_aperture`.
pub open spec fn spads_selected(map: Seq<u8>, count: u8, is_aperture: bool, selected: Seq<u8>) -> bool {
    &&& selected.len() == 6
    &&& forall|i: int|
        0 <= i < 48 ==> #[trigger] spad_bit(selected, i) == spad_enabled(map, count, is_aperture, i)
}

/// Accesses of the interrupt set-up (`g` read from 0x84) and of the two
/// reference calibrations, VHV then phase (the second only after the first
/// completed), ending with the full sequence restored.
pub open spec fn calibration_ops(
    g: u8,
    p1: Seq<RegOp>,
    d1: bool,
    p2: Seq<RegOp>,
    d2: bool,
) -> Seq<RegOp> {
    seq![
        w(SYSTEM_INTERRUPT_CONFIG_GPIO, 0x04),
        r(GPIO_HV_MUX_ACTIVE_HIGH, g),
        w(GPIO_HV_MUX_ACTIVE_HIGH, g & !0x10u8),
        w(SYSTEM_INTERRUPT_CLEAR, 0x01),
        w(SYSTEM_SEQUENCE_CONFIG, 0x01),
    ] + ref_cal_ops(0x40, p1, d1) + if d1 {
        seq![w(SYSTEM_SEQUENCE_CONFIG, 0x02)] + ref_cal_ops(0x00, p2, d2) + if d2 {
            seq![w(SYSTEM_SEQUENCE_CONFIG, 0xE8)]
        } else {
            Seq::empty()
        }
    } else {
        Seq::empty()
    }
}

/// The accesses `after` adds to `before` are a start-up that found the
/// right model ID, read the stop variable `stop`, set up the reference
/// SPADs from the SPAD information, loaded the tuning settings and ran the
/// calibrations; `done` when both calibrations completed.
pub open spec fn start_up(before: Seq<RegOp>, after: Seq<RegOp>, stop: u8, done: bool) -> bool {
    exists|
        v: u8,
        m: u8,
        a: u8,
        p: Seq<RegOp>,
        pd: bool,
        tmp: u8,
        b: u8,
        map: Seq<u8>,
        sel: Seq<u8>,
        g: u8,
        p1: Seq<RegOp>,
        d1: bool,
        p2: Seq<RegOp>,
        d2: bool,
    |
        #![trigger setup_ops(v, stop, m), spad_info_head(a), polled(p, 0x83, 0xFF, pd), spad_info_tail(tmp, b), spad_map_ops(map, spad_info(tmp).0, sel), calibration_ops(g, p1, d1, p2, d2)]
        {
            &&& polled(p, 0x83, 0xFF, pd)
            &&& map.len() == 6
            &&& spads_selected(map, spad_info(tmp).0, spad_info(tmp).1, sel)
            &&& polled(p1, RESULT_INTERRUPT_STATUS, 0x07, d1)
            &&& d1 ==> polled(p2, RESULT_INTERRUPT_STATUS, 0x07, d2)
            &&& done == (d1 && d2)
            &&& after == before + seq![r(IDENTIFICATION_MODEL_ID, MODEL_ID)] + setup_ops(v, stop, m)
                + spad_info_head(a) + p + spad_info_tail(tmp, b) + spad_map_ops(
                map,
                spad_info(tmp).0,
                sel,
            ) + tuning_ops() + calibration_ops(g, p1, d1, p2, d2)
        }
}

/// Time-of-flight range sensor.
pub struct VL53L0X<L> {
    i2c: SoftI2C<L>,
    stop_var: u8,
    /// Set once `init` has completed.
    pub ready: bool,
    ops: Ghost<Seq<RegOp>>,
}

impl<L: I2cLines> VL53L0X<L> {
    /// The register accesses made so far match the bus traffic, and the
    /// bus traffic matches what went over the lines.
    pub closed spec fn wf(&self) -> bool {
        &&& reg_trace(VL53L0X_ADDR, self.ops@, self.i2c.trace())
        &&& self.i2c.lines_match()
    }

    /// Register accesses made so far, in order.
    pub closed spec fn ops(&self) -> Seq<RegOp> {
        self.ops@
    }

    pub closed spec fn is_ready(&self) -> bool {
        self.ready
    }

    /// Whether `init` completed, as `is_ready` states it.
    pub fn ready(&self) -> (r: bool)
        ensures
            r == self.is_ready(),
    {
        self.ready
    }

    /// Stop variable read during `init`, written back when ranging starts.
    pub closed spec fn stop_value(&self) -> u8 {
        self.stop_var
    }

    /// A sensor on the given bus lines, not yet initialised.
    pub fn new(lines: L) -> (s: Self)
        ensures
            s.wf(),
            s.ops() == Seq::<RegOp>::empty(),
            !s.is_ready(),
            s.stop_value() == 0,
    {
        VL53L0X { i2c: SoftI2C::new(lines), stop_var: 0, ready: false, ops: Ghost(Seq::empty()) }
    }

    fn wr(&mut self, reg: u8, val: u8)
        requires
            old(self).wf(),
        ensures
            final(self).wf(),
            final(self).ops() == old(self).ops().push(w(reg, val)),
            final(self).is_ready() == old(self).is_ready(),
            final(self).stop_value() == old(self).stop_value(),
    {
        let ghost t0 = self.i2c.trace();
        let data = [val];
        assert(data@ =~= seq![val]);
        let ok = self.i2c.write(VL53L0X_ADDR, reg, &data);
        proof {
            assert(write_tx(VL53L0X_ADDR, seq![reg], seq![val], added(t0, self.i2c.trace()), ok));
            lemma_reg_trace_step(VL53L0X_ADDR, self.ops@, t0, self.i2c.trace(), w(reg, val));
            self.ops@ = self.ops@.push(w(reg, val));
        }
    }

    fn rd(&mut self, reg: u8) -> (v: u8)
        requires
            old(self).wf(),
        ensures
            final(self).wf(),
            final(self).ops() == old(self).ops().push(r(reg, v)),
            final(self).is_ready() == old(self).is_ready(),
            final(self).stop_value() == old(self).stop_value(),
    {
        let ghost t0 = self.i2c.trace();
        let mut buf = [0u8; 1];
        assert(buf@ =~= zeros(1));
        let ok = self.i2c.read(VL53L0X_ADDR, reg, &mut buf);
        let v = buf[0];
        proof {
            assert(buf@ =~= seq![v]);
            assert(read_tx(VL53L0X_ADDR, seq![reg], buf@, zeros(1), added(t0, self.i2c.trace()), ok));
            lemma_reg_trace_step(VL53L0X_ADDR, self.ops@, t0, self.i2c.trace(), r(reg, v));
            self.ops@ = self.ops@.push(r(reg, v));
        }
        v
    }

    fn wr16(&mut self, reg: u8, val: u16)
        requires
            old(self).wf(),
        ensures
            final(self).wf(),
            final(self).ops() == old(self).ops().push(RegOp::Write(reg, word_bytes(val))),
            final(self).is_ready() == old(self).is_ready(),
            final(self).stop_value() == old(self).stop_value(),
    {
        let ghost t0 = self.i2c.trace();
        let data = [(val >> 8u16) as u8, val as u8];
        assert(data@ =~= word_bytes(val));
        let ok = self.i2c.write(VL53L0X_ADDR, reg, &data);
        proof {
            let op = RegOp::Write(reg, word_bytes(val));
            assert(write_tx(VL53L0X_ADDR, seq![reg], word_bytes(val), added(t0, self.i2c.trace()), ok));
            lemma_reg_trace_step(VL53L0X_ADDR, self.ops@, t0, self.i2c.trace(), op);
            self.ops@ = self.ops@.push(op);
        }
    }

    fn rd16(&mut self, reg: u8) -> (v: u16)
        requires
            old(self).wf(),
        ensures
            final(self).wf(),
            final(self).ops() == old(self).ops().push(RegOp::Read(reg, word_bytes(v))),
            final(self).is_ready() == old(self).is_ready(),
            final(self).stop_value() == old(self).stop_value(),
    {
        let ghost t0 = self.i2c.trace();
        let mut buf = [0u8; 2];
        assert(buf@ =~= zeros(2));
        let ok = self.i2c.read(VL53L0X_ADDR, reg, &mut buf);
        let hi = buf[0];
        let lo = buf[1];
        let v = ((hi as u16) << 8u16) | lo as u16;
        proof {
            assert((v >> 8u16) as u8 == hi && v as u8 == lo) by (bit_vector)
                requires
                    v == ((hi as u16) << 8u16) | lo as u16,
            ;
            assert(buf@ =~= word_bytes(v));
            let op = RegOp::Read(reg, word_bytes(v));
            assert(read_tx(VL53L0X_ADDR, seq![reg], buf@, zeros(2), added(t0, self.i2c.trace()), ok));
            lemma_reg_trace_step(VL53L0X_ADDR, self.ops@, t0, self.i2c.trace(), op);
            self.ops@ = self.ops@.push(op);
        }
        v
    }

    fn rd_multi(&mut self, reg: u8, buf: &mut [u8])
        requires
            old(self).wf(),
            old(buf)@ == zeros(old(buf)@.len()),
        ensures
            final(self).wf(),
            final(buf)@.len() == old(buf)@.len(),
            final(self).ops() == old(self).ops().push(RegOp::Read(reg, final(buf)@)),
            final(self).is_ready() == old(self).is_ready(),
            final(self).stop_value() == old(self).stop_value(),
    {
        let ghost t0 = self.i2c.trace();
        let ok = self.i2c.read(VL53L0X_ADDR, reg, buf);
        proof {
            let op = RegOp::Read(reg, buf@);
            assert(read_tx(
                VL53L0X_ADDR,
                seq![reg],
                buf@,
                zeros(buf@.len()),
                added(t0, self.i2c.trace()),
                ok,
            ));
            lemma_reg_trace_step(VL53L0X_ADDR, self.ops@, t0, self.i2c.trace(), op);
            self.ops@ = self.ops@.push(op);
        }
    }

    fn wr_multi(&mut self, reg: u8, data: &[u8])
        requires
            old(self).wf(),
        ensures
            final(self).wf(),
            final(self).ops() == old(self).ops().push(RegOp::Write(reg, data@)),
            final(self).is_ready() == old(self).is_ready(),
            final(self).stop_value() == old(self).stop_value(),
    {
        let ghost t0 = self.i2c.trace();
        let ok = self.i2c.write(VL53L0X_ADDR, reg, data);
        proof {
            let op = RegOp::Write(reg, data@);
            assert(write_tx(VL53L0X_ADDR, seq![reg], data@, added(t0, self.i2c.trace()), ok));
            lemma_reg_trace_step(VL53L0X_ADDR, self.ops@, t0, self.i2c.trace(), op);
            self.ops@ = self.ops@.push(op);
        }
    }

    /// Starts back-to-back continuous ranging; call once after `init`.
    pub fn start_continuous(&mut self)
        requires
            old(self).wf(),
        ensures
            final(self).wf(),
            final(self).ops() == old(self).ops() + continuous_start_ops(old(self).stop_value()),
            final(self).is_ready() == old(self).is_ready(),
            final(self).stop_value() == old(self).stop_value(),
    {
        let stop = self.stop_var;
        self.wr(0x80, 0x01);
        self.wr(0xFF, 0x01);
        self.wr(0x00, 0x00);
        self.wr(0x91, stop);
        self.wr(0x00, 0x01);
        self.wr(0xFF, 0x00);
        self.wr(0x80, 0x00);
        self.wr(SYSRANGE_START, 0x02);
        assert(self.ops() =~= old(self).ops() + continuous_start_ops(stop));
    }

    /// The latest range in mm when a new measurement is ready, without
    /// blocking: `None` when none is ready yet, or when the sensor reports
    /// no target (8190 and above). A ready measurement is acknowledged by
    /// clearing the interrupt.
    pub fn read_mm(&mut self) -> (res: Option<u16>)
        requires
            old(self).wf(),
        ensures
            final(self).wf(),
            final(self).is_ready() == old(self).is_ready(),
            final(self).stop_value() == old(self).stop_value(),
            exists|status: u8|
                #![trigger r(RESULT_INTERRUPT_STATUS, status)]
                {
                    &&& status & 7 == 0 ==> res is None && final(self).ops() == old(self).ops().push(
                        r(RESULT_INTERRUPT_STATUS, status),
                    )
                    &&& status & 7 != 0 ==> exists|mm: u16|
                        #![trigger word_bytes(mm)]
                        res == range_reading(mm) && final(self).ops() == old(self).ops() + seq![
                            r(RESULT_INTERRUPT_STATUS, status),
                            RegOp::Read(RESULT_RANGE_MM, word_bytes(mm)),
                            w(SYSTEM_INTERRUPT_CLEAR, 0x01),
                        ]
                },
    {
        let status = self.rd(RESULT_INTERRUPT_STATUS);
        if status & 0x07u8 == 0 {
            return None;
        }
        let mm = self.rd16(RESULT_RANGE_MM);
        self.wr(SYSTEM_INTERRUPT_CLEAR, 0x01);
        assert(self.ops() =~= old(self).ops() + seq![
            r(RESULT_INTERRUPT_STATUS, status),
            RegOp::Read(RESULT_RANGE_MM, word_bytes(mm)),
            w(SYSTEM_INTERRUPT_CLEAR, 0x01),
        ]);
        if mm >= RANGE_OUT_OF_RANGE_MM {
            None
        } else {
            Some(mm)
        }
    }

    /// Reads `reg` until its value masked by `mask` is not 0, at most
    /// `POLL_LIMIT + 1` times; `true` when it was seen.
    fn poll(&mut self, reg: u8, mask: u8) -> (done: bool)
        requires
            old(self).wf(),
        ensures
            final(self).wf(),
            final(self).is_ready() == old(self).is_ready(),
            final(self).stop_value() == old(self).stop_value(),
            old(self).ops().is_prefix_of(final(self).ops()),
            polled(final(self).ops().skip(old(self).ops().len() as int), reg, mask, done),
    {
        let ghost start = self.ops();
        let mut timeout: u16 = 0;
        loop
            invariant
                self.wf(),
                self.is_ready() == old(self).is_ready(),
                self.stop_value() == old(self).stop_value(),
                start == old(self).ops(),
                timeout <= POLL_LIMIT,
                start.is_prefix_of(self.ops()),
                self.ops().len() == start.len() + timeout,
                forall|i: int|
                    0 <= i < timeout ==> #[trigger] is_read_of(self.ops().skip(start.len() as int)[i], reg),
                forall|i: int|
                    0 <= i < timeout ==> #[trigger] read_value(self.ops().skip(start.len() as int)[i]) & mask == 0,
            decreases POLL_LIMIT - timeout,
        {
            let ghost before = self.ops();
            let v = self.rd(reg);
            proof {
                let p = self.ops().skip(start.len() as int);
                assert(p =~= before.skip(start.len() as int).push(r(reg, v)));
                assert(is_read_of(p[timeout as int], reg));
                assert(read_value(p[timeout as int]) == v);
            }
            if v & mask != 0 {
                return true;
            }
            if timeout == POLL_LIMIT {
                return false;
            }
            timeout = timeout + 1;
        }
    }

    /// Reads the reference SPAD count and type from the sensor's NVM.
    fn get_spad_info(&mut self) -> (info: (u8, bool))
        requires
            old(self).wf(),
        ensures
            final(self).wf(),
            final(self).is_ready() == old(self).is_ready(),
            final(self).stop_value() == old(self).stop_value(),
            exists|a: u8, p: Seq<RegOp>, done: bool, tmp: u8, b: u8|
                #![trigger spad_info_head(a), polled(p, 0x83, 0xFF, done), spad_info_tail(tmp, b)]
                {
                    &&& polled(p, 0x83, 0xFF, done)
                    &&& final(self).ops() == old(self).ops() + spad_info_head(a) + p
                        + spad_info_tail(tmp, b)
                    &&& info == spad_info(tmp)
                },
    {
        self.wr(0x80, 0x01);
        self.wr(0xFF, 0x01);
        self.wr(0x00, 0x00);
        self.wr(0xFF, 0x06);
        let a = self.rd(0x83);
        self.wr(0x83, a | 0x04);
        self.wr(0xFF, 0x07);
        self.wr(0x81, 0x01);
        self.wr(0x80, 0x01);
        self.wr(0x94, 0x6B);
        self.wr(0x83, 0x00);
        let ghost after_head = self.ops();
        assert(after_head =~= old(self).ops() + spad_info_head(a));
        let done = self.poll(0x83, 0xFF);
        let ghost after_poll = self.ops();
        let ghost p = after_poll.skip(after_head.len() as int);
        self.wr(0x83, 0x01);
        let tmp = self.rd(0x92);
        let count = tmp & 0x7F;
        let is_aperture = (tmp >> 7u8) & 0x01 == 1;
        self.wr(0x81, 0x00);
        self.wr(0xFF, 0x06);
        let b = self.rd(0x83);
        self.wr(0x83, b & !0x04u8);
        self.wr(0xFF, 0x01);
        self.wr(0x00, 0x01);
        self.wr(0xFF, 0x00);
        self.wr(0x80, 0x00);
        proof {
            assert(after_poll =~= after_head + p);
            assert(self.ops() =~= old(self).ops() + spad_info_head(a) + p + spad_info_tail(tmp, b));
            assert(polled(p, 0x83, 0xFF, done));
        }
        (count, is_aperture)
    }

    /// Writes ST's default tuning settings.
    fn load_tuning(&mut self)
        requires
            old(self).wf(),
        ensures
            final(self).wf(),
            final(self).is_ready() == old(self).is_ready(),
            final(self).stop_value() == old(self).stop_value(),
            final(self).ops() == old(self).ops() + tuning_ops(),
    {
        let mut i: usize = 0;
        while i < 80
            invariant
                i <= 80,
                self.wf(),
                self.is_ready() == old(self).is_ready(),
                self.stop_value() == old(self).stop_value(),
                self.ops() == old(self).ops() + tuning_ops().take(i as int),
            decreases 80 - i,
        {
            let (reg, val) = TUNING[i];
            self.wr(reg, val);
            assert(tuning_ops().take(i + 1) =~= tuning_ops().take(i as int).push(w(reg, val)));
            i = i + 1;
        }
        assert(tuning_ops().take(80) =~= tuning_ops());
    }

    /// One reference calibration (VHV with `vhv_init` 0x40, phase with 0):
    /// starts it, waits for the interrupt status, then clears it and stops.
    /// `false` when the status never came.
    fn single_ref_cal(&mut self, vhv_init: u8) -> (done: bool)
        requires
            old(self).wf(),
        ensures
            final(self).wf(),
            final(self).is_ready() == old(self).is_ready(),
            final(self).stop_value() == old(self).stop_value(),
            exists|p: Seq<RegOp>|
                #![trigger polled(p, RESULT_INTERRUPT_STATUS, 0x07, done)]
                polled(p, RESULT_INTERRUPT_STATUS, 0x07, done) && final(self).ops() == old(
                    self,
                ).ops() + ref_cal_ops(vhv_init, p, done),
    {
        self.wr(SYSRANGE_START, 0x01 | vhv_init);
        let ghost t1 = self.ops();
        let done = self.poll(RESULT_INTERRUPT_STATUS, 0x07);
        let ghost p = self.ops().skip(t1.len() as int);
        assert(self.ops() =~= t1 + p);
        if !done {
            assert(self.ops() =~= old(self).ops() + ref_cal_ops(vhv_init, p, done));
            return false;
        }
        self.wr(SYSTEM_INTERRUPT_CLEAR, 0x01);
        self.wr(SYSRANGE_START, 0x00);
        assert(self.ops() =~= old(self).ops() + ref_cal_ops(vhv_init, p, done));
        true
    }

    /// Set-up after the model ID check: 2V8 mode, standard I2C mode and
    /// the stop variable, limit checks, signal-rate limit, SPAD preparation.
    fn set_up(&mut self)
        requires
            old(self).wf(),
        ensures
            final(self).wf(),
            final(self).is_ready() == old(self).is_ready(),
            exists|v: u8, m: u8|
                #![trigger setup_ops(v, final(self).stop_value(), m)]
                final(self).ops() == old(self).ops() + setup_ops(v, final(self).stop_value(), m),
    {
        let v = self.rd(VHV_CONFIG_PAD_SCL_SDA_EXTSUP_HV);
        self.wr(VHV_CONFIG_PAD_SCL_SDA_EXTSUP_HV, v | 0x01);
        self.wr(0x88, 0x00);
        self.wr(0x80, 0x01);
        self.wr(0xFF, 0x01);
        self.wr(0x00, 0x00);
        self.stop_var = self.rd(0x91);
        let stop = self.stop_var;
        self.wr(0x00, 0x01);
        self.wr(0xFF, 0x00);
        self.wr(0x80, 0x00);
        let m = self.rd(MSRC_CONFIG_CONTROL);
        self.wr(MSRC_CONFIG_CONTROL, m | 0x12);
        self.wr16(FINAL_RANGE_CONFIG_MIN_COUNT_RATE_RTN, 32);
        self.wr(0xFF, 0x01);
        self.wr(DYNAMIC_SPAD_NUM_REQUESTED_REF_SPAD, 0x00);
        self.wr(0xFF, 0x00);
        self.wr(GLOBAL_CONFIG_REF_EN_START_SELECT, 0xB4);
        assert(self.ops() =~= old(self).ops() + setup_ops(v, stop, m));
    }

    /// Reads the reference SPAD map, requests `count` SPADs and writes back
    /// the map that keeps the chosen ones.
    fn set_reference_spads(&mut self, count: u8, is_aperture: bool)
        requires
            old(self).wf(),
        ensures
            final(self).wf(),
            final(self).is_ready() == old(self).is_ready(),
            final(self).stop_value() == old(self).stop_value(),
            exists|map: Seq<u8>, sel: Seq<u8>|
                #![trigger spad_map_ops(map, count, sel)]
                map.len() == 6 && spads_selected(map, count, is_aperture, sel) && final(self).ops()
                    == old(self).ops() + spad_map_ops(map, count, sel),
    {
        let mut spad_map = [0u8; 6];
        assert(spad_map@ =~= zeros(6));
        self.rd_multi(GLOBAL_CONFIG_SPAD_ENABLES_REF_0, &mut spad_map);
        let ghost map = spad_map@;
        self.wr(0xFF, 0x01);
        self.wr(DYNAMIC_SPAD_NUM_REQUESTED_REF_SPAD, 0x00);
        self.wr(0xFF, 0x00);
        self.wr(GLOBAL_CONFIG_REF_EN_START_SELECT, 0xB4);
        self.wr(DYNAMIC_SPAD_NUM_REQUESTED_REF_SPAD, count);
        select_ref_spads(&mut spad_map, count, is_aperture);
        self.wr_multi(GLOBAL_CONFIG_SPAD_ENABLES_REF_0, &spad_map);
        assert(self.ops() =~= old(self).ops() + spad_map_ops(map, count, spad_map@));
    }

    /// Routes the new-sample interrupt and runs the VHV then the phase
    /// calibration; `true` when both completed.
    fn calibrate(&mut self) -> (done: bool)
        requires
            old(self).wf(),
        ensures
            final(self).wf(),
            final(self).is_ready() == old(self).is_ready(),
            final(self).stop_value() == old(self).stop_value(),
            exists|g: u8, p1: Seq<RegOp>, d1: bool, p2: Seq<RegOp>, d2: bool|
                #![trigger calibration_ops(g, p1, d1, p2, d2)]
                {
                    &&& polled(p1, RESULT_INTERRUPT_STATUS, 0x07, d1)
                    &&& d1 ==> polled(p2, RESULT_INTERRUPT_STATUS, 0x07, d2)
                    &&& done == (d1 && d2)
                    &&& final(self).ops() == old(self).ops() + calibration_ops(g, p1, d1, p2, d2)
                },
    {
        self.wr(SYSTEM_INTERRUPT_CONFIG_GPIO, 0x04);
        let g = self.rd(GPIO_HV_MUX_ACTIVE_HIGH);
        self.wr(GPIO_HV_MUX_ACTIVE_HIGH, g & !0x10u8);
        self.wr(SYSTEM_INTERRUPT_CLEAR, 0x01);
        self.wr(SYSTEM_SEQUENCE_CONFIG, 0x01);
        let ghost o6 = self.ops();
        let d1 = self.single_ref_cal(0x40);
        let ghost o7 = self.ops();
        let ghost p1 = choose|p1: Seq<RegOp>|
            #![trigger polled(p1, RESULT_INTERRUPT_STATUS, 0x07, d1)]
            polled(p1, RESULT_INTERRUPT_STATUS, 0x07, d1) && o7 == o6 + ref_cal_ops(0x40, p1, d1);
        if !d1 {
            assert(self.ops() =~= old(self).ops() + calibration_ops(g, p1, d1, p1, false));
            return false;
        }
        self.wr(SYSTEM_SEQUENCE_CONFIG, 0x02);
        let ghost o8 = self.ops();
        let d2 = self.single_ref_cal(0x00);
        let ghost o9 = self.ops();
        let ghost p2 = choose|p2: Seq<RegOp>|
            #![trigger polled(p2, RESULT_INTERRUPT_STATUS, 0x07, d2)]
            polled(p2, RESULT_INTERRUPT_STATUS, 0x07, d2) && o9 == o8 + ref_cal_ops(0x00, p2, d2);
        if !d2 {
            assert(self.ops() =~= old(self).ops() + calibration_ops(g, p1, d1, p2, d2));
            return false;
        }
        self.wr(SYSTEM_SEQUENCE_CONFIG, 0xE8);
        assert(self.ops() =~= old(self).ops() + calibration_ops(g, p1, d1, p2, d2));
        true
    }

    /// Starts the sensor up: checks the model ID (0xEE), sets 2V8 mode and
    /// standard I2C mode, saves the stop variable, sets up the reference
    /// SPADs, loads the tuning settings, routes the new-sample interrupt
    /// and runs the VHV and phase calibrations. `true` (and ready) when all
    /// of it went through.
    pub fn init(&mut self) -> (res: bool)
        requires
            old(self).wf(),
        ensures
            final(self).wf(),
            res ==> final(self).is_ready(),
            !res ==> final(self).is_ready() == old(self).is_ready(),
            exists|id: u8|
                #![trigger r(IDENTIFICATION_MODEL_ID, id)]
                {
                    &&& id != MODEL_ID ==> !res && final(self).ops() == old(self).ops().push(
                        r(IDENTIFICATION_MODEL_ID, id),
                    ) && final(self).stop_value() == old(self).stop_value()
                    &&& id == MODEL_ID ==> start_up(
                        old(self).ops(),
                        final(self).ops(),
                        final(self).stop_value(),
                        res,
                    )
                },
    {
        let id = self.rd(IDENTIFICATION_MODEL_ID);
        if id != MODEL_ID {
            return false;
        }
        let ghost o1 = self.ops();
        self.set_up();
        let ghost o2 = self.ops();
        let ghost stop = self.stop_value();
        let ghost (v, m) = choose|v: u8, m: u8|
            #![trigger setup_ops(v, stop, m)]
            o2 == o1 + setup_ops(v, stop, m);
        let (spad_count, is_aperture) = self.get_spad_info();
        let ghost o3 = self.ops();
        let ghost (a, p, pd, tmp, b) = choose|a: u8, p: Seq<RegOp>, pd: bool, tmp: u8, b: u8|
            #![trigger spad_info_head(a), polled(p, 0x83, 0xFF, pd), spad_info_tail(tmp, b)]
            polled(p, 0x83, 0xFF, pd) && o3 == o2 + spad_info_head(a) + p + spad_info_tail(tmp, b)
                && (spad_count, is_aperture) == spad_info(tmp);
        self.set_reference_spads(spad_count, is_aperture);
        let ghost o4 = self.ops();
        let ghost (map, sel) = choose|map: Seq<u8>, sel: Seq<u8>|
            #![trigger spad_map_ops(map, spad_count, sel)]
            map.len() == 6 && spads_selected(map, spad_count, is_aperture, sel) && o4 == o3
                + spad_map_ops(map, spad_count, sel);
        self.load_tuning();
        let ghost o5 = self.ops();
        let done = self.calibrate();
        let ghost (g, p1, d1, p2, d2) = choose|
            g: u8,
            p1: Seq<RegOp>,
            d1: bool,
            p2: Seq<RegOp>,
            d2: bool,
        |
            #![trigger calibration_ops(g, p1, d1, p2, d2)]
            polled(p1, RESULT_INTERRUPT_STATUS, 0x07, d1) && (d1 ==> polled(
                p2,
                RESULT_INTERRUPT_STATUS,
                0x07,
                d2,
            )) && done == (d1 && d2) && self.ops() == o5 + calibration_ops(g, p1, d1, p2, d2);
        if done {
            self.ready = true;
        }
        proof {
            assert(self.ops() =~= old(self).ops() + seq![r(IDENTIFICATION_MODEL_ID, MODEL_ID)]
                + setup_ops(v, stop, m) + spad_info_head(a) + p + spad_info_tail(tmp, b)
                + spad_map_ops(map, spad_info(tmp).0, sel) + tuning_ops() + calibration_ops(
                g,
                p1,
                d1,
                p2,
                d2,
            ));
            assert(start_up(old(self).ops(), self.ops(), stop, done));
        }
        done
    }
}

} // verus!
