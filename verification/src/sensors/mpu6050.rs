//! InvenSense MPU-6050 six-axis accelerometer and gyroscope on the
//! bit-banged I2C bus (address 0x68, or 0x69 with AD0 high).
//!
//! Set up for ±2 g, ±250 °/s and a ~44 Hz low-pass filter; the raw
//! readings are the seven big-endian words from ACCEL_XOUT_H on.

use vstd::prelude::*;

use crate::sensors::soft_i2c::{
    added, lemma_added_chain, lemma_reg_writes_push, read_tx, reg_write, reg_writes, write_tx,
    zeros, BusEvent, I2cLines, SoftI2C,
};

verus! {

/// Default bus address (AD0 to GND).
pub const MPU6050_ADDR: u8 = 0x68;

/// Bus address with AD0 high.
pub const MPU6050_ALT_ADDR: u8 = 0x69;

pub const REG_CONFIG: u8 = 0x1A;

pub const REG_GYRO_CONFIG: u8 = 0x1B;

pub const REG_ACCEL_CONFIG: u8 = 0x1C;

pub const REG_ACCEL_XOUT_H: u8 = 0x3B;

pub const REG_PWR_MGMT_1: u8 = 0x6B;

pub const REG_WHO_AM_I: u8 = 0x75;

/// Raw sample: Ax, Ay, Az, temperature, Gx, Gy, Gz.
pub type RawSample = (i16, i16, i16, i16, i16, i16, i16);

/// Two's-complement value of a big-endian word.
pub open spec fn word_i16(hi: u8, lo: u8) -> i16 {
    if hi < 128 {
        (hi * 256 + lo) as i16
    } else {
        (hi * 256 + lo - 65536) as i16
    }
}

/// The seven words of a 14-byte burst.
pub open spec fn decode_sample(b: Seq<u8>) -> RawSample {
    (
        word_i16(b[0], b[1]),
        word_i16(b[2], b[3]),
        word_i16(b[4], b[5]),
        word_i16(b[6], b[7]),
        word_i16(b[8], b[9]),
        word_i16(b[10], b[11]),
        word_i16(b[12], b[13]),
    )
}

/// Register writes that wake the chip and set its ranges and filter:
/// PWR_MGMT_1 = 0, GYRO_CONFIG = 0 (±250 °/s), ACCEL_CONFIG = 0 (±2 g),
/// CONFIG = 3 (~44 Hz).
pub open spec fn setup_writes() -> Seq<(u8, u8)> {
    seq![(REG_PWR_MGMT_1, 0u8), (REG_GYRO_CONFIG, 0u8), (REG_ACCEL_CONFIG, 0u8), (REG_CONFIG, 3u8)]
}

/// `ext` reads WHO_AM_I at `addr`; `b` is the byte read, or 0 when the
/// read failed.
pub open spec fn probes(addr: u8, b: u8, ext: Seq<BusEvent>) -> bool {
    exists|d: Seq<u8>, ok: bool|
        #![trigger read_tx(addr, seq![REG_WHO_AM_I], d, seq![0u8], ext, ok)]
        d.len() == 1 && read_tx(addr, seq![REG_WHO_AM_I], d, seq![0u8], ext, ok) && b == (if ok {
            d[0]
        } else {
            0u8
        })
}

/// Inertial measurement unit.
pub struct MPU6050<L> {
    i2c: SoftI2C<L>,
    /// Set once `init` has found the chip.
    pub ready: bool,
    addr: u8,
}

/// Big-endian word of two bytes, as a signed value.
fn word(hi: u8, lo: u8) -> (v: i16)
    ensures
        v == word_i16(hi, lo),
{
    let u = ((hi as u16) << 8u16) | lo as u16;
    let v = u as i16;
    assert(v == word_i16(hi, lo)) by (bit_vector)
        requires
            v == (((hi as u16) << 8u16) | lo as u16) as i16,
    ;
    v
}

impl<L: I2cLines> MPU6050<L> {
    /// What went over the bus.
    pub closed spec fn bus(&self) -> Seq<BusEvent> {
        self.i2c.trace()
    }

    /// The bus traffic matches what went over the lines.
    pub closed spec fn lines_ok(&self) -> bool {
        self.i2c.lines_match()
    }

    pub closed spec fn is_ready(&self) -> bool {
        self.ready
    }

    /// Bus address in use.
    pub closed spec fn address(&self) -> u8 {
        self.addr
    }

    /// A sensor on the given bus lines at the default address, not yet
    /// initialised.
    pub fn new(lines: L) -> (r: Self)
        ensures
            r.bus() == Seq::<BusEvent>::empty(),
            r.lines_ok(),
            !r.is_ready(),
            r.address() == MPU6050_ADDR,
    {
        MPU6050 { i2c: SoftI2C::new(lines), ready: false, addr: MPU6050_ADDR }
    }

    /// Reads WHO_AM_I at `candidate`; when the read succeeds with a
    /// non-zero byte, takes that address, writes the set-up registers and
    /// returns the byte, else returns 0 and changes nothing else.
    fn probe(&mut self, candidate: u8) -> (r: u8)
        ensures
            old(self).bus().is_prefix_of(final(self).bus()),
            old(self).lines_ok() ==> final(self).lines_ok(),
            exists|e1: Seq<BusEvent>|
                #![trigger probes(candidate, r, e1)]
                {
                    &&& probes(candidate, r, e1)
                    &&& e1.is_prefix_of(added(old(self).bus(), final(self).bus()))
                    &&& r == 0 ==> added(old(self).bus(), final(self).bus()) == e1
                        && final(self).is_ready() == old(self).is_ready()
                        && final(self).address() == old(self).address()
                    &&& r != 0 ==> final(self).is_ready() && final(self).address() == candidate
                        && reg_writes(
                        candidate,
                        setup_writes(),
                        added(old(self).bus(), final(self).bus()).skip(e1.len() as int),
                    )
                },
    {
        let ghost t0 = self.bus();
        let mut who_am_i = [0u8; 1];
        let ghost zero = who_am_i@;
        let ok = self.i2c.read(candidate, REG_WHO_AM_I, &mut who_am_i);
        let ghost t1 = self.bus();
        proof {
            assert(zero =~= seq![0u8]);
            assert(read_tx(candidate, seq![REG_WHO_AM_I], who_am_i@, seq![0u8], added(t0, t1), ok));
        }
        if !(ok && who_am_i[0] != 0) {
            proof {
                assert(probes(candidate, 0u8, added(t0, t1)));
                assert(added(t0, t1).is_prefix_of(added(t0, t1)));
            }
            return 0;
        }
        let who = who_am_i[0];
        proof {
            assert(probes(candidate, who, added(t0, t1)));
            assert(reg_writes(candidate, Seq::<(u8, u8)>::empty(), added(t1, t1)));
        }
        self.addr = candidate;
        let pairs: [(u8, u8); 4] = [
            (REG_PWR_MGMT_1, 0u8),
            (REG_GYRO_CONFIG, 0u8),
            (REG_ACCEL_CONFIG, 0u8),
            (REG_CONFIG, 3u8),
        ];
        let mut i: usize = 0;
        while i < 4
            invariant
                i <= 4,
                pairs@ == setup_writes(),
                t1.is_prefix_of(self.bus()),
                self.addr == candidate,
                reg_writes(candidate, setup_writes().take(i as int), added(t1, self.bus())),
                old(self).lines_ok() ==> self.lines_ok(),
            decreases 4 - i,
        {
            let ghost before = self.bus();
            let (reg, val) = pairs[i];
            let data = [val];
            let w = self.i2c.write(self.addr, reg, &data);
            proof {
                assert(data@ =~= seq![val]);
                assert(write_tx(candidate, seq![reg], seq![val], added(before, self.bus()), w));
                lemma_reg_writes_push(
                    candidate,
                    setup_writes().take(i as int),
                    added(t1, before),
                    reg,
                    val,
                    added(before, self.bus()),
                );
                lemma_added_chain(t1, before, self.bus());
                assert(setup_writes().take(i as int).push((reg, val)) =~= setup_writes().take(
                    i + 1,
                ));
            }
            i = i + 1;
        }
        self.ready = true;
        proof {
            assert(setup_writes().take(4) =~= setup_writes());
            lemma_added_chain(t0, t1, self.bus());
            assert(added(t0, self.bus()).skip(added(t0, t1).len() as int) =~= added(t1, self.bus()));
            assert(added(t0, t1).is_prefix_of(added(t0, self.bus())));
        }
        who
    }

    /// Looks for the chip at 0x68, then at 0x69. Returns the WHO_AM_I byte
    /// read (any non-zero value is accepted, for clones), or 0 when neither
    /// address answered; on success the address is kept and the chip is
    /// woken and configured.
    pub fn init(&mut self) -> (r: u8)
        ensures
            old(self).bus().is_prefix_of(final(self).bus()),
            old(self).lines_ok() ==> final(self).lines_ok(),
            exists|b1: u8, e1: Seq<BusEvent>|
                #![trigger probes(MPU6050_ADDR, b1, e1)]
                {
                    &&& probes(MPU6050_ADDR, b1, e1)
                    &&& e1.is_prefix_of(added(old(self).bus(), final(self).bus()))
                    &&& b1 != 0 ==> r == b1 && final(self).is_ready() && final(self).address()
                        == MPU6050_ADDR && reg_writes(
                        MPU6050_ADDR,
                        setup_writes(),
                        added(old(self).bus(), final(self).bus()).skip(e1.len() as int),
                    )
                    &&& b1 == 0 ==> exists|e2: Seq<BusEvent>|
                        #![trigger probes(MPU6050_ALT_ADDR, r, e2)]
                        {
                            &&& probes(MPU6050_ALT_ADDR, r, e2)
                            &&& (e1 + e2).is_prefix_of(added(old(self).bus(), final(self).bus()))
                            &&& r == 0 ==> added(old(self).bus(), final(self).bus()) == e1 + e2
                                && final(self).is_ready() == old(self).is_ready()
                                && final(self).address() == old(self).address()
                            &&& r != 0 ==> final(self).is_ready() && final(self).address()
                                == MPU6050_ALT_ADDR && reg_writes(
                                MPU6050_ALT_ADDR,
                                setup_writes(),
                                added(old(self).bus(), final(self).bus()).skip(
                                    (e1 + e2).len() as int,
                                ),
                            )
                        }
                },
    {
        let ghost t0 = self.bus();
        let w = self.probe(MPU6050_ADDR);
        if w != 0 {
            return w;
        }
        let ghost t1 = self.bus();
        let w2 = self.probe(MPU6050_ALT_ADDR);
        proof {
            lemma_added_chain(t0, t1, self.bus());
            let e1 = added(t0, t1);
            let e2 = choose|e2: Seq<BusEvent>|
                #![trigger probes(MPU6050_ALT_ADDR, w2, e2)]
                probes(MPU6050_ALT_ADDR, w2, e2) && e2.is_prefix_of(added(t1, self.bus())) && (w2
                    == 0 ==> added(t1, self.bus()) == e2 && self.is_ready() == old(self).is_ready()
                    && self.address() == old(self).address()) && (w2 != 0 ==> self.is_ready()
                    && self.address() == MPU6050_ALT_ADDR && reg_writes(
                    MPU6050_ALT_ADDR,
                    setup_writes(),
                    added(t1, self.bus()).skip(e2.len() as int),
                ));
            assert(added(t0, self.bus()).skip((e1 + e2).len() as int) =~= added(t1, self.bus()).skip(
                e2.len() as int,
            ));
            assert((e1 + e2).is_prefix_of(added(t0, self.bus())));
            assert(probes(MPU6050_ALT_ADDR, w2, e2));
        }
        w2
    }

    /// The seven raw words, or `None` before a successful `init` (nothing
    /// is sent then) or when the burst read fails.
    pub fn read_raw(&mut self) -> (r: Option<RawSample>)
        ensures
            final(self).is_ready() == old(self).is_ready(),
            final(self).address() == old(self).address(),
            old(self).bus().is_prefix_of(final(self).bus()),
            old(self).lines_ok() ==> final(self).lines_ok(),
            !old(self).is_ready() ==> r is None && final(self).bus() == old(self).bus(),
            old(self).is_ready() ==> exists|d: Seq<u8>, ok: bool|
                #![trigger read_tx(old(self).address(), seq![REG_ACCEL_XOUT_H], d, zeros(14), added(old(self).bus(), final(self).bus()), ok)]
                read_tx(
                    old(self).address(),
                    seq![REG_ACCEL_XOUT_H],
                    d,
                    zeros(14),
                    added(old(self).bus(), final(self).bus()),
                    ok,
                ) && r == (if ok {
                    Some(decode_sample(d))
                } else {
                    None
                }),
    {
        if !self.ready {
            return None;
        }
        let mut buf = [0u8; 14];
        assert(buf@ =~= zeros(14));
        let ok = self.i2c.read(self.addr, REG_ACCEL_XOUT_H, &mut buf);
        assert(read_tx(
            old(self).address(),
            seq![REG_ACCEL_XOUT_H],
            buf@,
            zeros(14),
            added(old(self).bus(), self.bus()),
            ok,
        ));
        if !ok {
            return None;
        }
        let ax = word(buf[0], buf[1]);
        let ay = word(buf[2], buf[3]);
        let az = word(buf[4], buf[5]);
        let t = word(buf[6], buf[7]);
        let gx = word(buf[8], buf[9]);
        let gy = word(buf[10], buf[11]);
        let gz = word(buf[12], buf[13]);
        assert(decode_sample(buf@) == (ax, ay, az, t, gx, gy, gz));
        Some((ax, ay, az, t, gx, gy, gz))
    }
}

} // verus!
