//! TI INA226 current, voltage and power monitor on the bit-banged I2C bus
//! (address 0x40, A0 and A1 to GND), measuring the battery bus and the
//! total current through an external shunt.
//!
//! Calibration fixes Current_LSB = 1 mA, so the CURRENT register reads in
//! mA directly: CAL = 5120 / shunt (shunt in mΩ, integer division).

use vstd::prelude::*;

use crate::sensors::soft_i2c::{
    added, be16, reads_word, read_tx, reg_read, reg_write, word_bytes, write_tx, zeros, BusEvent,
    I2cLines, SoftI2C,
};

verus! {

/// Bus address (A0 and A1 to GND).
pub const INA226_ADDR: u8 = 0x40;

pub const REG_CONFIG: u8 = 0x00;

pub const REG_VBUS: u8 = 0x02;

pub const REG_POWER: u8 = 0x03;

pub const REG_CURRENT: u8 = 0x04;

pub const REG_CAL: u8 = 0x05;

pub const REG_DIE_ID: u8 = 0xFF;

/// Die ID that confirms the chip answers.
pub const INA226_DIE_ID: u16 = 0x2260;

/// Power-on default: 4 averages, 140 µs conversions, continuous shunt and
/// bus measurement.
pub const CONFIG_CONTINUOUS: u16 = 0x4127;

/// Calibration value for a shunt of `shunt_mohm` mΩ.
pub open spec fn calibration(shunt_mohm: u16) -> u16 {
    (5120int / (shunt_mohm as int)) as u16
}

/// Bus voltage in mV of a VBUS register (1.25 mV LSB), kept to 16 bits.
pub open spec fn vbus_mv(raw: u16) -> u16 {
    (raw * 5 / 4) as u16
}

/// Signed current in mA of a CURRENT register (two's complement).
pub open spec fn current_ma(raw: u16) -> i32 {
    if raw < 0x8000 {
        raw as i32
    } else {
        (raw - 0x10000) as i32
    }
}

/// Power in mW of a POWER register (25 mW LSB).
pub open spec fn power_mw(raw: u16) -> u32 {
    (raw * 25) as u32
}

/// Current, voltage and power monitor.
pub struct INA226<L> {
    i2c: SoftI2C<L>,
    /// Set once `init` has seen the right die ID.
    pub ready: bool,
}

impl<L: I2cLines> INA226<L> {
    /// What went over the bus.
    pub closed spec fn bus(&self) -> Seq<BusEvent> {
        self.i2c.trace()
    }

    /// The bus traffic matches what went over the lines.
    pub closed spec fn lines_ok(&self) -> bool {
        self.i2c.lines_match()
    }

    pub closed spec fn is_ready(&self) -> bool {
        self.ready
    }

    /// A monitor on the given bus lines, not yet initialised.
    pub fn new(lines: L) -> (r: Self)
        ensures
            r.bus() == Seq::<BusEvent>::empty(),
            r.lines_ok(),
            !r.is_ready(),
    {
        INA226 { i2c: SoftI2C::new(lines), ready: false }
    }

    fn wr16(&mut self, reg: u8, val: u16)
        ensures
            old(self).bus().is_prefix_of(final(self).bus()),
            old(self).lines_ok() ==> final(self).lines_ok(),
            reg_write(INA226_ADDR, reg, word_bytes(val), added(old(self).bus(), final(self).bus())),
            final(self).is_ready() == old(self).is_ready(),
    {
        let data = [(val >> 8u16) as u8, val as u8];
        assert(data@ =~= word_bytes(val));
        let ok = self.i2c.write(INA226_ADDR, reg, &data);
        assert(write_tx(
            INA226_ADDR,
            seq![reg],
            word_bytes(val),
            added(old(self).bus(), self.bus()),
            ok,
        ));
    }

    fn rd16(&mut self, reg: u8) -> (v: u16)
        ensures
            old(self).bus().is_prefix_of(final(self).bus()),
            old(self).lines_ok() ==> final(self).lines_ok(),
            reads_word(INA226_ADDR, reg, v, added(old(self).bus(), final(self).bus())),
            final(self).is_ready() == old(self).is_ready(),
    {
        let mut buf = [0u8; 2];
        assert(buf@ =~= zeros(2));
        let ok = self.i2c.read(INA226_ADDR, reg, &mut buf);
        let hi = buf[0];
        let lo = buf[1];
        let v = ((hi as u16) << 8u16) | lo as u16;
        assert(v == be16(hi, lo)) by (bit_vector)
            requires
                v == ((hi as u16) << 8u16) | lo as u16,
        ;
        assert(read_tx(
            INA226_ADDR,
            seq![reg],
            buf@,
            zeros(2),
            added(old(self).bus(), self.bus()),
            ok,
        ));
        assert(reg_read(INA226_ADDR, reg, buf@, added(old(self).bus(), self.bus())));
        v
    }

    /// Checks the die ID and, when it is 0x2260, sets continuous
    /// measurement and writes the calibration for a shunt of `shunt_mohm`
    /// mΩ. `true` when the chip answered with the right ID.
    pub fn init(&mut self, shunt_mohm: u16) -> (r: bool)
        requires
            shunt_mohm > 0,
        ensures
            old(self).bus().is_prefix_of(final(self).bus()),
            old(self).lines_ok() ==> final(self).lines_ok(),
            exists|id: u16, e1: Seq<BusEvent>|
                #![trigger reads_word(INA226_ADDR, REG_DIE_ID, id, e1)]
                {
                    &&& reads_word(INA226_ADDR, REG_DIE_ID, id, e1)
                    &&& e1.is_prefix_of(added(old(self).bus(), final(self).bus()))
                    &&& r == (id == INA226_DIE_ID)
                    &&& !r ==> added(old(self).bus(), final(self).bus()) == e1
                        && final(self).is_ready() == old(self).is_ready()
                    &&& r ==> final(self).is_ready() && exists|e2: Seq<BusEvent>, e3: Seq<BusEvent>|
                        #![trigger reg_write(INA226_ADDR, REG_CONFIG, word_bytes(CONFIG_CONTINUOUS), e2), reg_write(INA226_ADDR, REG_CAL, word_bytes(calibration(shunt_mohm)), e3)]
                        reg_write(INA226_ADDR, REG_CONFIG, word_bytes(CONFIG_CONTINUOUS), e2)
                            && reg_write(INA226_ADDR, REG_CAL, word_bytes(calibration(shunt_mohm)), e3)
                            && added(old(self).bus(), final(self).bus()) == e1 + e2 + e3
                },
    {
        let ghost t0 = self.bus();
        let id = self.rd16(REG_DIE_ID);
        let ghost t1 = self.bus();
        if id != INA226_DIE_ID {
            return false;
        }
        self.wr16(REG_CONFIG, CONFIG_CONTINUOUS);
        let ghost t2 = self.bus();
        let cal = (5120u32 / shunt_mohm as u32) as u16;
        self.wr16(REG_CAL, cal);
        self.ready = true;
        proof {
            super::soft_i2c::lemma_added_chain(t0, t1, t2);
            super::soft_i2c::lemma_added_chain(t0, t2, self.bus());
            assert(reg_write(INA226_ADDR, REG_CAL, word_bytes(calibration(shunt_mohm)), added(t2, self.bus())));
            assert(added(t0, t1).is_prefix_of(added(t0, self.bus())));
        }
        true
    }

    /// Bus voltage in mV.
    pub fn read_bus_mv(&mut self) -> (mv: u16)
        ensures
            old(self).bus().is_prefix_of(final(self).bus()),
            old(self).lines_ok() ==> final(self).lines_ok(),
            exists|raw: u16|
                #![trigger reads_word(INA226_ADDR, REG_VBUS, raw, added(old(self).bus(), final(self).bus()))]
                reads_word(INA226_ADDR, REG_VBUS, raw, added(old(self).bus(), final(self).bus()))
                    && mv == vbus_mv(raw),
            final(self).is_ready() == old(self).is_ready(),
    {
        let raw = self.rd16(REG_VBUS);
        (raw as u32 * 5 / 4) as u16
    }

    /// Signed current in mA; negative when the current flows back into the
    /// battery.
    pub fn read_current_ma(&mut self) -> (ma: i32)
        ensures
            old(self).bus().is_prefix_of(final(self).bus()),
            old(self).lines_ok() ==> final(self).lines_ok(),
            exists|raw: u16|
                #![trigger reads_word(INA226_ADDR, REG_CURRENT, raw, added(old(self).bus(), final(self).bus()))]
                reads_word(INA226_ADDR, REG_CURRENT, raw, added(old(self).bus(), final(self).bus()))
                    && ma == current_ma(raw),
            final(self).is_ready() == old(self).is_ready(),
    {
        let raw = self.rd16(REG_CURRENT);
        let ma = raw as i16 as i32;
        assert(ma == current_ma(raw)) by (bit_vector)
            requires
                ma == raw as i16 as i32,
        ;
        ma
    }

    /// Power in mW.
    pub fn read_power_mw(&mut self) -> (mw: u32)
        ensures
            old(self).bus().is_prefix_of(final(self).bus()),
            old(self).lines_ok() ==> final(self).lines_ok(),
            exists|raw: u16|
                #![trigger reads_word(INA226_ADDR, REG_POWER, raw, added(old(self).bus(), final(self).bus()))]
                reads_word(INA226_ADDR, REG_POWER, raw, added(old(self).bus(), final(self).bus()))
                    && mw == power_mw(raw),
            final(self).is_ready() == old(self).is_ready(),
    {
        let raw = self.rd16(REG_POWER);
        raw as u32 * 25
    }
}


/// Power law: the POWER register counts 25 mW steps, so the power is
/// `raw × 25` mW for every 16-bit value, with no wrap-around, and a larger
/// register value never reads as less power.
pub proof fn law_power_scale(raw: u16, more: u16)
    ensures
        power_mw(raw) as int == raw * 25,
        raw <= more ==> power_mw(raw) <= power_mw(more),
{
}


/// Register law: the bus voltage is 1.25 mV per step (exact while it fits
/// 16 bits), and the current register is a two's-complement count: the
/// current lies in −32 768 … 32 767 mA and is the register value modulo
/// 2^16.
pub proof fn law_register_scales(raw: u16)
    ensures
        raw <= 52428 ==> vbus_mv(raw) as int == raw * 5 / 4,
        -32768 <= current_ma(raw) <= 32767,
        (current_ma(raw) + 65536) % 65536 == raw as int,
        raw < 0x8000 <==> current_ma(raw) >= 0,
{
}

} // verus!
