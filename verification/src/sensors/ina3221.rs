//! TI INA3221 triple-channel monitor of the three battery banks, on the
//! bit-banged I2C bus at address 0x40 (A0 to GND).
//!
//! It runs in bus-only mode: each channel has IN+ and IN- tied to the
//! bank's positive terminal, so no current flows through the on-board
//! 100 mΩ shunts (which could not take the motor currents) and the chip
//! measures the bus voltage of each bank against GND (0–26 V, 8 mV/LSB).
//! The die ID register reads 0x3220 and the manufacturer ID 0x5449 ("TI").

use vstd::prelude::*;

use crate::sensors::soft_i2c::{
    added, be16, reads_word, reg_read, reg_write, word_bytes, zeros, BusEvent, I2cLines,
    SoftI2C,
};

verus! {

/// Bus address (A0 to GND).
pub const INA3221_ADDR: u8 = 0x40;

pub const REG_CONFIG: u8 = 0x00;

pub const REG_BUS_CH1: u8 = 0x02;

pub const REG_BUS_CH2: u8 = 0x04;

pub const REG_BUS_CH3: u8 = 0x06;

pub const REG_MANUFACTURER: u8 = 0xFE;

pub const REG_DIE_ID: u8 = 0xFF;

/// Die ID that confirms the chip answers.
pub const DIE_ID_EXPECTED: u16 = 0x3220;

/// All three channels, 64-sample averaging, 1.1 ms conversions, continuous
/// bus-voltage-only mode (no shunt measurement).
pub const CONFIG_BUS_ONLY: u16 = 0x7726;

/// Millivolts of a bus-voltage register: bits 14..3 hold the reading with
/// an 8 mV LSB, so the register with the sign bit and the three reserved
/// low bits cleared is the voltage in mV.
pub open spec fn bus_mv(raw: u16) -> u16 {
    raw & 0x7FF8
}

/// Bus-voltage monitor of the three battery banks.
pub struct INA3221<L> {
    i2c: SoftI2C<L>,
    /// Set once `init` has seen the right die ID.
    pub ready: bool,
}

impl<L: I2cLines> INA3221<L> {
    /// What went over the bus.
    pub closed spec fn bus(&self) -> Seq<BusEvent> {
        self.i2c.trace()
    }

    /// The bus traffic matches what went over the lines.
    pub closed spec fn lines_ok(&self) -> bool {
        self.i2c.lines_match()
    }

    pub closed spec fn is_ready(&self) -> bool {
        self.ready
    }

    /// A monitor on the given bus lines, not yet initialised.
    pub fn new(lines: L) -> (r: Self)
        ensures
            r.bus() == Seq::<BusEvent>::empty(),
            r.lines_ok(),
            !r.is_ready(),
    {
        INA3221 { i2c: SoftI2C::new(lines), ready: false }
    }

    fn wr16(&mut self, reg: u8, val: u16)
        ensures
            old(self).bus().is_prefix_of(final(self).bus()),
            old(self).lines_ok() ==> final(self).lines_ok(),
            reg_write(INA3221_ADDR, reg, word_bytes(val), added(old(self).bus(), final(self).bus())),
            final(self).is_ready() == old(self).is_ready(),
    {
        let data = [(val >> 8u16) as u8, val as u8];
        assert(data@ =~= word_bytes(val));
        let ok = self.i2c.write(INA3221_ADDR, reg, &data);
        assert(reg_write(INA3221_ADDR, reg, word_bytes(val), added(old(self).bus(), self.bus())))
            by {
            assert(super::soft_i2c::write_tx(
                INA3221_ADDR,
                seq![reg],
                word_bytes(val),
                added(old(self).bus(), self.bus()),
                ok,
            ));
        }
    }

    fn rd16(&mut self, reg: u8) -> (v: u16)
        ensures
            old(self).bus().is_prefix_of(final(self).bus()),
            old(self).lines_ok() ==> final(self).lines_ok(),
            reads_word(INA3221_ADDR, reg, v, added(old(self).bus(), final(self).bus())),
            final(self).is_ready() == old(self).is_ready(),
    {
        let mut buf = [0u8; 2];
        assert(buf@ =~= zeros(2));
        let ok = self.i2c.read(INA3221_ADDR, reg, &mut buf);
        let hi = buf[0];
        let lo = buf[1];
        let v = ((hi as u16) << 8u16) | lo as u16;
        assert(v == be16(hi, lo)) by (bit_vector)
            requires
                v == ((hi as u16) << 8u16) | lo as u16,
        ;
        assert(reg_read(INA3221_ADDR, reg, buf@, added(old(self).bus(), self.bus()))) by {
            assert(super::soft_i2c::read_tx(
                INA3221_ADDR,
                seq![reg],
                buf@,
                zeros(2),
                added(old(self).bus(), self.bus()),
                ok,
            ));
        }
        v
    }

    /// Checks the die ID and, when it is 0x3220, sets continuous bus-only
    /// measurement on the three channels. `true` when the chip answered
    /// with the right ID.
    pub fn init(&mut self) -> (r: bool)
        ensures
            old(self).bus().is_prefix_of(final(self).bus()),
            old(self).lines_ok() ==> final(self).lines_ok(),
            exists|id: u16, e1: Seq<BusEvent>|
                #![trigger reads_word(INA3221_ADDR, REG_DIE_ID, id, e1)]
                {
                    &&& reads_word(INA3221_ADDR, REG_DIE_ID, id, e1)
                    &&& e1.is_prefix_of(added(old(self).bus(), final(self).bus()))
                    &&& r == (id == DIE_ID_EXPECTED)
                    &&& !r ==> added(old(self).bus(), final(self).bus()) == e1
                        && final(self).is_ready() == old(self).is_ready()
                    &&& r ==> final(self).is_ready() && reg_write(
                        INA3221_ADDR,
                        REG_CONFIG,
                        word_bytes(CONFIG_BUS_ONLY),
                        added(old(self).bus(), final(self).bus()).skip(e1.len() as int),
                    )
                },
    {
        let ghost t0 = self.bus();
        let id = self.rd16(REG_DIE_ID);
        let ghost t1 = self.bus();
        if id != DIE_ID_EXPECTED {
            return false;
        }
        self.wr16(REG_CONFIG, CONFIG_BUS_ONLY);
        self.ready = true;
        proof {
            super::soft_i2c::lemma_added_chain(t0, t1, self.bus());
            assert(added(t0, self.bus()).skip(added(t0, t1).len() as int) =~= added(t1, self.bus()));
            assert(added(t0, t1).is_prefix_of(added(t0, self.bus())));
        }
        true
    }

    /// The manufacturer ID register (0x5449, "TI").
    pub fn read_manufacturer_id(&mut self) -> (v: u16)
        ensures
            old(self).bus().is_prefix_of(final(self).bus()),
            old(self).lines_ok() ==> final(self).lines_ok(),
            reads_word(INA3221_ADDR, REG_MANUFACTURER, v, added(old(self).bus(), final(self).bus())),
            final(self).is_ready() == old(self).is_ready(),
    {
        self.rd16(REG_MANUFACTURER)
    }

    /// The die ID register (0x3220).
    pub fn read_die_id(&mut self) -> (v: u16)
        ensures
            old(self).bus().is_prefix_of(final(self).bus()),
            old(self).lines_ok() ==> final(self).lines_ok(),
            reads_word(INA3221_ADDR, REG_DIE_ID, v, added(old(self).bus(), final(self).bus())),
            final(self).is_ready() == old(self).is_ready(),
    {
        self.rd16(REG_DIE_ID)
    }

    /// Millivolts of a raw bus-voltage register.
    pub fn raw_to_mv(raw: u16) -> (mv: u16)
        ensures
            mv == bus_mv(raw),
    {
        raw & 0x7FF8u16
    }

    /// Voltage of the bank on `reg`, in mV.
    fn read_bank_mv(&mut self, reg: u8) -> (mv: u16)
        ensures
            old(self).bus().is_prefix_of(final(self).bus()),
            old(self).lines_ok() ==> final(self).lines_ok(),
            exists|raw: u16|
                #![trigger reads_word(INA3221_ADDR, reg, raw, added(old(self).bus(), final(self).bus()))]
                reads_word(INA3221_ADDR, reg, raw, added(old(self).bus(), final(self).bus()))
                    && mv == bus_mv(raw),
            final(self).is_ready() == old(self).is_ready(),
    {
        let raw = self.rd16(reg);
        Self::raw_to_mv(raw)
    }

    /// Voltage of bank 1 (channel 1), in mV.
    pub fn read_bank1_mv(&mut self) -> (mv: u16)
        ensures
            old(self).bus().is_prefix_of(final(self).bus()),
            old(self).lines_ok() ==> final(self).lines_ok(),
            exists|raw: u16|
                #![trigger reads_word(INA3221_ADDR, REG_BUS_CH1, raw, added(old(self).bus(), final(self).bus()))]
                reads_word(INA3221_ADDR, REG_BUS_CH1, raw, added(old(self).bus(), final(self).bus()))
                    && mv == bus_mv(raw),
            final(self).is_ready() == old(self).is_ready(),
    {
        self.read_bank_mv(REG_BUS_CH1)
    }

    /// Voltage of bank 2 (channel 2), in mV.
    pub fn read_bank2_mv(&mut self) -> (mv: u16)
        ensures
            old(self).bus().is_prefix_of(final(self).bus()),
            old(self).lines_ok() ==> final(self).lines_ok(),
            exists|raw: u16|
                #![trigger reads_word(INA3221_ADDR, REG_BUS_CH2, raw, added(old(self).bus(), final(self).bus()))]
                reads_word(INA3221_ADDR, REG_BUS_CH2, raw, added(old(self).bus(), final(self).bus()))
                    && mv == bus_mv(raw),
            final(self).is_ready() == old(self).is_ready(),
    {
        self.read_bank_mv(REG_BUS_CH2)
    }

    /// Voltage of bank 3 (channel 3), in mV.
    pub fn read_bank3_mv(&mut self) -> (mv: u16)
        ensures
            old(self).bus().is_prefix_of(final(self).bus()),
            old(self).lines_ok() ==> final(self).lines_ok(),
            exists|raw: u16|
                #![trigger reads_word(INA3221_ADDR, REG_BUS_CH3, raw, added(old(self).bus(), final(self).bus()))]
                reads_word(INA3221_ADDR, REG_BUS_CH3, raw, added(old(self).bus(), final(self).bus()))
                    && mv == bus_mv(raw),
            final(self).is_ready() == old(self).is_ready(),
    {
        self.read_bank_mv(REG_BUS_CH3)
    }

    /// The three banks, `[bank 1, bank 2, bank 3]` in mV, read in that order.
    pub fn read_all_mv(&mut self) -> (v: [u16; 3])
        ensures
            old(self).bus().is_prefix_of(final(self).bus()),
            old(self).lines_ok() ==> final(self).lines_ok(),
            exists|r1: u16, r2: u16, r3: u16, e1: Seq<BusEvent>, e2: Seq<BusEvent>, e3: Seq<BusEvent>|
                #![trigger reads_word(INA3221_ADDR, REG_BUS_CH1, r1, e1), reads_word(INA3221_ADDR, REG_BUS_CH2, r2, e2), reads_word(INA3221_ADDR, REG_BUS_CH3, r3, e3)]
                {
                    &&& reads_word(INA3221_ADDR, REG_BUS_CH1, r1, e1)
                    &&& reads_word(INA3221_ADDR, REG_BUS_CH2, r2, e2)
                    &&& reads_word(INA3221_ADDR, REG_BUS_CH3, r3, e3)
                    &&& added(old(self).bus(), final(self).bus()) == e1 + e2 + e3
                    &&& v@ == seq![bus_mv(r1), bus_mv(r2), bus_mv(r3)]
                },
            final(self).is_ready() == old(self).is_ready(),
    {
        let ghost t0 = self.bus();
        let b1 = self.read_bank1_mv();
        let ghost t1 = self.bus();
        let b2 = self.read_bank2_mv();
        let ghost t2 = self.bus();
        let b3 = self.read_bank3_mv();
        proof {
            super::soft_i2c::lemma_added_chain(t0, t1, t2);
            super::soft_i2c::lemma_added_chain(t0, t2, self.bus());
            let r1 = choose|raw: u16| reads_word(INA3221_ADDR, REG_BUS_CH1, raw, added(t0, t1)) && b1 == bus_mv(raw);
            let r2 = choose|raw: u16| reads_word(INA3221_ADDR, REG_BUS_CH2, raw, added(t1, t2)) && b2 == bus_mv(raw);
            let r3 = choose|raw: u16| reads_word(INA3221_ADDR, REG_BUS_CH3, raw, added(t2, self.bus())) && b3 == bus_mv(raw);
            assert(reads_word(INA3221_ADDR, REG_BUS_CH1, r1, added(t0, t1)));
            assert(reads_word(INA3221_ADDR, REG_BUS_CH2, r2, added(t1, t2)));
            assert(reads_word(INA3221_ADDR, REG_BUS_CH3, r3, added(t2, self.bus())));
        }
        let v = [b1, b2, b3];
        assert(v@ =~= seq![b1, b2, b3]);
        v
    }
}

impl<L: I2cLines + Default> Default for INA3221<L> {
    /// A monitor on default-constructed bus lines, not yet initialised.
    fn default() -> (r: Self)
        ensures
            r.bus() == Seq::<BusEvent>::empty(),
            !r.is_ready(),
    {
        Self::new(L::default())
    }
}

} // verus!
