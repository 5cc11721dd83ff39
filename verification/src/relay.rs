//! Two-channel relay module (SRD-05VDC-SL-C) that connects the battery
//! banks to the H-bridges: IN1 (D40) switches bank 2, the primary bank;
//! IN2 (D41) switches bank 3, the back-up.
//!
//! The inputs are active low:
//!
//! | IN1  | IN2  | banks on          |
//! |------|------|-------------------|
//! | LOW  | HIGH | bank 2 (normal)   |
//! | HIGH | LOW  | bank 3 (failover) |
//! | LOW  | LOW  | both              |
//! | HIGH | HIGH | none (emergency)  |
//!
//! After a reset the pins are inputs, which the module reads as HIGH: the
//! motors stay without power until the firmware sets the pins.

use vstd::prelude::*;

use crate::state_machine::BankMode;

verus! {

/// Levels of IN1 and IN2 (`true` = HIGH) that select `mode`.
pub open spec fn relay_levels(mode: BankMode) -> (bool, bool) {
    match mode {
        BankMode::Bank2Only => (false, true),
        BankMode::Bank3Only => (true, false),
        BankMode::BothBanks => (false, false),
        BankMode::AllOff => (true, true),
    }
}

/// Bank 2 is powered with these levels.
pub open spec fn bank2_on(levels: (bool, bool)) -> bool {
    !levels.0
}

/// Bank 3 is powered with these levels.
pub open spec fn bank3_on(levels: (bool, bool)) -> bool {
    !levels.1
}

/// The relay module: the bank mode applied and the input levels that
/// apply it.
pub struct RelayModule {
    in1_high: bool,
    in2_high: bool,
    mode: BankMode,
}

impl RelayModule {
    /// The levels always select the mode.
    #[verifier::type_invariant]
    spec fn levels_match(self) -> bool {
        (self.in1_high, self.in2_high) == relay_levels(self.mode)
    }

    /// Mode applied.
    pub closed spec fn mode_spec(&self) -> BankMode {
        self.mode
    }

    /// Levels of IN1 and IN2.
    pub closed spec fn levels_spec(&self) -> (bool, bool) {
        (self.in1_high, self.in2_high)
    }

    /// Starts with bank 2 on (normal operation), applied at once so that
    /// there is no moment with both banks off.
    pub fn new() -> (r: Self)
        ensures
            r.mode_spec() == BankMode::Bank2Only,
            r.levels_spec() == relay_levels(BankMode::Bank2Only),
    {
        RelayModule { in1_high: false, in2_high: true, mode: BankMode::Bank2Only }
    }

    /// Mode currently applied.
    pub fn mode(&self) -> (m: BankMode)
        ensures
            m == self.mode_spec(),
    {
        self.mode
    }

    /// Levels of IN1 and IN2 to put on the pins (`true` = HIGH).
    pub fn levels(&self) -> (l: (bool, bool))
        ensures
            l == self.levels_spec(),
            l == relay_levels(self.mode_spec()),
    {
        proof {
            use_type_invariant(self);
        }
        (self.in1_high, self.in2_high)
    }

    /// Applies `mode` and sets the levels that select it.
    pub fn set_mode(&mut self, mode: BankMode)
        ensures
            final(self).mode_spec() == mode,
            final(self).levels_spec() == relay_levels(mode),
    {
        let (in1, in2) = match mode {
            BankMode::Bank2Only => (false, true),
            BankMode::Bank3Only => (true, false),
            BankMode::BothBanks => (false, false),
            BankMode::AllOff => (true, true),
        };
        *self = RelayModule { in1_high: in1, in2_high: in2, mode };
    }

    /// Emergency cut: both banks off. Call on any move to FAULT or SAFE.
    pub fn emergency_off(&mut self)
        ensures
            final(self).mode_spec() == BankMode::AllOff,
            final(self).levels_spec() == (true, true),
    {
        self.set_mode(BankMode::AllOff);
    }

    /// Back to normal: bank 2 on, bank 3 on standby. Call on a reset
    /// command once out of FAULT or SAFE.
    pub fn reset_normal(&mut self)
        ensures
            final(self).mode_spec() == BankMode::Bank2Only,
            final(self).levels_spec() == (false, true),
    {
        self.set_mode(BankMode::Bank2Only);
    }
}

/// Each mode powers exactly the banks it names; in particular the
/// emergency mode (`AllOff`) powers none.
pub proof fn law_modes_power_their_banks(mode: BankMode)
    ensures
        bank2_on(relay_levels(mode)) == (mode == BankMode::Bank2Only || mode == BankMode::BothBanks),
        bank3_on(relay_levels(mode)) == (mode == BankMode::Bank3Only || mode == BankMode::BothBanks),
{
}

} // verus!
