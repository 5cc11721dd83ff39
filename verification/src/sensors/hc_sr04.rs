//! HC-SR04 ultrasonic range finder: a 20 µs trigger pulse, then the width
//! of the echo pulse measured in 1 µs steps.
//!
//! The echo wait blocks the main loop, so the pulse measurement is cut off
//! after `echo_timeout_us` (30 000 µs, about 4 m, by default). Objects
//! farther than `timeout_us × 1715 / 10 000` mm then give `Timeout`.
//! Suggested timeouts: 1 750 µs for emergencies under 200 mm, 3 200 µs for
//! 500 mm, 30 000 µs for the full 4 m.

use vstd::prelude::*;

use crate::sensors::{ProximitySensor, SensorError};

verus! {

/// Polls of the echo line while waiting for the pulse to start.
pub const ECHO_START_POLLS: u32 = 30000;

/// Default echo timeout (~4 m).
pub const DEFAULT_ECHO_TIMEOUT_US: u32 = 30000;

/// Trigger and echo pins, and the microsecond delay, as the board
/// provides them.
pub trait EchoPins {
    fn trigger_low(&mut self);

    fn trigger_high(&mut self);

    /// Level of the echo line.
    fn echo_is_high(&mut self) -> bool;

    /// Busy-waits `us` microseconds.
    fn delay_us(&mut self, us: u32);
}

/// Result for an echo pulse of `duration_us`: the distance in mm
/// (`duration × 1715 / 10 000`, half the round trip at 343 m/s), valid from
/// 2 to 4 000 mm.
pub open spec fn echo_reading(duration_us: u32) -> Result<u16, SensorError> {
    let mm = duration_us * 1715 / 10000;
    if mm > 4000 || mm < 2 {
        Err(SensorError::OutOfRange)
    } else {
        Ok(mm as u16)
    }
}

/// Range law: an echo pulse cut off at `timeout_us` never reads farther
/// than `timeout_us × 1715 / 10 000` mm, so a shorter timeout only drops
/// objects beyond that distance.
pub proof fn law_reading_within_timeout(duration_us: u32, timeout_us: u32)
    requires
        duration_us <= timeout_us,
    ensures
        echo_reading(duration_us) matches Ok(mm) ==> mm <= timeout_us * 1715 / 10000,
{
    assert(duration_us * 1715 / 10000 <= timeout_us * 1715 / 10000) by (nonlinear_arith)
        requires
            duration_us <= timeout_us,
    ;
}

/// Reading for an echo pulse of `duration_us` microseconds.
pub fn distance_from_echo(duration_us: u32) -> (r: Result<u16, SensorError>)
    ensures
        r == echo_reading(duration_us),
{
    let distance = (duration_us as u64 * 1715) / 10000;
    if distance > 4000 || distance < 2 {
        Err(SensorError::OutOfRange)
    } else {
        Ok(distance as u16)
    }
}

/// An operation on the sensor's pins.
#[derive(Debug, Clone, Copy, PartialEq, Eq, Structural)]
pub enum PinOp {
    TriggerLow,
    TriggerHigh,
    /// A busy wait of this many microseconds.
    Delay(u32),
    /// A read of the echo line, with the level seen (`true` = high).
    Echo(bool),
}

/// The trigger pulse that starts a measurement: trigger low, 10 µs, high,
/// 20 µs, low.
pub open spec fn trigger_pulse() -> Seq<PinOp> {
    seq![PinOp::TriggerLow, PinOp::Delay(10), PinOp::TriggerHigh, PinOp::Delay(20), PinOp::TriggerLow]
}

/// Progress of a measurement over the pin operations after the trigger
/// pulse.
pub ghost enum EchoScan {
    /// Waiting for the echo to rise: low reads so far.
    Waiting(nat),
    /// The echo is high; microseconds counted; the next operation reads it.
    High(nat),
    /// The echo was read high again: one more microsecond is waited, then
    /// the count is checked against the timeout.
    Counting(nat),
    /// The measurement is over, with this result.
    Done(Result<u16, SensorError>),
    /// An operation that does not belong to the measurement.
    Overrun,
}

/// One pin operation applied to the scan, for an echo timeout of
/// `timeout` µs: more than `ECHO_START_POLLS` low reads before the echo
/// rises, or a count above the timeout, give `Timeout`; the echo falling
/// gives the reading of the count.
pub open spec fn echo_step(timeout: u32, s: EchoScan, op: PinOp) -> EchoScan {
    match s {
        EchoScan::Waiting(c) => match op {
            PinOp::Echo(false) => if c + 1 > ECHO_START_POLLS {
                EchoScan::Done(Err(SensorError::Timeout))
            } else {
                EchoScan::Waiting(c + 1)
            },
            PinOp::Echo(true) => EchoScan::High(0),
            _ => EchoScan::Overrun,
        },
        EchoScan::High(d) => match op {
            PinOp::Echo(true) => EchoScan::Counting(d + 1),
            PinOp::Echo(false) => EchoScan::Done(echo_reading(d as u32)),
            _ => EchoScan::Overrun,
        },
        EchoScan::Counting(d) => match op {
            PinOp::Delay(1) => if d > timeout {
                EchoScan::Done(Err(SensorError::Timeout))
            } else {
                EchoScan::High(d)
            },
            _ => EchoScan::Overrun,
        },
        EchoScan::Done(_) => EchoScan::Overrun,
        EchoScan::Overrun => EchoScan::Overrun,
    }
}

/// The scan after the pin operations `ops` that follow the trigger pulse.
pub open spec fn echo_scan(timeout: u32, ops: Seq<PinOp>) -> EchoScan
    decreases ops.len(),
{
    if ops.len() == 0 {
        EchoScan::Waiting(0)
    } else {
        echo_step(timeout, echo_scan(timeout, ops.drop_last()), ops.last())
    }
}

/// `ext` is one measurement with an echo timeout of `timeout` µs that
/// ended with `r`: the trigger pulse, then the echo reads and waits of one
/// scan.
pub open spec fn measurement(timeout: u32, ext: Seq<PinOp>, r: Result<u16, SensorError>) -> bool {
    &&& ext.len() >= 5
    &&& ext.take(5) == trigger_pulse()
    &&& echo_scan(timeout, ext.skip(5)) == EchoScan::Done(r)
}

/// Ultrasonic range finder.
pub struct HCSR04<P> {
    pins: P,
    echo_timeout_us: u32,
    ops: Ghost<Seq<PinOp>>,
}

impl<P: EchoPins> HCSR04<P> {
    /// Longest echo pulse measured, in µs.
    pub closed spec fn echo_timeout(&self) -> u32 {
        self.echo_timeout_us
    }

    /// Every operation made on the pins, in order.
    pub closed spec fn pin_ops(&self) -> Seq<PinOp> {
        self.ops@
    }

    /// A sensor with the full 30 000 µs echo timeout.
    pub fn new(pins: P) -> (s: Self)
        ensures
            s.echo_timeout() == DEFAULT_ECHO_TIMEOUT_US,
            s.pin_ops() == Seq::<PinOp>::empty(),
    {
        HCSR04 { pins, echo_timeout_us: DEFAULT_ECHO_TIMEOUT_US, ops: Ghost(Seq::empty()) }
    }

    /// The same sensor with the echo timeout set to `echo_timeout_us`.
    pub fn with_timeout(self, echo_timeout_us: u32) -> (s: Self)
        ensures
            s.echo_timeout() == echo_timeout_us,
            s.pin_ops() == self.pin_ops(),
    {
        let HCSR04 { pins, echo_timeout_us: _, ops } = self;
        HCSR04 { pins, echo_timeout_us, ops }
    }

    /// One measurement: the trigger pulse, then `Timeout` when the echo does
    /// not rise within `ECHO_START_POLLS` polls or stays high longer than
    /// the echo timeout, otherwise the reading for the microseconds it
    /// stayed high.
    pub fn measure_mm(&mut self) -> (r: Result<u16, SensorError>)
        ensures
            final(self).echo_timeout() == old(self).echo_timeout(),
            old(self).pin_ops().is_prefix_of(final(self).pin_ops()),
            measurement(
                old(self).echo_timeout(),
                final(self).pin_ops().skip(old(self).pin_ops().len() as int),
                r,
            ),
    {
        let ghost start = self.ops@;
        let timeout = self.echo_timeout_us;
        self.trigger(false);
        self.wait_us(10);
        self.trigger(true);
        self.wait_us(20);
        self.trigger(false);
        proof {
            assert(self.ops@ =~= start + trigger_pulse());
            assert(self.ops@.skip(start.len() as int).take(5) =~= trigger_pulse());
            assert(self.ops@.skip(start.len() as int).skip(5) =~= Seq::<PinOp>::empty());
        }
        let ghost head = self.ops@;
        let mut count: u32 = 0;
        loop
            invariant_except_break
                echo_scan(timeout, self.ops@.skip(head.len() as int)) == EchoScan::Waiting(
                    count as nat,
                ),
            invariant
                count <= ECHO_START_POLLS,
                timeout == old(self).echo_timeout(),
                self.echo_timeout() == old(self).echo_timeout(),
                start == old(self).pin_ops(),
                head == start + trigger_pulse(),
                head.is_prefix_of(self.ops@),
            ensures
                echo_scan(timeout, self.ops@.skip(head.len() as int)) == EchoScan::High(0),
            decreases ECHO_START_POLLS - count,
        {
            let ghost before = self.ops@;
            let high = self.echo();
            proof {
                assert(self.ops@.skip(head.len() as int).drop_last() =~= before.skip(
                    head.len() as int,
                ));
            }
            if high {
                break;
            }
            count = count + 1;
            if count > ECHO_START_POLLS {
                proof {
                    self.lemma_measurement(start, head);
                }
                return Err(SensorError::Timeout);
            }
        }
        let mut duration_us: u64 = 0;
        loop
            invariant_except_break
                echo_scan(timeout, self.ops@.skip(head.len() as int)) == EchoScan::High(
                    duration_us as nat,
                ),
            invariant
                duration_us <= timeout,
                timeout == old(self).echo_timeout(),
                self.echo_timeout() == old(self).echo_timeout(),
                start == old(self).pin_ops(),
                head == start + trigger_pulse(),
                head.is_prefix_of(self.ops@),
            ensures
                echo_scan(timeout, self.ops@.skip(head.len() as int)) == EchoScan::Done(
                    echo_reading(duration_us as u32),
                ),
            decreases timeout - duration_us,
        {
            let ghost before = self.ops@;
            let high = self.echo();
            proof {
                assert(self.ops@.skip(head.len() as int).drop_last() =~= before.skip(
                    head.len() as int,
                ));
            }
            if !high {
                break;
            }
            duration_us = duration_us + 1;
            let ghost before = self.ops@;
            self.wait_us(1);
            proof {
                assert(self.ops@.skip(head.len() as int).drop_last() =~= before.skip(
                    head.len() as int,
                ));
            }
            if duration_us > timeout as u64 {
                proof {
                    self.lemma_measurement(start, head);
                }
                return Err(SensorError::Timeout);
            }
        }
        proof {
            self.lemma_measurement(start, head);
        }
        distance_from_echo(duration_us as u32)
    }

    /// Drives the trigger line, and records it.
    fn trigger(&mut self, high: bool)
        ensures
            final(self).pin_ops() == old(self).pin_ops().push(
                if high {
                    PinOp::TriggerHigh
                } else {
                    PinOp::TriggerLow
                },
            ),
            final(self).echo_timeout() == old(self).echo_timeout(),
    {
        if high {
            self.pins.trigger_high();
        } else {
            self.pins.trigger_low();
        }
        self.ops = Ghost(self.ops@.push(if high { PinOp::TriggerHigh } else { PinOp::TriggerLow }));
    }

    /// Waits `us` µs, and records it.
    fn wait_us(&mut self, us: u32)
        ensures
            final(self).pin_ops() == old(self).pin_ops().push(PinOp::Delay(us)),
            final(self).echo_timeout() == old(self).echo_timeout(),
    {
        self.pins.delay_us(us);
        self.ops = Ghost(self.ops@.push(PinOp::Delay(us)));
    }

    /// Samples the echo line, and records the level read.
    fn echo(&mut self) -> (high: bool)
        ensures
            final(self).pin_ops() == old(self).pin_ops().push(PinOp::Echo(high)),
            final(self).echo_timeout() == old(self).echo_timeout(),
    {
        let high = self.pins.echo_is_high();
        self.ops = Ghost(self.ops@.push(PinOp::Echo(high)));
        high
    }

    /// The operations added since `start` are the trigger pulse followed by
    /// those added since `head`.
    proof fn lemma_measurement(&self, start: Seq<PinOp>, head: Seq<PinOp>)
        requires
            head == start + trigger_pulse(),
            head.is_prefix_of(self.ops@),
        ensures
            start.is_prefix_of(self.ops@),
            self.ops@.skip(start.len() as int).len() >= 5,
            self.ops@.skip(start.len() as int).take(5) == trigger_pulse(),
            self.ops@.skip(start.len() as int).skip(5) == self.ops@.skip(head.len() as int),
    {
        let ops = self.ops@;
        assert(head =~= ops.subrange(0, head.len() as int));
        assert(head.len() == start.len() + 5);
        assert forall|k: int| 0 <= k < 5 implies #[trigger] ops[start.len() + k] == trigger_pulse()[k] by {
            assert(ops.subrange(0, head.len() as int)[start.len() + k] == head[start.len() + k]);
        }
        assert(ops.len() >= head.len());
        assert forall|k: int| 0 <= k < 5 implies #[trigger] ops.skip(start.len() as int).take(5)[k]
            == trigger_pulse()[k] by {
            assert(ops.skip(start.len() as int)[k] == ops[start.len() + k]);
        }
        assert(self.ops@.skip(start.len() as int).take(5) =~= trigger_pulse());
        assert(self.ops@.skip(start.len() as int).skip(5) =~= self.ops@.skip(head.len() as int));
        assert(start.is_prefix_of(self.ops@)) by {
            assert forall|k: int| 0 <= k < start.len() implies #[trigger] ops[k] == start[k] by {
                assert(ops.subrange(0, head.len() as int)[k] == head[k]);
            }
            assert(start =~= self.ops@.subrange(0, start.len() as int));
        }
    }
}

impl<P: EchoPins> ProximitySensor for HCSR04<P> {
    /// One measurement, as `measure_mm`.
    fn get_distance_mm(&mut self) -> (r: Result<u16, SensorError>)
        ensures
            final(self).echo_timeout() == old(self).echo_timeout(),
            old(self).pin_ops().is_prefix_of(final(self).pin_ops()),
            measurement(
                old(self).echo_timeout(),
                final(self).pin_ops().skip(old(self).pin_ops().len() as int),
                r,
            ),
    {
        self.measure_mm()
    }
}

} // verus!
