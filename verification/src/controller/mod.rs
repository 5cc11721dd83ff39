//! Central traction controller: six drive channels (motor + encoder) with
//! per-channel stall detection and an emergency stop when two wheels of the
//! same side stall.

use vstd::prelude::*;

use crate::motor_control::{Motor, MotorCall};
use crate::sensors::Encoder;

verus! {

/// Commanded speed magnitude above which a motionless encoder counts as a stall.
pub const STALL_SPEED: i16 = 20;

/// Consecutive stalled checks after which the channel reports a stall.
pub const STALL_CHECKS: u16 = 50;

/// A traction channel: one motor and its encoder.
pub struct DriveChannel<M: Motor, E: Encoder> {
    pub motor: M,
    pub encoder: E,
    last_count: i32,
    stall_timer: u16,
    events: Ghost<Seq<ChannelEvent>>,
}

/// An operation of a channel on its encoder or its motor.
#[derive(Debug, Clone, Copy, PartialEq, Eq, Structural)]
pub enum ChannelEvent {
    /// An encoder reading, with the count it gave.
    EncoderRead(i32),
    /// A call on the motor's driver.
    Drive(MotorCall),
}

/// A channel's operations in one stall check: the encoder reading `count`,
/// then a stop when the check finds the channel stalled.
pub open spec fn check_events(count: i32, stalled: bool) -> Seq<ChannelEvent> {
    seq![ChannelEvent::EncoderRead(count)] + (if stalled {
        seq![ChannelEvent::Drive(MotorCall::Stop)]
    } else {
        Seq::empty()
    })
}

/// A channel's operations in one supervision cycle: its stall check, and
/// another stop when the emergency stop latches.
pub open spec fn cycle_events(count: i32, stalled: bool, latched: bool) -> Seq<ChannelEvent> {
    check_events(count, stalled) + (if latched {
        seq![ChannelEvent::Drive(MotorCall::Stop)]
    } else {
        Seq::empty()
    })
}

/// The calls a channel's motor gets in one supervision cycle: a stop when
/// the channel is stalled, and another when the emergency stop latches.
pub open spec fn cycle_calls(stalled: bool, latched: bool) -> Seq<MotorCall> {
    (if stalled {
        seq![MotorCall::Stop]
    } else {
        Seq::empty()
    }) + (if latched {
        seq![MotorCall::Stop]
    } else {
        Seq::empty()
    })
}

/// The stall-timer rule: a commanded speed above `STALL_SPEED` with an
/// encoder that did not move extends the run of stalled checks, anything
/// else ends it.
pub open spec fn next_stall_timer(timer: u16, speed: i16, previous: i32, current: i32) -> u16 {
    if (speed > STALL_SPEED || speed < -STALL_SPEED) && current == previous {
        if timer < u16::MAX {
            (timer + 1) as u16
        } else {
            timer
        }
    } else {
        0
    }
}

/// Stall timer after a run of checks with the commanded `speeds`, oldest
/// first, during which the encoder stays at `count`.
pub open spec fn timer_after_run(timer: u16, speeds: Seq<i16>, count: i32) -> u16
    decreases speeds.len(),
{
    if speeds.len() == 0 {
        timer
    } else {
        next_stall_timer(
            timer_after_run(timer, speeds.drop_last(), count),
            speeds.last(),
            count,
            count,
        )
    }
}

/// Stall law of a channel: from a cleared timer, checks that each find the
/// encoder where it was while the commanded speed exceeds `STALL_SPEED` in
/// magnitude count up one by one, so the channel reports a stall exactly
/// from the check after the `STALL_CHECKS`-th on; one check at which the
/// encoder moved, or the speed is within `STALL_SPEED`, clears the timer.
pub proof fn law_stall_after_consecutive_checks(
    speeds: Seq<i16>,
    count: i32,
    timer: u16,
    speed: i16,
    previous: i32,
    current: i32,
)
    requires
        forall|i: int|
            0 <= i < speeds.len() ==> #[trigger] speeds[i] > STALL_SPEED || speeds[i] < -STALL_SPEED,
        speeds.len() <= u16::MAX,
    ensures
        timer_after_run(0, speeds, count) == speeds.len(),
        (timer_after_run(0, speeds, count) > STALL_CHECKS) == (speeds.len() > STALL_CHECKS),
        previous != current || -STALL_SPEED <= speed <= STALL_SPEED ==> next_stall_timer(
            timer,
            speed,
            previous,
            current,
        ) == 0,
    decreases speeds.len(),
{
    if speeds.len() > 0 {
        let rest = speeds.drop_last();
        assert forall|i: int| 0 <= i < rest.len() implies #[trigger] rest[i] > STALL_SPEED || rest[i]
            < -STALL_SPEED by {
            assert(rest[i] == speeds[i]);
        }
        assert(speeds.last() == speeds[speeds.len() - 1]);
        law_stall_after_consecutive_checks(rest, count, timer, speed, previous, current);
    }
}

impl<M: Motor, E: Encoder> DriveChannel<M, E> {
    /// Encoder reading at the last check.
    pub closed spec fn last_count(&self) -> i32 {
        self.last_count
    }

    /// Number of consecutive stalled checks.
    pub closed spec fn stall_timer(&self) -> u16 {
        self.stall_timer
    }

    pub closed spec fn motor_speed(&self) -> i16 {
        self.motor.speed()
    }

    /// Calls carried out by the channel's motor.
    pub closed spec fn motor_calls(&self) -> Seq<MotorCall> {
        self.motor.calls()
    }

    /// Operations made on the encoder and the motor through the channel.
    pub closed spec fn events(&self) -> Seq<ChannelEvent> {
        self.events@
    }

    pub fn new(motor: M, encoder: E) -> (c: Self)
        ensures
            c.last_count() == 0,
            c.stall_timer() == 0,
            c.motor_speed() == motor.speed(),
            c.motor_calls() == motor.calls(),
            c.events() == Seq::<ChannelEvent>::empty(),
    {
        DriveChannel { motor, encoder, last_count: 0, stall_timer: 0, events: Ghost(Seq::empty()) }
    }

    /// Samples the encoder once per control cycle; returns `true` once the
    /// channel has been stalled for more than `STALL_CHECKS` checks in a row.
    pub fn check_stall(&mut self, speed: i16) -> (stalled: bool)
        ensures
            final(self).stall_timer() == next_stall_timer(
                old(self).stall_timer(),
                speed,
                old(self).last_count(),
                final(self).last_count(),
            ),
            stalled == (final(self).stall_timer() > STALL_CHECKS),
            final(self).motor_speed() == old(self).motor_speed(),
            final(self).motor_calls() == old(self).motor_calls(),
            final(self).events() == old(self).events().push(
                ChannelEvent::EncoderRead(final(self).last_count()),
            ),
    {
        let current_count = self.encoder.get_counts();
        if (speed > STALL_SPEED || speed < -STALL_SPEED) && current_count == self.last_count {
            self.stall_timer = self.stall_timer.saturating_add(1);
        } else {
            self.stall_timer = 0;
        }
        self.last_count = current_count;
        self.events = Ghost(self.events@.push(ChannelEvent::EncoderRead(current_count)));
        self.stall_timer > STALL_CHECKS
    }

    fn set_motor_speed(&mut self, speed: i16)
        ensures
            final(self).motor_speed() == speed,
            final(self).motor_calls() == old(self).motor_calls().push(MotorCall::SetSpeed(speed)),
            final(self).last_count() == old(self).last_count(),
            final(self).stall_timer() == old(self).stall_timer(),
            final(self).events() == old(self).events().push(
                ChannelEvent::Drive(MotorCall::SetSpeed(speed)),
            ),
    {
        self.motor.set_speed(speed);
        self.events = Ghost(self.events@.push(ChannelEvent::Drive(MotorCall::SetSpeed(speed))));
    }

    fn stop_motor(&mut self)
        ensures
            final(self).motor_speed() == 0,
            final(self).motor_calls() == old(self).motor_calls().push(MotorCall::Stop),
            final(self).last_count() == old(self).last_count(),
            final(self).stall_timer() == old(self).stall_timer(),
            final(self).events() == old(self).events().push(ChannelEvent::Drive(MotorCall::Stop)),
    {
        self.motor.stop();
        self.events = Ghost(self.events@.push(ChannelEvent::Drive(MotorCall::Stop)));
    }
}

/// Traction controller of the six-wheel chassis; channels 0–2 are the left
/// side and 3–5 the right side.
pub struct RoverController<M: Motor, E: Encoder> {
    pub channels: [DriveChannel<M, E>; 6],
    pub is_stalled: [bool; 6],
    pub emergency_stop: bool,
}

/// Number of stalled channels among `lo .. hi`.
pub open spec fn stalled_in(flags: Seq<bool>, lo: int, hi: int) -> int
    decreases hi - lo,
{
    if hi <= lo {
        0
    } else {
        stalled_in(flags, lo, hi - 1) + if flags[hi - 1] {
            1int
        } else {
            0
        }
    }
}

/// Two or more stalled wheels on the left (0–2) or on the right (3–5).
pub open spec fn side_stalled(flags: Seq<bool>) -> bool {
    stalled_in(flags, 0, 3) >= 2 || stalled_in(flags, 3, 6) >= 2
}

proof fn lemma_stalled_in_step(flags: Seq<bool>, lo: int, i: int)
    requires
        lo <= i,
    ensures
        stalled_in(flags, lo, i + 1) == stalled_in(flags, lo, i) + if flags[i] {
            1int
        } else {
            0
        },
{
}

proof fn lemma_stalled_in_bound(flags: Seq<bool>, lo: int, hi: int)
    requires
        lo <= hi,
    ensures
        0 <= stalled_in(flags, lo, hi) <= hi - lo,
    decreases hi - lo,
{
    if hi > lo {
        lemma_stalled_in_bound(flags, lo, hi - 1);
    }
}

proof fn lemma_stalled_in_frame(a: Seq<bool>, b: Seq<bool>, lo: int, hi: int)
    requires
        forall|j: int| lo <= j < hi ==> a[j] == b[j],
    ensures
        stalled_in(a, lo, hi) == stalled_in(b, lo, hi),
    decreases hi - lo,
{
    if hi > lo {
        lemma_stalled_in_frame(a, b, lo, hi - 1);
    }
}

impl<M: Motor, E: Encoder> RoverController<M, E> {
    pub fn new(channels: [DriveChannel<M, E>; 6]) -> (r: Self)
        ensures
            r.channels@ == channels@,
            r.is_stalled@ == seq![false, false, false, false, false, false],
            !r.emergency_stop,
    {
        RoverController {
            channels,
            is_stalled: [false, false, false, false, false, false],
            emergency_stop: false,
        }
    }

    /// Left speed on channels 0–2, right speed on 3–5; ignored while the
    /// emergency stop is latched.
    pub fn tank_drive(&mut self, left_speed: i16, right_speed: i16)
        ensures
            old(self).emergency_stop ==> *final(self) == *old(self),
            !old(self).emergency_stop ==> {
                &&& final(self).emergency_stop == old(self).emergency_stop
                &&& final(self).is_stalled == old(self).is_stalled
                &&& forall|i: int|
                    0 <= i < 6 ==> (#[trigger] final(self).channels@[i]).motor_speed() == (if i
                        < 3 {
                        left_speed
                    } else {
                        right_speed
                    })
                &&& forall|i: int|
                    0 <= i < 6 ==> (#[trigger] final(self).channels@[i]).stall_timer() == old(
                        self,
                    ).channels@[i].stall_timer() && final(self).channels@[i].last_count() == old(
                        self,
                    ).channels@[i].last_count()
                &&& forall|i: int|
                    0 <= i < 6 ==> (#[trigger] final(self).channels@[i]).motor_calls() == old(
                        self,
                    ).channels@[i].motor_calls().push(
                        MotorCall::SetSpeed(if i < 3 { left_speed } else { right_speed }),
                    ) && final(self).channels@[i].events() == old(self).channels@[i].events().push(
                        ChannelEvent::Drive(
                            MotorCall::SetSpeed(if i < 3 { left_speed } else { right_speed }),
                        ),
                    )
            },
    {
        if self.emergency_stop {
            return;
        }
        let mut i: usize = 0;
        while i < 6
            invariant
                0 <= i <= 6,
                self.emergency_stop == old(self).emergency_stop,
                self.is_stalled == old(self).is_stalled,
                forall|j: int|
                    0 <= j < i ==> (#[trigger] self.channels@[j]).motor_speed() == (if j < 3 {
                        left_speed
                    } else {
                        right_speed
                    }),
                forall|j: int|
                    0 <= j < 6 ==> (#[trigger] self.channels@[j]).stall_timer() == old(
                        self,
                    ).channels@[j].stall_timer() && self.channels@[j].last_count() == old(
                        self,
                    ).channels@[j].last_count(),
                forall|j: int|
                    0 <= j < i ==> (#[trigger] self.channels@[j]).motor_calls() == old(
                        self,
                    ).channels@[j].motor_calls().push(
                        MotorCall::SetSpeed(if j < 3 { left_speed } else { right_speed }),
                    ) && self.channels@[j].events() == old(self).channels@[j].events().push(
                        ChannelEvent::Drive(
                            MotorCall::SetSpeed(if j < 3 { left_speed } else { right_speed }),
                        ),
                    ),
                forall|j: int| i <= j < 6 ==> #[trigger] self.channels@[j] == old(self).channels@[j],
            decreases 6 - i,
        {
            if i < 3 {
                self.channels[i].set_motor_speed(left_speed);
            } else {
                self.channels[i].set_motor_speed(right_speed);
            }
            i = i + 1;
        }
    }

    /// One control cycle of stall supervision, with the speeds currently
    /// commanded to each channel: every channel checks its encoder, a stalled
    /// channel is stopped, and two stalled wheels on the same side stop all
    /// motors and latch the emergency stop. Nothing happens while latched.
    pub fn update(&mut self, current_speeds: [i16; 6])
        ensures
            old(self).emergency_stop ==> *final(self) == *old(self),
            !old(self).emergency_stop ==> {
                &&& forall|i: int|
                    0 <= i < 6 ==> (#[trigger] final(self).channels@[i]).stall_timer()
                        == next_stall_timer(
                        old(self).channels@[i].stall_timer(),
                        current_speeds@[i],
                        old(self).channels@[i].last_count(),
                        final(self).channels@[i].last_count(),
                    )
                &&& forall|i: int|
                    0 <= i < 6 ==> #[trigger] final(self).is_stalled@[i] == (
                    final(self).channels@[i].stall_timer() > STALL_CHECKS)
                &&& forall|i: int|
                    0 <= i < 6 && #[trigger] final(self).is_stalled@[i]
                        ==> final(self).channels@[i].motor_speed() == 0
                &&& final(self).emergency_stop == side_stalled(final(self).is_stalled@)
                &&& final(self).emergency_stop ==> forall|i: int|
                    0 <= i < 6 ==> (#[trigger] final(self).channels@[i]).motor_speed() == 0
                &&& !final(self).emergency_stop ==> forall|i: int|
                    0 <= i < 6 && !final(self).is_stalled@[i]
                        ==> #[trigger] final(self).channels@[i].motor_speed() == old(
                        self,
                    ).channels@[i].motor_speed()
                &&& forall|i: int|
                    0 <= i < 6 ==> (#[trigger] final(self).channels@[i]).events() == old(
                        self,
                    ).channels@[i].events() + cycle_events(
                        final(self).channels@[i].last_count(),
                        final(self).is_stalled@[i],
                        final(self).emergency_stop,
                    ) && final(self).channels@[i].motor_calls() == old(
                        self,
                    ).channels@[i].motor_calls() + cycle_calls(
                        final(self).is_stalled@[i],
                        final(self).emergency_stop,
                    )
            },
    {
        if self.emergency_stop {
            return;
        }
        let mut left_stalls: u8 = 0;
        let mut right_stalls: u8 = 0;
        let mut i: usize = 0;
        while i < 6
            invariant
                0 <= i <= 6,
                !self.emergency_stop,
                left_stalls == stalled_in(self.is_stalled@, 0, if i < 3 {
                    i as int
                } else {
                    3
                }),
                right_stalls == stalled_in(self.is_stalled@, 3, if i < 3 {
                    3
                } else {
                    i as int
                }),
                forall|j: int|
                    0 <= j < i ==> (#[trigger] self.channels@[j]).stall_timer() == next_stall_timer(
                        old(self).channels@[j].stall_timer(),
                        current_speeds@[j],
                        old(self).channels@[j].last_count(),
                        self.channels@[j].last_count(),
                    ),
                forall|j: int|
                    0 <= j < i ==> #[trigger] self.is_stalled@[j] == (
                    self.channels@[j].stall_timer() > STALL_CHECKS),
                forall|j: int|
                    0 <= j < i && #[trigger] self.is_stalled@[j] ==> self.channels@[j].motor_speed()
                        == 0,
                forall|j: int|
                    0 <= j < i && !#[trigger] self.is_stalled@[j] ==> self.channels@[j].motor_speed()
                        == old(self).channels@[j].motor_speed(),
                forall|j: int|
                    0 <= j < i ==> (#[trigger] self.channels@[j]).events() == old(
                        self,
                    ).channels@[j].events() + check_events(
                        self.channels@[j].last_count(),
                        self.is_stalled@[j],
                    ) && self.channels@[j].motor_calls() == old(self).channels@[j].motor_calls()
                        + cycle_calls(self.is_stalled@[j], false),
                forall|j: int| i <= j < 6 ==> #[trigger] self.channels@[j] == old(self).channels@[j],
            decreases 6 - i,
        {
            let ghost before = self.is_stalled@;
            let stalled = self.channels[i].check_stall(current_speeds[i]);
            self.is_stalled[i] = stalled;
            proof {
                lemma_stalled_in_frame(self.is_stalled@, before, 0, if i < 3 { i as int } else { 3 });
                lemma_stalled_in_frame(self.is_stalled@, before, 3, if i < 3 { 3 } else { i as int });
                lemma_stalled_in_bound(before, 0, if i < 3 { i as int } else { 3 });
                lemma_stalled_in_bound(before, 3, if i < 3 { 3 } else { i as int });
            }
            if stalled {
                self.channels[i].stop_motor();
                if i < 3 {
                    left_stalls = left_stalls + 1;
                } else {
                    right_stalls = right_stalls + 1;
                }
            }
            proof {
                lemma_stalled_in_step(self.is_stalled@, if i < 3 { 0 } else { 3 }, i as int);
                let c = self.channels@[i as int];
                let o = old(self).channels@[i as int];
                assert(c.events() =~= o.events() + check_events(c.last_count(), stalled));
                assert(c.motor_calls() =~= o.motor_calls() + cycle_calls(stalled, false));
            }
            i = i + 1;
        }
        let ghost checked = self.channels@;
        if left_stalls >= 2 || right_stalls >= 2 {
            self.stop_all();
            self.emergency_stop = true;
        }
        proof {
            assert forall|k: int| 0 <= k < 6 implies (#[trigger] self.channels@[k]).events() == old(
                self,
            ).channels@[k].events() + cycle_events(
                self.channels@[k].last_count(),
                self.is_stalled@[k],
                self.emergency_stop,
            ) && self.channels@[k].motor_calls() == old(self).channels@[k].motor_calls()
                + cycle_calls(self.is_stalled@[k], self.emergency_stop) by {
                let o = old(self).channels@[k];
                let m = checked[k];
                let c = self.channels@[k];
                assert(m.events() == o.events() + check_events(m.last_count(), self.is_stalled@[k]));
                if self.emergency_stop {
                    assert(c.events() =~= o.events() + cycle_events(
                        c.last_count(),
                        self.is_stalled@[k],
                        true,
                    ));
                    assert(c.motor_calls() =~= o.motor_calls() + cycle_calls(
                        self.is_stalled@[k],
                        true,
                    ));
                } else {
                    assert(c.events() =~= o.events() + cycle_events(
                        c.last_count(),
                        self.is_stalled@[k],
                        false,
                    ));
                    assert(c.motor_calls() =~= o.motor_calls() + cycle_calls(
                        self.is_stalled@[k],
                        false,
                    ));
                }
            }
        }
    }

    /// Stops every motor.
    pub fn stop_all(&mut self)
        ensures
            final(self).emergency_stop == old(self).emergency_stop,
            final(self).is_stalled == old(self).is_stalled,
            forall|i: int| 0 <= i < 6 ==> (#[trigger] final(self).channels@[i]).motor_speed() == 0,
            forall|i: int|
                0 <= i < 6 ==> (#[trigger] final(self).channels@[i]).stall_timer() == old(
                    self,
                ).channels@[i].stall_timer() && final(self).channels@[i].last_count() == old(
                    self,
                ).channels@[i].last_count(),
            forall|i: int|
                0 <= i < 6 ==> (#[trigger] final(self).channels@[i]).motor_calls() == old(
                    self,
                ).channels@[i].motor_calls().push(MotorCall::Stop) && final(self).channels@[i].events()
                    == old(self).channels@[i].events().push(ChannelEvent::Drive(MotorCall::Stop)),
    {
        let mut i: usize = 0;
        while i < 6
            invariant
                0 <= i <= 6,
                self.emergency_stop == old(self).emergency_stop,
                self.is_stalled == old(self).is_stalled,
                forall|j: int| 0 <= j < i ==> (#[trigger] self.channels@[j]).motor_speed() == 0,
                forall|j: int|
                    0 <= j < 6 ==> (#[trigger] self.channels@[j]).stall_timer() == old(
                        self,
                    ).channels@[j].stall_timer() && self.channels@[j].last_count() == old(
                        self,
                    ).channels@[j].last_count(),
                forall|j: int|
                    0 <= j < i ==> (#[trigger] self.channels@[j]).motor_calls() == old(
                        self,
                    ).channels@[j].motor_calls().push(MotorCall::Stop) && self.channels@[j].events()
                        == old(self).channels@[j].events().push(ChannelEvent::Drive(MotorCall::Stop)),
                forall|j: int| i <= j < 6 ==> #[trigger] self.channels@[j] == old(self).channels@[j],
            decreases 6 - i,
        {
            self.channels[i].stop_motor();
            i = i + 1;
        }
    }

    /// Clears the emergency latch and every stall flag.
    pub fn reset_emergency(&mut self)
        ensures
            !final(self).emergency_stop,
            final(self).is_stalled@ == seq![false, false, false, false, false, false],
            final(self).channels == old(self).channels,
    {
        self.emergency_stop = false;
        self.is_stalled = [false, false, false, false, false, false];
    }
}

} // verus!
