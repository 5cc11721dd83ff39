//! Decisions of the main control loop (20 ms per cycle), apart from the
//! I/O that the board code performs: which speeds reach the motors, which
//! motors are stalled, how severe the motor currents and battery
//! temperatures are, and which periodic tasks are due.

use vstd::prelude::*;

use crate::config::{
    oc_thresholds, oc_thresholds_spec, DriverLayout,
    BATT_FAULT_C, BATT_LIMIT_C, BATT_WARN_C, HC_EMERGENCY_MM, HC_READ_PERIOD, LIMIT_SPEED_CAP,
    LOOP_MS, SEN_FAST_PERIOD, SEN_READ_PERIOD, STALL_SPEED_MIN,
    STALL_THRESHOLD, TLM_PERIOD, TOF_EMERGENCY_MM,
};
use crate::state_machine::{severity, DriveOutput, RoverState, SafetyState};

verus! {

/// `v` clamped to `[-cap, cap]`.
pub open spec fn capped(v: i16, cap: i16) -> i16 {
    if v < -cap {
        (-cap) as i16
    } else if v > cap {
        cap
    } else {
        v
    }
}

/// Speeds to put on the chassis: `None` stops every motor (FAULT or
/// STANDBY); otherwise the drive target, capped at ±`LIMIT_SPEED_CAP` when
/// the safety level is `Limit`.
pub open spec fn applied_drive_spec(
    state: RoverState,
    safety: SafetyState,
    drive: DriveOutput,
) -> Option<(i16, i16)> {
    if state is Fault || state is Standby {
        None
    } else if safety is Limit {
        Some((capped(drive.left, LIMIT_SPEED_CAP), capped(drive.right, LIMIT_SPEED_CAP)))
    } else {
        Some((drive.left, drive.right))
    }
}

fn cap_speed(v: i16, cap: i16) -> (r: i16)
    requires
        cap >= 0,
    ensures
        r == capped(v, cap),
{
    if v < -cap {
        -cap
    } else if v > cap {
        cap
    } else {
        v
    }
}

/// What the motors get for the machine's state, safety level and target.
pub fn applied_drive(state: RoverState, safety: SafetyState, drive: DriveOutput) -> (r: Option<
    (i16, i16),
>)
    ensures
        r == applied_drive_spec(state, safety, drive),
{
    match state {
        RoverState::Fault | RoverState::Standby => None,
        _ => {
            if let SafetyState::Limit = safety {
                Some(
                    (cap_speed(drive.left, LIMIT_SPEED_CAP), cap_speed(drive.right, LIMIT_SPEED_CAP)),
                )
            } else {
                Some((drive.left, drive.right))
            }
        },
    }
}

/// Speed of each motor, FR, FL, CR, CL, RR, RL: right motors take the right
/// target, left motors the left one.
pub fn wheel_speeds(drive: DriveOutput) -> (s: [i16; 6])
    ensures
        s@ == seq![drive.right, drive.left, drive.right, drive.left, drive.right, drive.left],
{
    let s = [drive.right, drive.left, drive.right, drive.left, drive.right, drive.left];
    assert(s@ =~= seq![drive.right, drive.left, drive.right, drive.left, drive.right, drive.left]);
    s
}

/// The motor is commanded fast enough for a stall to be meaningful.
pub open spec fn fast_enough(speed: i16) -> bool {
    speed > STALL_SPEED_MIN || speed < -STALL_SPEED_MIN
}

/// Stall timer of a motor after one cycle: one more cycle without encoder
/// progress while commanded fast enough (saturating), else back to 0.
pub open spec fn next_timer(timer: u16, speed: i16, count: i32, last: i32) -> u16 {
    if fast_enough(speed) && count == last {
        if timer == u16::MAX {
            timer
        } else {
            (timer + 1) as u16
        }
    } else {
        0
    }
}

/// Stall timer of a motor after `k` cycles commanded at `speed` while its
/// count stays at `count`, from a reset timer.
pub open spec fn timer_after(k: nat, speed: i16, count: i32) -> u16
    decreases k,
{
    if k == 0 {
        0
    } else {
        next_timer(timer_after((k - 1) as nat, speed, count), speed, count, count)
    }
}

/// Stall detection law: a motor commanded faster than `STALL_SPEED_MIN`
/// whose encoder does not move has its timer count the cycles, and is
/// flagged exactly once more than `STALL_THRESHOLD` cycles have passed.
pub proof fn law_stall_detected_after_threshold(k: nat, speed: i16, count: i32)
    requires
        fast_enough(speed),
        k <= u16::MAX,
    ensures
        timer_after(k, speed, count) == k,
        (timer_after(k, speed, count) > STALL_THRESHOLD) == (k > STALL_THRESHOLD),
    decreases k,
{
    if k > 0 {
        law_stall_detected_after_threshold((k - 1) as nat, speed, count);
    }
}

/// Limit law: under the `Limit` safety level no speed put on the chassis
/// exceeds `LIMIT_SPEED_CAP` in magnitude, and speeds within the cap pass
/// unchanged.
pub proof fn law_limit_caps_speeds(state: RoverState, drive: DriveOutput)
    ensures
        applied_drive_spec(state, SafetyState::Limit, drive) matches Some((l, r)) ==> -LIMIT_SPEED_CAP
            <= l <= LIMIT_SPEED_CAP && -LIMIT_SPEED_CAP <= r <= LIMIT_SPEED_CAP,
        !(state is Fault || state is Standby) && -LIMIT_SPEED_CAP <= drive.left <= LIMIT_SPEED_CAP
            && -LIMIT_SPEED_CAP <= drive.right <= LIMIT_SPEED_CAP ==> applied_drive_spec(
            state,
            SafetyState::Limit,
            drive,
        ) == Some((drive.left, drive.right)),
{
}

/// Bit `i` of `mask`.
pub open spec fn bit_set(mask: u8, i: int) -> bool {
    (mask >> (i as u8)) & 1 == 1
}

/// The six low bits of `m` in reverse order: bit `i` of the result is bit
/// `5 - i` of `m`.
pub fn mirror6(m: u8) -> (r: u8)
    requires
        m < 64,
    ensures
        r < 64,
        forall|i: int| 0 <= i < 6 ==> (#[trigger] bit_set(r, i) <==> bit_set(m, 5 - i)),
{
    let r: u8 = ((m & 1) << 5u8) | ((m & 2) << 3u8) | ((m & 4) << 1u8) | ((m & 8) >> 1u8) | ((m
        & 16) >> 3u8) | ((m & 32) >> 5u8);
    assert(m < 64 ==> r < 64) by (bit_vector)
        requires
            r == ((m & 1) << 5u8) | ((m & 2) << 3u8) | ((m & 4) << 1u8) | ((m & 8) >> 1u8) | ((m
                & 16) >> 3u8) | ((m & 32) >> 5u8),
    ;
    assert(((r >> 0u8) & 1 == 1) == ((m >> 5u8) & 1 == 1) && ((r >> 1u8) & 1 == 1) == ((m >> 4u8)
        & 1 == 1) && ((r >> 2u8) & 1 == 1) == ((m >> 3u8) & 1 == 1) && ((r >> 3u8) & 1 == 1) == ((
    m >> 2u8) & 1 == 1) && ((r >> 4u8) & 1 == 1) == ((m >> 1u8) & 1 == 1) && ((r >> 5u8) & 1 == 1)
        == ((m >> 0u8) & 1 == 1)) by (bit_vector)
        requires
            r == ((m & 1) << 5u8) | ((m & 2) << 3u8) | ((m & 4) << 1u8) | ((m & 8) >> 1u8) | ((m
                & 16) >> 3u8) | ((m & 32) >> 5u8),
    ;
    assert forall|i: int| 0 <= i < 6 implies (#[trigger] bit_set(r, i) <==> bit_set(m, 5 - i)) by {
        assert(i == 0 || i == 1 || i == 2 || i == 3 || i == 4 || i == 5);
    }
    r
}

/// Stall detection from the encoder counts of the six motors.
pub struct StallMonitor {
    last_counts: [i32; 6],
    stall_timers: [u16; 6],
}

impl StallMonitor {
    /// Counts seen at the last update.
    pub closed spec fn last_counts(&self) -> Seq<i32> {
        self.last_counts@
    }

    /// Consecutive cycles each motor has been commanded without progress.
    pub closed spec fn timers(&self) -> Seq<u16> {
        self.stall_timers@
    }

    /// Counts at 0, no stall.
    pub fn new() -> (m: Self)
        ensures
            m.last_counts() == seq![0i32, 0, 0, 0, 0, 0],
            m.timers() == seq![0u16, 0, 0, 0, 0, 0],
    {
        let m = StallMonitor { last_counts: [0; 6], stall_timers: [0; 6] };
        assert(m.last_counts@ =~= seq![0i32, 0, 0, 0, 0, 0]);
        assert(m.stall_timers@ =~= seq![0u16, 0, 0, 0, 0, 0]);
        m
    }

    /// One cycle: updates each motor's stall timer from its commanded speed
    /// and its encoder count, remembers the counts, and returns the mask of
    /// the motors stalled for more than `STALL_THRESHOLD` cycles, as the
    /// telemetry reports it: bit 5 is motor 0 (FR) … bit 0 is motor 5 (RL).
    pub fn update(&mut self, speeds: [i16; 6], counts: [i32; 6]) -> (mask: u8)
        ensures
            final(self).last_counts() == counts@,
            forall|i: int|
                0 <= i < 6 ==> #[trigger] final(self).timers()[i] == next_timer(
                    old(self).timers()[i],
                    speeds@[i],
                    counts@[i],
                    old(self).last_counts()[i],
                ),
            final(self).timers().len() == 6,
            forall|i: int|
                0 <= i < 6 ==> (#[trigger] bit_set(mask, 5 - i) <==> final(self).timers()[i]
                    > STALL_THRESHOLD),
            mask < 64,
    {
        let ghost old_timers = self.stall_timers@;
        let ghost old_last = self.last_counts@;
        let mut mask: u8 = 0;
        let mut i: usize = 0;
        while i < 6
            invariant
                i <= 6,
                self.stall_timers@.len() == 6,
                self.last_counts@.len() == 6,
                old_timers == old(self).timers(),
                old_last == old(self).last_counts(),
                mask < pow2_u8_small(i as int),
                forall|j: int|
                    0 <= j < i ==> #[trigger] self.stall_timers@[j] == next_timer(
                        old_timers[j],
                        speeds@[j],
                        counts@[j],
                        old_last[j],
                    ),
                forall|j: int| i <= j < 6 ==> #[trigger] self.stall_timers@[j] == old_timers[j],
                forall|j: int| 0 <= j < i ==> #[trigger] self.last_counts@[j] == counts@[j],
                forall|j: int| i <= j < 6 ==> #[trigger] self.last_counts@[j] == old_last[j],
                forall|j: int|
                    0 <= j < i ==> (#[trigger] bit_set(mask, j) <==> self.stall_timers@[j]
                        > STALL_THRESHOLD),
            decreases 6 - i,
        {
            let speed = speeds[i];
            let t = self.stall_timers[i];
            let next = if (speed > STALL_SPEED_MIN || speed < -STALL_SPEED_MIN) && counts[i]
                == self.last_counts[i] {
                t.saturating_add(1)
            } else {
                0
            };
            self.stall_timers[i] = next;
            self.last_counts[i] = counts[i];
            let ghost before = mask;
            if next > STALL_THRESHOLD {
                mask = mask | (1u8 << (i as u8));
            }
            proof {
                lemma_mask_bit(before, mask, i as u8, next > STALL_THRESHOLD);
            }
            i = i + 1;
        }
        assert(self.last_counts@ =~= counts@);
        let reported = mirror6(mask);
        assert forall|i: int| 0 <= i < 6 implies (#[trigger] bit_set(reported, 5 - i)
            <==> self.stall_timers@[i] > STALL_THRESHOLD) by {
            assert(bit_set(mask, i) <==> self.stall_timers@[i] > STALL_THRESHOLD);
            assert(bit_set(reported, 5 - i) <==> bit_set(mask, 5 - (5 - i)));
        }
        reported
    }
}

/// `2^i` for the six motor bits.
pub open spec fn pow2_u8_small(i: int) -> int {
    if i <= 0 {
        1
    } else if i == 1 {
        2
    } else if i == 2 {
        4
    } else if i == 3 {
        8
    } else if i == 4 {
        16
    } else if i == 5 {
        32
    } else {
        64
    }
}

/// Setting (or not) bit `i` above the bits already in a mask keeps them
/// and decides bit `i`.
proof fn lemma_mask_bit(before: u8, after: u8, i: u8, set: bool)
    requires
        i < 6,
        (before as int) < pow2_u8_small(i as int),
        set ==> after == before | (1u8 << i),
        !set ==> after == before,
    ensures
        (after as int) < pow2_u8_small(i + 1),
        forall|j: int| 0 <= j < i ==> (#[trigger] bit_set(after, j) <==> bit_set(before, j)),
        bit_set(after, i as int) == set,
{
    let lim: u8 = if i == 0 { 1 } else if i == 1 { 2 } else if i == 2 { 4 } else if i == 3 { 8 } else if i == 4 { 16 } else { 32 };
    assert(lim as int == pow2_u8_small(i as int));
    assert(i < 6 && before < lim && (lim == 1u8 << i) ==> (before | (1u8 << i)) < 2 * lim)
        by (bit_vector);
    assert(lim == 1u8 << i) by (bit_vector)
        requires
            i < 6,
            lim == (if i == 0 { 1u8 } else if i == 1 { 2u8 } else if i == 2 { 4u8 } else if i == 3 { 8u8 } else if i == 4 { 16u8 } else { 32u8 }),
    ;
    assert(i < 6 && before < lim && (lim == 1u8 << i) ==> (before >> i) & 1 == 0) by (bit_vector);
    assert(i < 6 ==> ((before | (1u8 << i)) >> i) & 1 == 1) by (bit_vector);
    assert forall|j: int| 0 <= j < i implies (#[trigger] bit_set(after, j) <==> bit_set(before, j)) by {
        let jj = j as u8;
        assert(jj < i && i < 6 ==> ((before | (1u8 << i)) >> jj) & 1 == (before >> jj) & 1)
            by (bit_vector);
    }
}

/// Severity of a motor current against the motor's thresholds (each one
/// strictly exceeded).
pub open spec fn current_level_spec(ma: i32, warn: i32, limit: i32, fault: i32) -> SafetyState {
    let mag: int = if ma < 0 {
        -ma
    } else {
        ma as int
    };
    if mag > fault {
        SafetyState::FaultStall
    } else if mag > limit {
        SafetyState::Limit
    } else if mag > warn {
        SafetyState::Warn
    } else {
        SafetyState::Normal
    }
}

/// Severity of a battery temperature.
pub open spec fn battery_level_spec(t: i32) -> SafetyState {
    if t > BATT_FAULT_C {
        SafetyState::FaultStall
    } else if t > BATT_LIMIT_C {
        SafetyState::Limit
    } else if t > BATT_WARN_C {
        SafetyState::Warn
    } else {
        SafetyState::Normal
    }
}

/// Magnitude of a current as a 64-bit value.
fn magnitude(ma: i32) -> (m: i64)
    ensures
        m == (if ma < 0 {
            -ma
        } else {
            ma as int
        }),
{
    if ma < 0 {
        -(ma as i64)
    } else {
        ma as i64
    }
}

/// Severity of the current `ma` of a motor with thresholds `warn`,
/// `limit` and `fault` (mA).
pub fn current_level(ma: i32, warn: i32, limit: i32, fault: i32) -> (s: SafetyState)
    ensures
        s == current_level_spec(ma, warn, limit, fault),
{
    let mag = magnitude(ma);
    if mag > fault as i64 {
        SafetyState::FaultStall
    } else if mag > limit as i64 {
        SafetyState::Limit
    } else if mag > warn as i64 {
        SafetyState::Warn
    } else {
        SafetyState::Normal
    }
}

/// Severity of a battery temperature (°C).
pub fn battery_level(t: i32) -> (s: SafetyState)
    ensures
        s == battery_level_spec(t),
{
    if t > BATT_FAULT_C {
        SafetyState::FaultStall
    } else if t > BATT_LIMIT_C {
        SafetyState::Limit
    } else if t > BATT_WARN_C {
        SafetyState::Warn
    } else {
        SafetyState::Normal
    }
}

/// The more severe of two levels.
pub open spec fn worse_spec(a: SafetyState, b: SafetyState) -> SafetyState {
    if severity(b) > severity(a) {
        b
    } else {
        a
    }
}

fn rank(s: SafetyState) -> (r: u8)
    ensures
        r == severity(s),
{
    match s {
        SafetyState::Normal => 0,
        SafetyState::Warn => 1,
        SafetyState::Limit => 2,
        SafetyState::FaultStall => 3,
    }
}

/// The more severe of two levels.
pub fn worse(a: SafetyState, b: SafetyState) -> (s: SafetyState)
    ensures
        s == worse_spec(a, b),
{
    if rank(b) > rank(a) {
        b
    } else {
        a
    }
}

/// Severity of the current `ma` of motor `i` under its driver's thresholds.
pub open spec fn level_of(ma: i32, layout: DriverLayout, i: int) -> SafetyState {
    current_level_spec(
        ma,
        oc_thresholds_spec(layout, i).0,
        oc_thresholds_spec(layout, i).1,
        oc_thresholds_spec(layout, i).2,
    )
}

/// Mixed-fit current law: a BTS7960 motor (CR, CL, RR, RL) drawing up to
/// 8 A in either direction is normal and faults only beyond 15 A, while an
/// L298N motor (FR, FL) faults beyond 2 A.
pub proof fn law_mixed_fit_currents(ma: i32, i: int)
    requires
        0 <= i < 6,
    ensures
        i >= 2 && -8000 <= ma <= 8000 ==> level_of(ma, DriverLayout::MixedDrivers, i)
            == SafetyState::Normal,
        i >= 2 && (ma > 15000 || ma < -15000) ==> level_of(ma, DriverLayout::MixedDrivers, i)
            == SafetyState::FaultStall,
        i >= 2 && -15000 <= ma <= 15000 ==> level_of(ma, DriverLayout::MixedDrivers, i)
            != SafetyState::FaultStall,
        i < 2 && (ma > 2000 || ma < -2000) ==> level_of(ma, DriverLayout::MixedDrivers, i)
            == SafetyState::FaultStall,
{
    crate::config::law_layout_thresholds(i);
}

/// Severity of the worst of the six motor currents (against the
/// thresholds of each motor's driver in `layout`) and the six battery
/// temperatures.
pub fn worst_level(currents: [i32; 6], batt_temps: [i32; 6], layout: DriverLayout) -> (s: SafetyState)
    ensures
        forall|i: int|
            0 <= i < 6 ==> severity(s) >= severity(
                #[trigger] level_of(currents@[i], layout, i),
            ),
        forall|i: int|
            0 <= i < 6 ==> severity(s) >= severity(#[trigger] battery_level_spec(batt_temps@[i])),
        s == SafetyState::Normal || (exists|i: int|
            0 <= i < 6 && s == #[trigger] level_of(currents@[i], layout, i)) || (exists|i: int| 0 <= i < 6 && s == #[trigger] battery_level_spec(batt_temps@[i])),
{
    let mut worst = SafetyState::Normal;
    let mut i: usize = 0;
    while i < 6
        invariant
            i <= 6,
            forall|j: int|
                0 <= j < i ==> severity(worst) >= severity(
                    #[trigger] level_of(currents@[j], layout, j),
                ),
            worst == SafetyState::Normal || (exists|j: int|
                0 <= j < i && worst == #[trigger] level_of(currents@[j], layout, j)),
        decreases 6 - i,
    {
        let (warn, limit, fault) = oc_thresholds(layout, i);
        let level = current_level(currents[i], warn, limit, fault);
        assert(level == level_of(currents@[i as int], layout, i as int));
        worst = worse(worst, level);
        i = i + 1;
    }
    let ghost from_currents = worst;
    let mut k: usize = 0;
    while k < 6
        invariant
            k <= 6,
            forall|j: int|
                0 <= j < 6 ==> severity(worst) >= severity(
                    #[trigger] level_of(currents@[j], layout, j),
                ),
            forall|j: int|
                0 <= j < k ==> severity(worst) >= severity(#[trigger] battery_level_spec(batt_temps@[j])),
            worst == SafetyState::Normal || (exists|j: int|
                0 <= j < 6 && worst == #[trigger] level_of(currents@[j], layout, j)) || (exists|j: int| 0 <= j < k && worst == #[trigger] battery_level_spec(batt_temps@[j])),
        decreases 6 - k,
    {
        let level = battery_level(batt_temps[k]);
        worst = worse(worst, level);
        k = k + 1;
    }
    worst
}

/// Motors (bit `i` = motor `i`) whose current exceeds the fault threshold
/// of their driver in `layout`.
pub fn overcurrent_mask(currents: [i32; 6], layout: DriverLayout) -> (mask: u8)
    ensures
        mask < 64,
        forall|i: int|
            0 <= i < 6 ==> (#[trigger] bit_set(mask, i) <==> level_of(currents@[i], layout, i) == SafetyState::FaultStall),
{
    let mut mask: u8 = 0;
    let mut i: usize = 0;
    while i < 6
        invariant
            i <= 6,
            mask < pow2_u8_small(i as int),
            forall|j: int|
                0 <= j < i ==> (#[trigger] bit_set(mask, j) <==> level_of(currents@[j], layout, j) == SafetyState::FaultStall),
        decreases 6 - i,
    {
        let (_, _, fault) = oc_thresholds(layout, i);
        let over = magnitude(currents[i]) > fault as i64;
        let ghost before = mask;
        if over {
            mask = mask | (1u8 << (i as u8));
        }
        proof {
            lemma_mask_bit(before, mask, i as u8, over);
        }
        i = i + 1;
    }
    mask
}

/// An ultrasonic reading this close forces a fault.
pub fn ultrasonic_emergency(mm: u16) -> (r: bool)
    ensures
        r == (mm < HC_EMERGENCY_MM),
{
    mm < HC_EMERGENCY_MM
}

/// A time-of-flight reading this close forces a fault.
pub fn tof_emergency(mm: u16) -> (r: bool)
    ensures
        r == (mm < TOF_EMERGENCY_MM),
{
    mm < TOF_EMERGENCY_MM
}

/// After the slow sensor read: whether the drive must be re-applied (a
/// fault, a change of safety level, or a level other than `Normal`) and
/// whether telemetry must go out at once (a fault or a level other than
/// `Normal`).
pub fn after_sensor_read(faulted: bool, prev: SafetyState, now: SafetyState) -> (r: (bool, bool))
    ensures
        r.0 == (faulted || prev != now || now != SafetyState::Normal),
        r.1 == (faulted || now != SafetyState::Normal),
{
    let changed = rank(prev) != rank(now);
    let abnormal = rank(now) != 0;
    (faulted || changed || abnormal, faulted || abnormal)
}

/// Mean of `n` ADC samples whose sum is `sum`, as a 16-bit reading.
pub fn adc_mean(sum: u32, n: u8) -> (m: u16)
    requires
        n > 0,
    ensures
        m == (sum / (n as u32)) as u16,
{
    (sum / (n as u32)) as u16
}

/// Lower-case hexadecimal digit of a nibble.
pub fn hex_digit(n: u8) -> (c: u8)
    requires
        n < 16,
    ensures
        n < 10 ==> c == 48 + n,
        n >= 10 ==> c == 97 + n - 10,
{
    if n < 10 {
        48 + n
    } else {
        97 + n - 10
    }
}

/// Cycle counters of the periodic tasks, and the time since start.
pub struct LoopSchedule {
    pub hc_counter: u8,
    pub sen_fast_counter: u8,
    pub sen_counter: u8,
    pub tlm_counter: u8,
    pub elapsed_ms: u32,
}

/// Counter after one cycle of a task run every `period` cycles, and
/// whether the task is due.
pub open spec fn period_step(counter: u8, period: u8) -> (u8, bool) {
    let next = if counter == u8::MAX {
        0u8
    } else {
        (counter + 1) as u8
    };
    if next >= period {
        (0, true)
    } else {
        (next, false)
    }
}

fn advance(counter: u8, period: u8) -> (r: (u8, bool))
    ensures
        r == period_step(counter, period),
{
    let next = counter.wrapping_add(1);
    if next >= period {
        (0, true)
    } else {
        (next, false)
    }
}

impl LoopSchedule {
    /// All counters at 0.
    pub fn new() -> (s: Self)
        ensures
            s.hc_counter == 0 && s.sen_fast_counter == 0 && s.sen_counter == 0 && s.tlm_counter
                == 0 && s.elapsed_ms == 0,
    {
        LoopSchedule { hc_counter: 0, sen_fast_counter: 0, sen_counter: 0, tlm_counter: 0, elapsed_ms: 0 }
    }

    /// Range sensors, every `HC_READ_PERIOD` cycles.
    pub fn range_due(&mut self) -> (due: bool)
        ensures
            (final(self).hc_counter, due) == period_step(old(self).hc_counter, HC_READ_PERIOD),
            final(self).sen_fast_counter == old(self).sen_fast_counter,
            final(self).sen_counter == old(self).sen_counter,
            final(self).tlm_counter == old(self).tlm_counter,
            final(self).elapsed_ms == old(self).elapsed_ms,
    {
        let (c, due) = advance(self.hc_counter, HC_READ_PERIOD);
        self.hc_counter = c;
        due
    }

    /// Fast overcurrent check, every `SEN_FAST_PERIOD` cycles and never in
    /// FAULT (the counter keeps running there).
    pub fn fast_check_due(&mut self, state: RoverState) -> (due: bool)
        ensures
            due == (!(state is Fault) && old(self).sen_fast_counter as int + 1 >= SEN_FAST_PERIOD
                && old(self).sen_fast_counter < u8::MAX),
            due ==> final(self).sen_fast_counter == 0,
            !due ==> final(self).sen_fast_counter == (if old(self).sen_fast_counter == u8::MAX {
                0u8
            } else {
                (old(self).sen_fast_counter + 1) as u8
            }),
            final(self).hc_counter == old(self).hc_counter,
            final(self).sen_counter == old(self).sen_counter,
            final(self).tlm_counter == old(self).tlm_counter,
            final(self).elapsed_ms == old(self).elapsed_ms,
    {
        let next = self.sen_fast_counter.wrapping_add(1);
        let fault = match state {
            RoverState::Fault => true,
            _ => false,
        };
        if next >= SEN_FAST_PERIOD && !fault {
            self.sen_fast_counter = 0;
            true
        } else {
            self.sen_fast_counter = next;
            false
        }
    }

    /// Slow sensor read, every `SEN_READ_PERIOD` cycles.
    pub fn sensor_read_due(&mut self) -> (due: bool)
        ensures
            (final(self).sen_counter, due) == period_step(old(self).sen_counter, SEN_READ_PERIOD),
            final(self).hc_counter == old(self).hc_counter,
            final(self).sen_fast_counter == old(self).sen_fast_counter,
            final(self).tlm_counter == old(self).tlm_counter,
            final(self).elapsed_ms == old(self).elapsed_ms,
    {
        let (c, due) = advance(self.sen_counter, SEN_READ_PERIOD);
        self.sen_counter = c;
        due
    }

    /// Periodic telemetry, every `TLM_PERIOD` cycles.
    pub fn telemetry_due(&mut self) -> (due: bool)
        ensures
            (final(self).tlm_counter, due) == period_step(old(self).tlm_counter, TLM_PERIOD),
            final(self).hc_counter == old(self).hc_counter,
            final(self).sen_fast_counter == old(self).sen_fast_counter,
            final(self).sen_counter == old(self).sen_counter,
            final(self).elapsed_ms == old(self).elapsed_ms,
    {
        let (c, due) = advance(self.tlm_counter, TLM_PERIOD);
        self.tlm_counter = c;
        due
    }

    /// One more cycle of `LOOP_MS`; returns the time since start (wrapping
    /// after ~49 days).
    pub fn end_cycle(&mut self) -> (t: u32)
        ensures
            t == final(self).elapsed_ms,
            t == (old(self).elapsed_ms + LOOP_MS) % 0x1_0000_0000,
            final(self).hc_counter == old(self).hc_counter,
            final(self).sen_fast_counter == old(self).sen_fast_counter,
            final(self).sen_counter == old(self).sen_counter,
            final(self).tlm_counter == old(self).tlm_counter,
    {
        self.elapsed_ms = self.elapsed_ms.wrapping_add(LOOP_MS);
        self.elapsed_ms
    }
}

} // verus!
