//! Speed ramp for soft stop / soft start of the two drive sides.
//!
//! Instead of jumping to a new duty cycle, each loop cycle moves the applied
//! speed at most `step` points towards the target; with a step of 10 a stop
//! from 100 % takes exactly 10 cycles (200 ms). Safety stops use `hard_stop`.

use vstd::prelude::*;

verus! {

/// Applied speeds of the left and right sides (percent), as opposed to the
/// targets set by the state machine.
pub struct DriveRamp {
    /// Speed currently applied to the left side.
    pub actual_l: i16,
    /// Speed currently applied to the right side.
    pub actual_r: i16,
}

/// One ramp step from `current` towards `target`, at most `step` away.
pub open spec fn step_toward_spec(current: i16, target: i16, step: i16) -> i16 {
    let diff = target - current;
    if diff == 0 {
        current
    } else if abs_int(diff) <= step {
        target
    } else if diff > 0 {
        (current + step) as i16
    } else {
        (current - step) as i16
    }
}

pub open spec fn abs_int(v: int) -> int {
    if v < 0 {
        -v
    } else {
        v
    }
}

/// The arithmetic of one step stays within `i16`.
pub open spec fn step_fits(current: i16, target: i16, step: i16) -> bool {
    let diff = target - current;
    &&& i16::MIN < diff <= i16::MAX
    &&& (abs_int(diff) > step && diff > 0) ==> i16::MIN <= current + step <= i16::MAX
    &&& (abs_int(diff) > step && diff < 0) ==> i16::MIN <= current - step <= i16::MAX
}

impl DriveRamp {
    /// Both sides at rest.
    pub fn new() -> (r: Self)
        ensures
            r.actual_l == 0,
            r.actual_r == 0,
    {
        DriveRamp { actual_l: 0, actual_r: 0 }
    }

    /// Moves each side at most `step` towards its target and returns the
    /// speeds to apply this cycle. The two sides are independent.
    pub fn step(&mut self, target_l: i16, target_r: i16, step: i16) -> (r: (i16, i16))
        requires
            step_fits(old(self).actual_l, target_l, step),
            step_fits(old(self).actual_r, target_r, step),
        ensures
            final(self).actual_l == step_toward_spec(old(self).actual_l, target_l, step),
            final(self).actual_r == step_toward_spec(old(self).actual_r, target_r, step),
            r == (final(self).actual_l, final(self).actual_r),
    {
        self.actual_l = step_toward(self.actual_l, target_l, step);
        self.actual_r = step_toward(self.actual_r, target_r, step);
        (self.actual_l, self.actual_r)
    }

    /// Stops both sides at once, without ramping (obstacle, overcurrent, stall).
    pub fn hard_stop(&mut self)
        ensures
            final(self).actual_l == 0,
            final(self).actual_r == 0,
    {
        self.actual_l = 0;
        self.actual_r = 0;
    }

    /// Whether both sides have reached their targets.
    pub fn at_target(&self, target_l: i16, target_r: i16) -> (r: bool)
        ensures
            r == (self.actual_l == target_l && self.actual_r == target_r),
    {
        self.actual_l == target_l && self.actual_r == target_r
    }
}

/// Moves `current` towards `target` by at most `step`.
pub fn step_toward(current: i16, target: i16, step: i16) -> (r: i16)
    requires
        step_fits(current, target, step),
    ensures
        r == step_toward_spec(current, target, step),
{
    let diff = target - current;
    if diff == 0 {
        return current;
    }
    let magnitude = if diff < 0 { -diff } else { diff };
    if magnitude <= step {
        return target;
    }
    if diff > 0 {
        current + step
    } else {
        current - step
    }
}

/// Distance left to the target after one step: the step never overshoots,
/// and it closes the gap by exactly `step` or to zero.
pub proof fn law_step_never_overshoots(current: i16, target: i16, step: i16)
    requires
        step >= 0,
        step_fits(current, target, step),
    ensures
        abs_int(target - step_toward_spec(current, target, step)) == if abs_int(target - current)
            <= step {
            0
        } else {
            abs_int(target - current) - step
        },
        current <= target ==> current <= step_toward_spec(current, target, step) <= target,
        target <= current ==> target <= step_toward_spec(current, target, step) <= current,
{
}

/// Ramp convergence: repeating steps towards a fixed target from `runs[0]`,
/// the distance after `k` steps is `max(0, d - k * step)`, where `d` is the
/// initial distance. So a ramp reaches its target in exactly
/// `ceil(d / step)` steps, whichever direction it moves in (a stop from +v
/// and a start towards +v take the same time).
pub proof fn law_ramp_convergence(runs: Seq<i16>, target: i16, step: i16, k: int)
    requires
        step > 0,
        0 <= k < runs.len(),
        forall|i: int|
            0 <= i < runs.len() - 1 ==> step_fits(#[trigger] runs[i], target, step) && runs[i + 1]
                == step_toward_spec(runs[i], target, step),
    ensures
        abs_int(target - runs[k]) == if k * step >= abs_int(target - runs[0]) {
            0
        } else {
            abs_int(target - runs[0]) - k * step
        },
        (runs[k] == target) == (k * step >= abs_int(target - runs[0])),
    decreases k,
{
    if k > 0 {
        law_ramp_convergence(runs, target, step, k - 1);
        assert(step_fits(runs[k - 1], target, step));
        law_step_never_overshoots(runs[k - 1], target, step);
        assert(k * step == (k - 1) * step + step) by (nonlinear_arith);
    } else {
        assert(k * step == 0) by (nonlinear_arith)
            requires
                k == 0,
        ;
    }
}

} // verus!
