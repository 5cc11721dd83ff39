//! Counting rules of the wheel encoders. The counters themselves live in
//! interrupt-shared cells on the board side; each interrupt applies one of
//! these steps.
//!
//! `HallEncoder` (one channel) counts pulses, or up and down when the
//! direction is known; `QuadratureEncoder` (channels A and B, x2 decoding
//! on both edges of A) takes the direction from the levels of A and B.

use vstd::prelude::*;

verus! {

/// Direction of a quadrature edge on channel A: forward when A and B
/// differ (A rising with B low, or A falling with B high).
pub open spec fn quadrature_forward_spec(a_high: bool, b_high: bool) -> bool {
    a_high != b_high
}

pub fn quadrature_is_forward(a_high: bool, b_high: bool) -> (r: bool)
    ensures
        r == quadrature_forward_spec(a_high, b_high),
{
    a_high ^ b_high
}

/// Count after a step in the given direction; the 32-bit counter wraps.
pub open spec fn step_count(count: i32, forward: bool) -> i32 {
    if forward {
        if count == i32::MAX {
            i32::MIN
        } else {
            (count + 1) as i32
        }
    } else if count == i32::MIN {
        i32::MAX
    } else {
        (count - 1) as i32
    }
}

/// A step forward and a step back cancel, wherever the counter stands.
pub proof fn law_steps_cancel(count: i32)
    ensures
        step_count(step_count(count, true), false) == count,
        step_count(step_count(count, false), true) == count,
{
}

/// Count after one more pulse.
pub fn pulse_count(count: i32) -> (r: i32)
    ensures
        r == step_count(count, true),
{
    count.wrapping_add(1)
}

/// Count after a pulse in a known direction: one up forward, one down
/// backward.
pub fn directed_count(count: i32, forward: bool) -> (r: i32)
    ensures
        r == step_count(count, forward),
{
    if forward {
        count.wrapping_add(1)
    } else {
        count.wrapping_sub(1)
    }
}

/// Count after an edge of channel A with the levels `a_high`, `b_high`.
pub fn quadrature_count(count: i32, a_high: bool, b_high: bool) -> (r: i32)
    ensures
        r == step_count(count, quadrature_forward_spec(a_high, b_high)),
{
    directed_count(count, quadrature_is_forward(a_high, b_high))
}

} // verus!
