//! Arithmetic on the circle of 32-bit sequence numbers.
//!
//! A sequence number is a point on a circle of 2^32 points. Two of them are
//! never compared with `<`; the one question asked of them is whether a point
//! lies on the clockwise arc that leads from one point to another.

use vstd::prelude::*;

verus! {

/// Number of points on the sequence-number circle.
pub open spec fn modulus() -> nat {
    0x1_0000_0000
}

/// Clockwise distance from `from` to `to`, in `0 .. 2^32`.
pub open spec fn distance(from: u32, to: u32) -> nat {
    if from <= to {
        (to - from) as nat
    } else {
        (to - from + modulus()) as nat
    }
}

/// The point reached from `base` after `steps` clockwise steps.
pub open spec fn seq_add(base: u32, steps: nat) -> u32 {
    ((base as nat + steps) % modulus()) as u32
}

/// Membership of `val` in the closed clockwise arc from `start` to `end`.
///
/// Where the arc does not pass through zero it is the plain interval
/// `start ..= end`; where it does, it is everything from `start` upwards
/// together with everything up to `end`.
pub open spec fn is_between_wrapped(start: u32, end: u32, val: u32) -> bool {
    if start <= end {
        start <= val && val <= end
    } else {
        val >= start || val <= end
    }
}

/// Decides whether `val` lies on the clockwise arc from `start` to `end`,
/// both ends included.
pub fn is_between(start: u32, end: u32, val: u32) -> (inside: bool)
    ensures
        inside == is_between_wrapped(start, end, val),
        start > end ==> inside == (val >= start || val <= end),
{
    if start <= end {
        start <= val && val <= end
    } else {
        val >= start || val <= end
    }
}

/// Moves `base` forward by `steps`, wrapping through zero.
pub fn advance(base: u32, steps: usize) -> (next: u32)
    ensures
        next == seq_add(base, steps as nat),
{
    let wide: u64 = steps as u64;
    let reduced: u64 = wide % 0x1_0000_0000u64;
    let total: u64 = base as u64 + reduced;
    let wrapped: u64 = total % 0x1_0000_0000u64;
    wrapped as u32
}

/// Steps add up: `first` steps and then `second` steps lead where
/// `first + second` steps lead.
pub proof fn lemma_seq_add_adds_up(base: u32, first: nat, second: nat)
    ensures
        seq_add(seq_add(base, first), second) == seq_add(base, first + second),
{
    vstd::arithmetic::div_mod::lemma_add_mod_noop_right(
        second as int,
        base as int + first as int,
        modulus() as int,
    );
}

/// An arc is the set of points no farther from its start than its end is.
pub proof fn lemma_arc_is_distance_bound(start: u32, end: u32, val: u32)
    ensures
        is_between_wrapped(start, end, val) <==> distance(start, val) <= distance(start, end),
{
}

/// Turning the circle keeps distances: both points moved by the same number
/// of steps are as far apart as before.
pub proof fn lemma_distance_is_rotation_invariant(from: u32, to: u32, steps: nat)
    ensures
        distance(seq_add(from, steps), seq_add(to, steps)) == distance(from, to),
{
    let m = modulus() as int;
    let k = (steps % modulus()) as int;
    assert(seq_add(from, steps) as int == (from + k) % m) by {
        vstd::arithmetic::div_mod::lemma_add_mod_noop_right(from as int, steps as int, m);
    }
    assert(seq_add(to, steps) as int == (to + k) % m) by {
        vstd::arithmetic::div_mod::lemma_add_mod_noop_right(to as int, steps as int, m);
    }
}

/// Turning the circle keeps arcs: membership is the same after start, end
/// and point have all been moved by the same number of steps.
pub proof fn lemma_arc_is_rotation_invariant(start: u32, end: u32, val: u32, steps: nat)
    ensures
        is_between_wrapped(seq_add(start, steps), seq_add(end, steps), seq_add(val, steps))
            == is_between_wrapped(start, end, val),
{
    lemma_distance_is_rotation_invariant(start, end, steps);
    lemma_distance_is_rotation_invariant(start, val, steps);
    lemma_arc_is_distance_bound(start, end, val);
    lemma_arc_is_distance_bound(
        seq_add(start, steps),
        seq_add(end, steps),
        seq_add(val, steps),
    );
}

} // verus!
