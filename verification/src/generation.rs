//! Generation counting shared by the field evaluator and the terminal
//! renderer: a wave's generation is the whole part of its accumulator, and a
//! fork exists from its split generation on, counted within a 256-long cycle.

use vstd::prelude::*;

verus! {

/// Length of the cycle in which forks split and age.
pub const FORK_CYCLE: u64 = 256;

/// The age of a fork in generations, or nothing while it has not split yet:
/// both the origin's generation and the split point are taken modulo 256.
pub open spec fn fork_age_spec(origin_gn: u64, split_at: u64) -> Option<u64> {
    let o = origin_gn % 256;
    let s = split_at % 256;
    if o < s {
        None
    } else {
        Some((o - s) as u64)
    }
}

/// A fork exists exactly when the origin's generation has reached the
/// split point within the 256-long cycle, and its age added to the split
/// point gives back the origin's generation in the cycle.
pub proof fn lemma_fork_age(origin_gn: u64, split_at: u64)
    ensures
        fork_age_spec(origin_gn, split_at) is Some <==> split_at % 256 <= origin_gn % 256,
        fork_age_spec(origin_gn, split_at) matches Some(a) ==> a + split_at % 256 == origin_gn
            % 256,
{
}

/// The generations a fork has lived, given the origin wave's generation and
/// the generation at which the fork splits off.
pub fn fork_age(origin_gn: u64, split_at: u64) -> (r: Option<u64>)
    ensures
        r == fork_age_spec(origin_gn, split_at),
        r matches Some(a) ==> a < 256,
{
    let o = origin_gn % FORK_CYCLE;
    let s = split_at % FORK_CYCLE;
    if o < s {
        None
    } else {
        Some(o - s)
    }
}

} // verus!
