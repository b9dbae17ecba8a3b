//! The kernel timer: a count of timer interrupts.
use vstd::prelude::*;

verus! {

/// The timer after one more interrupt.
pub open spec fn updated(time: u32) -> u32 {
    (time + 1) as u32
}

/// The timer after `n` more interrupts.
pub open spec fn updated_n(time: u32, n: nat) -> u32
    decreases n,
{
    if n == 0 {
        time
    } else {
        updated(updated_n(time, (n - 1) as nat))
    }
}

/// Counts one more timer interrupt.
pub fn update_time(time: &mut u32)
    requires
        *old(time) < u32::MAX,
    ensures
        *final(time) == *old(time) + 1,
        *final(time) == updated(*old(time)),
{
    *time += 1;
}

/// The number of timer interrupts so far.
pub fn get_time(time: &u32) -> (t: u32)
    ensures
        t == *time,
{
    *time
}

/// After `n` interrupts counted from `time`, the timer reads `time + n`, as
/// long as that fits; each of the `n` updates was allowed (`get_time` reads
/// the timer without changing it).
pub proof fn lemma_timer_counts(time: u32, n: nat)
    requires
        time + n <= u32::MAX,
    ensures
        updated_n(time, n) == time + n,
        forall|k: nat| k < n ==> #[trigger] updated_n(time, k) < u32::MAX,
    decreases n,
{
    if n > 0 {
        lemma_timer_counts(time, (n - 1) as nat);
        assert forall|k: nat| k < n implies #[trigger] updated_n(time, k) < u32::MAX by {
            if k < n - 1 {
            } else {
                assert(updated_n(time, k) == time + k);
            }
        }
    }
}

} // verus!
