//! Task-set construction and the highest-priority query.
use vstd::prelude::*;

use crate::bits;
use crate::config::MAX_TASKS;

verus! {

/// The task set holding exactly the tasks listed in `tasks`.
pub open spec fn mask_of(tasks: Seq<u32>) -> u32
    decreases tasks.len(),
{
    if tasks.len() == 0 {
        0
    } else {
        mask_of(tasks.drop_last()) | (1u32 << tasks.last())
    }
}

/// Every listed id is a valid task id.
pub open spec fn valid_task_ids(tasks: Seq<u32>) -> bool {
    forall|i: int| 0 <= i < tasks.len() ==> #[trigger] tasks[i] < 32
}

/// The largest `j < n` such that task `j` is in `val`, or 0 when there is none.
pub open spec fn highest_below(val: u32, n: nat) -> nat
    decreases n,
{
    if n == 0 {
        0
    } else if bits::has_task(val, (n - 1) as u32) {
        (n - 1) as nat
    } else {
        highest_below(val, (n - 1) as nat)
    }
}

/// The highest-priority task in `val`, or 0 when `val` names no task.
pub open spec fn msb(val: u32) -> nat {
    highest_below(val, MAX_TASKS as nat)
}

/// Membership in `mask_of(tasks)` is membership in the list.
pub proof fn lemma_mask_of_members(tasks: Seq<u32>)
    requires
        valid_task_ids(tasks),
    ensures
        forall|t: u32| t < 32 ==> (#[trigger] bits::has_task(mask_of(tasks), t) <==> tasks.contains(t)),
    decreases tasks.len(),
{
    bits::lemma_has_task_ops();
    if tasks.len() > 0 {
        let init = tasks.drop_last();
        assert(valid_task_ids(init)) by {
            assert forall|i: int| 0 <= i < init.len() implies #[trigger] init[i] < 32 by {
                assert(init[i] == tasks[i]);
            }
        }
        lemma_mask_of_members(init);
        assert(tasks.last() < 32) by {
            assert(tasks[tasks.len() - 1] < 32);
        }
        assert forall|t: u32| t < 32 implies (#[trigger] bits::has_task(mask_of(tasks), t)
            <==> tasks.contains(t)) by {
            assert(bits::has_task(mask_of(tasks), t) == (bits::has_task(mask_of(init), t) || bits::has_task(
                1u32 << tasks.last(),
                t,
            )));
            if tasks.contains(t) {
                let i = choose|i: int| 0 <= i < tasks.len() && tasks[i] == t;
                if i < tasks.len() - 1 {
                    assert(init[i] == t);
                }
            }
            if init.contains(t) {
                let i = choose|i: int| 0 <= i < init.len() && init[i] == t;
                assert(tasks[i] == t);
            }
            if tasks.last() == t {
                assert(tasks[tasks.len() - 1] == t);
            }
        }
    }
}

/// What the highest-priority query finds: a member of `val` above which no
/// task of `val` lies, and 0 for the empty set.
pub proof fn lemma_msb(val: u32)
    ensures
        msb(val) < 32,
        val == 0 ==> msb(val) == 0,
        val != 0 ==> bits::has_task(val, msb(val) as u32),
        forall|j: u32| msb(val) < j < 32 ==> !#[trigger] bits::has_task(val, j),
{
    lemma_highest_below(val, 32);
    bits::lemma_has_task_ops();
    if val != 0 {
        if !(exists|j: u32| j < 32 && bits::has_task(val, j)) {
            bits::lemma_same_members_equal(val, 0);
        }
    }
}

proof fn lemma_highest_below(val: u32, n: nat)
    requires
        n <= 32,
    ensures
        n == 0 ==> highest_below(val, n) == 0,
        n > 0 ==> highest_below(val, n) < n,
        (exists|j: u32| j < n && bits::has_task(val, j)) ==> bits::has_task(val, highest_below(val, n) as u32),
        forall|j: u32| highest_below(val, n) < j < n ==> !#[trigger] bits::has_task(val, j),
        (forall|j: u32| j < n ==> !#[trigger] bits::has_task(val, j)) ==> highest_below(val, n) == 0,
    decreases n,
{
    if n > 0 {
        lemma_highest_below(val, (n - 1) as nat);
        if !bits::has_task(val, (n - 1) as u32) {
            if exists|j: u32| j < n && bits::has_task(val, j) {
                let j = choose|j: u32| j < n && bits::has_task(val, j);
                assert(j < n - 1);
            }
        }
    }
}

/// The task set holding exactly the tasks listed in `tasks`.
pub fn generate_task_mask(tasks: &[u32]) -> (task_mask: u32)
    requires
        valid_task_ids(tasks@),
    ensures
        task_mask == mask_of(tasks@),
        forall|t: u32| t < 32 ==> (#[trigger] bits::has_task(task_mask, t) <==> tasks@.contains(t)),
{
    let mut task_mask: u32 = 0;
    let mut i: usize = 0;
    while i < tasks.len()
        invariant
            i <= tasks@.len(),
            valid_task_ids(tasks@),
            task_mask == mask_of(tasks@.take(i as int)),
        decreases tasks@.len() - i,
    {
        let tid = tasks[i];
        assert(tasks@[i as int] < 32);
        task_mask |= 1u32 << tid;
        proof {
            assert(tasks@.take(i as int + 1).drop_last() =~= tasks@.take(i as int));
        }
        i += 1;
    }
    proof {
        assert(tasks@.take(i as int) =~= tasks@);
        lemma_mask_of_members(tasks@);
    }
    task_mask
}

/// The highest-priority task in `val`, or 0 when `val` names no task.
pub fn get_msb(val: &u32) -> (res: usize)
    ensures
        res == msb(*val),
        res < MAX_TASKS,
{
    let mut i: usize = MAX_TASKS;
    while i > 0
        invariant
            i <= MAX_TASKS,
            msb(*val) == highest_below(*val, i as nat),
        decreases i,
    {
        i -= 1;
        let mask: u32 = 1u32 << (i as u32);
        proof {
            bits::lemma_single_bit_test();
        }
        if *val & mask == mask {
            return i;
        }
    }
    0
}

} // verus!
