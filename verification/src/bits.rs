//! The bit-vector view of task sets.
use vstd::prelude::*;

verus! {

/// Task `tid` is a member of the task set `mask`.
pub open spec fn has_task(mask: u32, tid: u32) -> bool {
    mask & (1u32 << tid) != 0
}

/// How membership behaves under the bitwise operations that the kernel uses.
pub proof fn lemma_has_task_ops()
    by (bit_vector)
    ensures
        forall|a: u32, b: u32, t: u32|
            t < 32 ==> (#[trigger] has_task(a | b, t) <==> has_task(a, t) || has_task(b, t)),
        forall|a: u32, b: u32, t: u32|
            t < 32 ==> (#[trigger] has_task(a & !b, t) <==> has_task(a, t) && !has_task(b, t)),
        forall|a: u32, b: u32, t: u32|
            t < 32 ==> (#[trigger] has_task(a & b, t) <==> has_task(a, t) && has_task(b, t)),
        forall|s: u32, t: u32|
            s < 32 && t < 32 ==> (#[trigger] has_task(1u32 << s, t) <==> s == t),
        forall|t: u32| t < 32 ==> !#[trigger] has_task(0u32, t),
        forall|t: u32| t < 32 ==> #[trigger] has_task(0xffff_ffffu32, t),
{
}

/// A single-bit test written as `v & m == m` is membership.
pub proof fn lemma_single_bit_test()
    by (bit_vector)
    ensures
        forall|v: u32, t: u32|
            t < 32 ==> ((#[trigger] (v & (1u32 << t)) == (1u32 << t)) <==> has_task(v, t)),
{
}

/// Two task sets with the same members are equal.
pub proof fn lemma_same_members_equal(a: u32, b: u32)
    requires
        forall|t: u32| t < 32 ==> (has_task(a, t) <==> has_task(b, t)),
    ensures
        a == b,
{
    assert(has_task(a, 0) == has_task(b, 0));
    assert(has_task(a, 1) == has_task(b, 1));
    assert(has_task(a, 2) == has_task(b, 2));
    assert(has_task(a, 3) == has_task(b, 3));
    assert(has_task(a, 4) == has_task(b, 4));
    assert(has_task(a, 5) == has_task(b, 5));
    assert(has_task(a, 6) == has_task(b, 6));
    assert(has_task(a, 7) == has_task(b, 7));
    assert(has_task(a, 8) == has_task(b, 8));
    assert(has_task(a, 9) == has_task(b, 9));
    assert(has_task(a, 10) == has_task(b, 10));
    assert(has_task(a, 11) == has_task(b, 11));
    assert(has_task(a, 12) == has_task(b, 12));
    assert(has_task(a, 13) == has_task(b, 13));
    assert(has_task(a, 14) == has_task(b, 14));
    assert(has_task(a, 15) == has_task(b, 15));
    assert(has_task(a, 16) == has_task(b, 16));
    assert(has_task(a, 17) == has_task(b, 17));
    assert(has_task(a, 18) == has_task(b, 18));
    assert(has_task(a, 19) == has_task(b, 19));
    assert(has_task(a, 20) == has_task(b, 20));
    assert(has_task(a, 21) == has_task(b, 21));
    assert(has_task(a, 22) == has_task(b, 22));
    assert(has_task(a, 23) == has_task(b, 23));
    assert(has_task(a, 24) == has_task(b, 24));
    assert(has_task(a, 25) == has_task(b, 25));
    assert(has_task(a, 26) == has_task(b, 26));
    assert(has_task(a, 27) == has_task(b, 27));
    assert(has_task(a, 28) == has_task(b, 28));
    assert(has_task(a, 29) == has_task(b, 29));
    assert(has_task(a, 30) == has_task(b, 30));
    assert(has_task(a, 31) == has_task(b, 31));
    lemma_bits_determine(a, b);
}

proof fn lemma_bits_determine(a: u32, b: u32)
    by (bit_vector)
    requires
        has_task(a, 0) == has_task(b, 0),
        has_task(a, 1) == has_task(b, 1),
        has_task(a, 2) == has_task(b, 2),
        has_task(a, 3) == has_task(b, 3),
        has_task(a, 4) == has_task(b, 4),
        has_task(a, 5) == has_task(b, 5),
        has_task(a, 6) == has_task(b, 6),
        has_task(a, 7) == has_task(b, 7),
        has_task(a, 8) == has_task(b, 8),
        has_task(a, 9) == has_task(b, 9),
        has_task(a, 10) == has_task(b, 10),
        has_task(a, 11) == has_task(b, 11),
        has_task(a, 12) == has_task(b, 12),
        has_task(a, 13) == has_task(b, 13),
        has_task(a, 14) == has_task(b, 14),
        has_task(a, 15) == has_task(b, 15),
        has_task(a, 16) == has_task(b, 16),
        has_task(a, 17) == has_task(b, 17),
        has_task(a, 18) == has_task(b, 18),
        has_task(a, 19) == has_task(b, 19),
        has_task(a, 20) == has_task(b, 20),
        has_task(a, 21) == has_task(b, 21),
        has_task(a, 22) == has_task(b, 22),
        has_task(a, 23) == has_task(b, 23),
        has_task(a, 24) == has_task(b, 24),
        has_task(a, 25) == has_task(b, 25),
        has_task(a, 26) == has_task(b, 26),
        has_task(a, 27) == has_task(b, 27),
        has_task(a, 28) == has_task(b, 28),
        has_task(a, 29) == has_task(b, 29),
        has_task(a, 30) == has_task(b, 30),
        has_task(a, 31) == has_task(b, 31),
    ensures
        a == b,
{
}

} // verus!
