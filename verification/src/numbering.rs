//! Numbers that are handed out one after the other.

use vstd::prelude::*;

verus! {

/// The number after `id`; zero after the largest.
pub open spec fn id_after(id: u64) -> u64 {
    if id == u64::MAX {
        0
    } else {
        (id + 1) as u64
    }
}

/// The number that is taken after `count` others.
pub open spec fn nth_id(first: u64, count: nat) -> u64
    decreases count,
{
    if count == 0 {
        first
    } else {
        id_after(nth_id(first, (count - 1) as nat))
    }
}

/// Takes the number in `next` and moves on.
pub fn take_id(next: &mut u64) -> (id: u64)
    ensures
        id == *old(next),
        *final(next) == id_after(id),
{
    let id: u64 = *next;
    *next = id.wrapping_add(1);
    id
}

proof fn lemma_nth_id(first: u64, count: nat)
    ensures
        nth_id(first, count) == (first + count) % 0x1_0000_0000_0000_0000,
    decreases count,
{
    if count > 0 {
        lemma_nth_id(first, (count - 1) as nat);
    }
}

/// No number is taken twice before all were taken once.
pub proof fn lemma_ids_differ(first: u64, m: nat, n: nat)
    requires
        m < n < m + 0x1_0000_0000_0000_0000,
    ensures
        nth_id(first, m) != nth_id(first, n),
{
    lemma_nth_id(first, m);
    lemma_nth_id(first, n);
}

/// Numbers rise one by one, and begin again at zero after 2^64 - 1.
pub proof fn law_numbers_rise(first: u64, count: nat)
    ensures
        nth_id(first, count) == (first + count) % 0x1_0000_0000_0000_0000,
        first < u64::MAX ==> id_after(first) == first + 1,
        first == u64::MAX ==> id_after(first) == 0,
{
    lemma_nth_id(first, count);
}

} // verus!
