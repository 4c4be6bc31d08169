//! Counters that start again from zero once they are full.
use vstd::prelude::*;

verus! {

/// The count after one more event.
pub open spec fn next_count(n: u64) -> u64 {
    if n == u64::MAX {
        0
    } else {
        (n + 1) as u64
    }
}

/// The count after an event that may or may not have happened.
pub open spec fn count_if(n: u64, happened: bool) -> u64 {
    if happened {
        next_count(n)
    } else {
        n
    }
}

/// Counts one more event.
pub fn count_up(n: u64) -> (r: u64)
    ensures
        r == next_count(n),
{
    n.wrapping_add(1)
}

/// The items with one more at the end; where they fill the limit, the oldest goes first.
pub open spec fn pushed_at_limit<T>(q: Seq<T>, x: T, limit: nat) -> Seq<T> {
    if q.len() >= limit {
        q.skip(1).push(x)
    } else {
        q.push(x)
    }
}

/// A count grows by one until it is full, and starts again from zero.
pub proof fn law_count_goes_up(n: u64, r: u64)
    requires
        call_ensures(count_up, (n,), r),
    ensures
        n < u64::MAX ==> r == n + 1,
        n == u64::MAX ==> r == 0,
        count_if(n, true) == r,
        count_if(n, false) == n,
{
}

/// Of items that are kept up to a limit the newest is last, the others keep their order,
/// and at most the oldest is gone.
pub proof fn law_newest_are_kept<T>(q: Seq<T>, x: T, limit: nat)
    requires
        limit > 0,
        q.len() <= limit,
    ensures
        pushed_at_limit(q, x, limit).len() <= limit,
        pushed_at_limit(q, x, limit).last() == x,
        q.len() < limit ==> pushed_at_limit(q, x, limit).drop_last() == q,
        q.len() == limit ==> pushed_at_limit(q, x, limit).drop_last() == q.skip(1),
{
    assert(pushed_at_limit(q, x, limit).drop_last() =~= if q.len() < limit {
        q
    } else {
        q.skip(1)
    });
}

} // verus!
