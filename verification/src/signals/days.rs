//! Amounts by the day they fall on.
use super::copy_trading::DayAmount;
use crate::base::scalar::Scalar;
use vstd::prelude::*;

verus! {

/// A day, and the places of the amounts that fall on it.
#[derive(Debug)]
pub struct DayGroup {
    pub day: i64,
    pub places: Vec<usize>,
}

/// The places of the amounts of a day, in ascending order.
pub open spec fn places_on(parts: Seq<DayAmount>, day: i64) -> Seq<usize>
    decreases parts.len(),
{
    if parts.len() == 0 {
        Seq::empty()
    } else {
        let before = places_on(parts.drop_last(), day);
        if parts.last().day == day {
            before.push((parts.len() - 1) as usize)
        } else {
            before
        }
    }
}

/// Days that rise, so that none comes twice.
pub open spec fn groups_rise(groups: Seq<DayGroup>) -> bool {
    forall|i: int, j: int|
        #![trigger groups[i], groups[j]]
        0 <= i < j < groups.len() ==> groups[i].day < groups[j].day
}

/// Whether a day is among the days of groups.
pub open spec fn has_day(groups: Seq<DayGroup>, day: i64) -> bool {
    exists|i: int| 0 <= i < groups.len() && (#[trigger] groups[i]).day == day
}

/// Amounts grouped by day: the days rise, each has an amount and names all of its amounts
/// in the order in which they came, and no amount is left out.
pub open spec fn are_groups(parts: Seq<DayAmount>, groups: Seq<DayGroup>) -> bool {
    &&& groups_rise(groups)
    &&& forall|i: int|
        #![trigger groups[i]]
        0 <= i < groups.len() ==> groups[i].places.len() > 0 && groups[i].places@ == places_on(
            parts,
            groups[i].day,
        )
    &&& forall|k: int| #![trigger parts[k]] 0 <= k < parts.len() ==> has_day(groups, parts[k].day)
}

/// Groups amounts by their days.
pub fn group_by_day(parts: &Vec<DayAmount>) -> (r: Vec<DayGroup>)
    ensures
        are_groups(parts@, r@),
{
    let mut r: Vec<DayGroup> = Vec::new();
    let mut k: usize = 0;
    while k < parts.len()
        invariant
            k <= parts.len(),
            are_groups(parts@.take(k as int), r@),
        decreases parts.len() - k,
    {
        let day: i64 = parts[k].day;
        let ghost before = r@;
        let ghost known = parts@.take(k as int);
        let ghost next = parts@.take(k as int + 1);
        assert(next.drop_last() =~= known);
        let mut p: usize = r.len();
        while p > 0 && r[p - 1].day > day
            invariant
                p <= r.len(),
                r@ == before,
                forall|i: int| #![trigger r[i]] p <= i < r.len() ==> r[i].day > day,
            decreases p,
        {
            p = p - 1;
        }
        if p > 0 && r[p - 1].day == day {
            let g = r.remove(p - 1);
            let mut places = g.places;
            places.push(k);
            r.insert(p - 1, DayGroup { day, places });
            proof {
                lemma_known_day(known, next, before, r@, p - 1);
            }
        } else {
            let mut places: Vec<usize> = Vec::new();
            places.push(k);
            r.insert(p, DayGroup { day, places });
            proof {
                lemma_new_day(known, next, before, r@, p as int);
            }
        }
        k = k + 1;
    }
    assert(parts@.take(k as int) =~= parts@);
    r
}

/// A day without a group has no places.
proof fn lemma_no_places(parts: Seq<DayAmount>, groups: Seq<DayGroup>, day: i64)
    requires
        forall|k: int| #![trigger parts[k]] 0 <= k < parts.len() ==> has_day(groups, parts[k].day),
        !has_day(groups, day),
    ensures
        places_on(parts, day) == Seq::<usize>::empty(),
    decreases parts.len(),
{
    if parts.len() > 0 {
        let n = parts.len() - 1;
        assert(has_day(groups, parts[n].day));
        assert forall|k: int| #![trigger parts.drop_last()[k]] 0 <= k < n implies has_day(
            groups,
            parts.drop_last()[k].day,
        ) by {
            assert(parts.drop_last()[k] == parts[k]);
        }
        lemma_no_places(parts.drop_last(), groups, day);
    }
}

/// One more amount of a day that has a group.
proof fn lemma_known_day(
    known: Seq<DayAmount>,
    next: Seq<DayAmount>,
    before: Seq<DayGroup>,
    after: Seq<DayGroup>,
    p: int,
)
    requires
        are_groups(known, before),
        next.len() == known.len() + 1,
        next.drop_last() == known,
        0 <= p < before.len(),
        after.len() == before.len(),
        before[p].day == next.last().day,
        after[p].day == before[p].day,
        after[p].places@ == before[p].places@.push(known.len() as usize),
        forall|i: int| #![trigger after[i]] 0 <= i < after.len() && i != p ==> after[i] == before[i],
    ensures
        are_groups(next, after),
{
    assert forall|i: int| #![trigger after[i]] 0 <= i < after.len() implies after[i].places.len() > 0
        && after[i].places@ == places_on(next, after[i].day) by {
        assert(before[i].places@ == places_on(known, before[i].day));
        if i < p {
            assert(before[i].day < before[p].day);
        } else if i > p {
            assert(before[p].day < before[i].day);
        }
    }
    assert forall|k: int| #![trigger next[k]] 0 <= k < next.len() implies has_day(after, next[k].day) by {
        if k < known.len() {
            assert(next[k] == known[k]);
            let i = choose|i: int| 0 <= i < before.len() && (#[trigger] before[i]).day == known[k].day;
            assert(after[i].day == known[k].day);
        } else {
            assert(after[p].day == next[k].day);
        }
    }
    assert forall|i: int, j: int| #![trigger after[i], after[j]] 0 <= i < j < after.len() implies after[i].day
        < after[j].day by {
        assert(before[i].day < before[j].day);
    }
}

/// An amount of a day that has no group yet.
proof fn lemma_new_day(
    known: Seq<DayAmount>,
    next: Seq<DayAmount>,
    before: Seq<DayGroup>,
    after: Seq<DayGroup>,
    p: int,
)
    requires
        are_groups(known, before),
        next.len() == known.len() + 1,
        next.drop_last() == known,
        0 <= p <= before.len(),
        after.len() == before.len() + 1,
        after[p].day == next.last().day,
        after[p].places@ == seq![known.len() as usize],
        forall|i: int| #![trigger after[i]] 0 <= i < p ==> after[i] == before[i],
        forall|i: int| #![trigger after[i]] p < i < after.len() ==> after[i] == before[i - 1],
        p > 0 ==> before[p - 1].day < next.last().day,
        forall|i: int| #![trigger before[i]] p <= i < before.len() ==> before[i].day > next.last().day,
    ensures
        are_groups(next, after),
{
    let day = next.last().day;
    assert forall|i: int| #![trigger before[i]] 0 <= i < p implies before[i].day < day by {
        if i < p - 1 {
            assert(before[i].day < before[p - 1].day);
        }
    }
    assert(!has_day(before, day));
    lemma_no_places(known, before, day);
    assert forall|i: int| #![trigger after[i]] 0 <= i < after.len() implies after[i].places.len() > 0
        && after[i].places@ == places_on(next, after[i].day) by {
        if i < p {
            assert(before[i].places@ == places_on(known, before[i].day));
        } else if i > p {
            assert(before[i - 1].places@ == places_on(known, before[i - 1].day));
        } else {
            assert(after[p].places@ =~= places_on(next, day));
        }
    }
    assert forall|k: int| #![trigger next[k]] 0 <= k < next.len() implies has_day(after, next[k].day) by {
        if k < known.len() {
            assert(next[k] == known[k]);
            let i = choose|i: int| 0 <= i < before.len() && (#[trigger] before[i]).day == known[k].day;
            if i < p {
                assert(after[i].day == known[k].day);
            } else {
                assert(after[i + 1].day == known[k].day);
            }
        } else {
            assert(after[p].day == next[k].day);
        }
    }
    assert forall|i: int, j: int| #![trigger after[i], after[j]] 0 <= i < j < after.len() implies after[i].day
        < after[j].day by {
        let a = if i > p {
            i - 1
        } else {
            i
        };
        let b = if j > p {
            j - 1
        } else {
            j
        };
        if i != p && j != p {
            assert(before[a].day < before[b].day);
        } else if i == p {
            assert(before[b].day > day);
        } else {
            assert(before[a].day < day);
        }
    }
}

/// Days that rise, so that none comes twice.
pub open spec fn days_rise(amounts: Seq<DayAmount>) -> bool {
    forall|i: int, j: int|
        #![trigger amounts[i], amounts[j]]
        0 <= i < j < amounts.len() ==> amounts[i].day < amounts[j].day
}

/// One amount for each group: `sums` are what the amounts of each day come to.
pub fn day_sums(groups: &Vec<DayGroup>, sums: &Vec<Scalar>) -> (r: Vec<DayAmount>)
    requires
        sums.len() == groups.len(),
    ensures
        r@ == Seq::new(groups.len() as nat, |i: int| DayAmount { day: groups[i].day, amount: sums[i] }),
        groups_rise(groups@) ==> days_rise(r@),
{
    let mut r: Vec<DayAmount> = Vec::new();
    let mut i: usize = 0;
    while i < groups.len()
        invariant
            i <= groups.len(),
            sums.len() == groups.len(),
            r.len() == i,
            forall|j: int|
                #![trigger r[j]]
                0 <= j < i ==> r[j] == (DayAmount { day: groups[j].day, amount: sums[j] }),
        decreases groups.len() - i,
    {
        r.push(DayAmount { day: groups[i].day, amount: sums[i] });
        i = i + 1;
    }
    assert(r@ =~= Seq::new(groups.len() as nat, |i: int| DayAmount { day: groups[i].day, amount: sums[i] }));
    r
}

/// The places of a day are those of its amounts, and no others.
pub proof fn law_places_are_of_the_day(parts: Seq<DayAmount>, day: i64, k: usize)
    requires
        parts.len() <= usize::MAX,
    ensures
        places_on(parts, day).contains(k) <==> k < parts.len() && parts[k as int].day == day,
        forall|i: int, j: int|
            #![trigger places_on(parts, day)[i], places_on(parts, day)[j]]
            0 <= i < j < places_on(parts, day).len() ==> places_on(parts, day)[i] < places_on(parts, day)[j],
    decreases parts.len(),
{
    if parts.len() > 0 {
        let n = parts.len() - 1;
        let before = places_on(parts.drop_last(), day);
        let all = places_on(parts, day);
        law_places_are_of_the_day(parts.drop_last(), day, k);
        if parts[n].day == day {
            assert(all[before.len() as int] == n);
            assert forall|i: int| 0 <= i < before.len() implies #[trigger] before[i] < n by {
                law_places_are_of_the_day(parts.drop_last(), day, before[i]);
                assert(before.contains(before[i]));
            }
            if before.contains(k) {
                let i = choose|i: int| 0 <= i < before.len() && before[i] == k;
                assert(all[i] == k);
            }
            if all.contains(k) {
                let i = choose|i: int| 0 <= i < all.len() && all[i] == k;
                if i < before.len() {
                    assert(before[i] == k);
                }
            }
            assert forall|i: int, j: int| #![trigger all[i], all[j]] 0 <= i < j < all.len() implies all[i]
                < all[j] by {
                assert(before[i] == all[i]);
                if j < before.len() {
                    assert(before[j] == all[j]);
                }
            }
        }
    }
}

/// Every amount has its place in exactly one group, that of its day.
pub proof fn law_each_amount_is_in_one_group(
    parts: Seq<DayAmount>,
    groups: Seq<DayGroup>,
    k: usize,
    i: int,
)
    requires
        parts.len() <= usize::MAX,
        are_groups(parts, groups),
        k < parts.len(),
        0 <= i < groups.len(),
    ensures
        groups[i].places@.contains(k) <==> groups[i].day == parts[k as int].day,
        has_day(groups, parts[k as int].day),
{
    law_places_are_of_the_day(parts, groups[i].day, k);
    assert(has_day(groups, parts[k as int].day));
}

/// Grouped by day, every amount is named by the group of its day and by no other; days rise,
/// and none is empty.
pub proof fn law_groups_name_their_amounts(parts: Vec<DayAmount>, r: Vec<DayGroup>, g: int, k: usize)
    requires
        call_ensures(group_by_day, (&parts,), r),
        0 <= g < r.len(),
        k < parts.len(),
    ensures
        r[g].places@.contains(k) <==> parts[k as int].day == r[g].day,
        r[g].places.len() > 0,
        g + 1 < r.len() ==> r[g].day < r[g + 1].day,
        exists|h: int| 0 <= h < r.len() && (#[trigger] r[h]).day == parts[k as int].day,
{
    assert(parts@.len() == parts.len());
    assert(r@[g] == r[g]);
    lemma_places(parts@, r[g].day, k);
    assert(has_day(r@, parts@[k as int].day));
    let h = choose|h: int| 0 <= h < r@.len() && (#[trigger] r@[h]).day == parts@[k as int].day;
    assert(r[h].day == parts[k as int].day);
    if g + 1 < r.len() {
        assert(r@[g].day < r@[g + 1].day);
    }
}

proof fn lemma_places(parts: Seq<DayAmount>, day: i64, k: usize)
    requires
        parts.len() <= usize::MAX,
    ensures
        k < parts.len() ==> (places_on(parts, day).contains(k) <==> parts[k as int].day == day),
        forall|i: int| 0 <= i < places_on(parts, day).len() ==> (#[trigger] places_on(parts, day)[i]) < parts.len(),
    decreases parts.len(),
{
    if parts.len() > 0 {
        let front = parts.drop_last();
        let before = places_on(front, day);
        let all = places_on(parts, day);
        lemma_places(front, day, k);
        if k < front.len() {
            assert(front[k as int] == parts[k as int]);
            if before.contains(k) {
                let i = choose|i: int| 0 <= i < before.len() && before[i] == k;
                assert(all[i] == k);
            }
            if all.contains(k) {
                let i = choose|i: int| 0 <= i < all.len() && all[i] == k;
                assert(i < before.len());
                assert(before[i] == k);
            }
        } else if k == front.len() {
            if parts.last().day == day {
                assert(all[before.len() as int] == k);
            } else if all.contains(k) {
                let i = choose|i: int| 0 <= i < all.len() && all[i] == k;
                assert(before[i] < front.len());
            }
        }
    }
}

/// Each day has its sum.
pub proof fn law_each_day_has_its_sum(groups: Vec<DayGroup>, sums: Vec<Scalar>, r: Vec<DayAmount>, i: int)
    requires
        sums.len() == groups.len(),
        call_ensures(day_sums, (&groups, &sums), r),
        0 <= i < groups.len(),
    ensures
        r.len() == groups.len(),
        r[i].day == groups[i].day && r[i].amount == sums[i],
{
    assert(r@[i] == DayAmount { day: groups[i].day, amount: sums[i] });
}

} // verus!
