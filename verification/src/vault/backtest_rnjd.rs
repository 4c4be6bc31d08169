//! Records of predictions, to be held against outcomes.
use crate::base::order::count_where;
use crate::base::scalar::{Scalar, HALF_RANK};
use crate::base::text::same;
use super::belief_vol::last_items;
use std::collections::VecDeque;
use vstd::prelude::*;

verus! {

/// How many records are kept unless something else is asked for.
pub const KEPT_RECORDS: usize = 10_000;

/// What the models said of a market.
#[derive(Debug)]
pub struct BacktestRecord {
    pub timestamp: i64,
    pub market_slug: String,
    pub p_start: Scalar,
    pub p_now: Scalar,
    pub market_mid: Scalar,
    pub sigma_price: Scalar,
    pub t_rem_secs: Scalar,
    pub p_up_old: Scalar,
    pub p_up_rnjd: Scalar,
    pub sigma_b: Scalar,
    pub drift_correction: Scalar,
    pub jump_regime: bool,
    pub kelly_old: Scalar,
    pub kelly_rnjd: Scalar,
    pub resolved: bool,
    pub outcome_up: Option<bool>,
}

/// The counts behind the metrics; shares and scores are the caller's to divide.
#[derive(Clone, Copy, Debug, PartialEq, Eq, Structural)]
pub struct BacktestMetrics {
    pub total_resolved: usize,
    pub old_correct: usize,
    pub rnjd_correct: usize,
    pub jump_regime_skips: usize,
}

/// The records, oldest first.
pub struct BacktestCollector {
    records: VecDeque<BacktestRecord>,
    max_records: usize,
}

/// A record whose outcome is known.
pub open spec fn has_outcome(r: BacktestRecord) -> bool {
    r.resolved && r.outcome_up is Some
}

/// Whether a chance called the outcome: above one half means up.
pub open spec fn called(p_up: Scalar, r: BacktestRecord) -> bool {
    has_outcome(r) && Scalar::Rank(HALF_RANK).spec_lt(p_up) == r.outcome_up->0
}

/// The record once its market has an outcome.
pub open spec fn settled(r: BacktestRecord, market: Seq<char>, outcome_up: bool) -> BacktestRecord {
    if r.market_slug@ == market && !r.resolved {
        BacktestRecord { resolved: true, outcome_up: Some(outcome_up), ..r }
    } else {
        r
    }
}

impl View for BacktestCollector {
    type V = Seq<BacktestRecord>;

    closed spec fn view(&self) -> Seq<BacktestRecord> {
        self.records@
    }
}

impl BacktestCollector {
    /// How many records are kept.
    pub closed spec fn limit(self) -> usize {
        self.max_records
    }

    pub fn new(max_records: usize) -> (r: BacktestCollector)
        ensures
            r@ == Seq::<BacktestRecord>::empty(),
            r.limit() == max_records,
    {
        BacktestCollector { records: VecDeque::new(), max_records }
    }

    /// Adds a record; the oldest ones beyond the limit go.
    pub fn add_record(&mut self, record: BacktestRecord)
        ensures
            final(self)@ == last_items(old(self)@.push(record), old(self).limit() as nat),
            final(self).limit() == old(self).limit(),
    {
        self.records.push_back(record);
        let ghost full = self.records@;
        assert(full.skip(0) =~= full);
        while self.records.len() > self.max_records
            invariant
                self.max_records == old(self).max_records,
                self.records.len() <= full.len(),
                self.records@ == full.skip(full.len() - self.records.len()),
                self.records.len() >= self.max_records || self.records.len() == full.len(),
            decreases self.records.len(),
        {
            let _oldest = self.records.pop_front();
            assert(self.records@ =~= full.skip(full.len() - self.records.len()));
        }
    }

    /// All records.
    pub fn records(&self) -> (r: &VecDeque<BacktestRecord>)
        ensures
            r@ == self@,
    {
        &self.records
    }

    /// At most `limit` records, newest first.
    pub fn recent_records(&self, limit: usize) -> (r: Vec<&BacktestRecord>)
        ensures
            r.len() == if limit <= self@.len() {
                limit as nat
            } else {
                self@.len()
            },
            forall|i: int| 0 <= i < r.len() ==> *(#[trigger] r[i]) == self@[self@.len() - 1 - i],
    {
        let n = self.records.len();
        let mut r: Vec<&BacktestRecord> = Vec::new();
        let mut i: usize = 0;
        while i < n && i < limit
            invariant
                n == self.records.len(),
                i <= n,
                i <= limit,
                r.len() == i,
                forall|j: int| 0 <= j < i ==> *(#[trigger] r[j]) == self.records@[n - 1 - j],
            decreases n - i,
        {
            r.push(&self.records[n - 1 - i]);
            i = i + 1;
        }
        r
    }

    pub fn len(&self) -> (r: usize)
        ensures
            r == self@.len(),
    {
        self.records.len()
    }

    pub fn is_empty(&self) -> (r: bool)
        ensures
            r == (self@.len() == 0),
    {
        self.records.len() == 0
    }

    /// Gives the records of a market, as far as they have none, an outcome.
    pub fn resolve_market(&mut self, market_slug: &str, outcome_up: bool)
        ensures
            final(self).limit() == old(self).limit(),
            final(self)@.len() == old(self)@.len(),
            forall|i: int|
                0 <= i < old(self)@.len() ==> (#[trigger] final(self)@[i]) == settled(
                    old(self)@[i],
                    market_slug@,
                    outcome_up,
                ),
    {
        let n = self.records.len();
        let ghost before = self.records@;
        let mut i: usize = 0;
        while i < n
            invariant
                i <= n,
                n == before.len(),
                self.max_records == old(self).max_records,
                before == old(self)@,
                self.records.len() == n,
                forall|j: int|
                    0 <= j < n - i ==> (#[trigger] self.records@[j]) == before[i + j],
                forall|j: int|
                    n - i <= j < n ==> (#[trigger] self.records@[j]) == settled(
                        before[j - (n - i)],
                        market_slug@,
                        outcome_up,
                    ),
            decreases n - i,
        {
            let ghost now = self.records@;
            match self.records.pop_front() {
                Some(r) => {
                    let mut r = r;
                    if same(r.market_slug.as_str(), market_slug) && !r.resolved {
                        r.resolved = true;
                        r.outcome_up = Some(outcome_up);
                    }
                    self.records.push_back(r);
                    assert(self.records@ =~= now.skip(1).push(r));
                },
                None => {},
            }
            i = i + 1;
        }
    }

    /// Counts the records with an outcome, the right calls of both models, and the
    /// records from a regime of jumps.
    pub fn calculate_metrics(&self) -> (r: BacktestMetrics)
        ensures
            r.total_resolved == count_where(self@, |x: BacktestRecord| has_outcome(x)),
            r.old_correct == count_where(self@, |x: BacktestRecord| called(x.p_up_old, x)),
            r.rnjd_correct == count_where(self@, |x: BacktestRecord| called(x.p_up_rnjd, x)),
            r.jump_regime_skips == count_where(
                self@,
                |x: BacktestRecord| has_outcome(x) && x.jump_regime,
            ),
    {
        let ghost all = self.records@;
        let ghost fa = |x: BacktestRecord| has_outcome(x);
        let ghost fb = |x: BacktestRecord| called(x.p_up_old, x);
        let ghost fc = |x: BacktestRecord| called(x.p_up_rnjd, x);
        let ghost fd = |x: BacktestRecord| has_outcome(x) && x.jump_regime;
        let mut m = BacktestMetrics {
            total_resolved: 0,
            old_correct: 0,
            rnjd_correct: 0,
            jump_regime_skips: 0,
        };
        let mut i: usize = 0;
        while i < self.records.len()
            invariant
                i <= self.records.len(),
                all == self.records@,
                fa == (|x: BacktestRecord| has_outcome(x)),
                fb == (|x: BacktestRecord| called(x.p_up_old, x)),
                fc == (|x: BacktestRecord| called(x.p_up_rnjd, x)),
                fd == (|x: BacktestRecord| has_outcome(x) && x.jump_regime),
                m.total_resolved <= i && m.old_correct <= i && m.rnjd_correct <= i,
                m.jump_regime_skips <= i,
                m.total_resolved == count_where(all.take(i as int), fa),
                m.old_correct == count_where(all.take(i as int), fb),
                m.rnjd_correct == count_where(all.take(i as int), fc),
                m.jump_regime_skips == count_where(all.take(i as int), fd),
            decreases self.records.len() - i,
        {
            assert(all.take(i as int + 1).drop_last() =~= all.take(i as int));
            let r = &self.records[i];
            if r.resolved {
                match r.outcome_up {
                    Some(up) => {
                        m.total_resolved = m.total_resolved + 1;
                        if Scalar::Rank(HALF_RANK).lt(r.p_up_old) == up {
                            m.old_correct = m.old_correct + 1;
                        }
                        if Scalar::Rank(HALF_RANK).lt(r.p_up_rnjd) == up {
                            m.rnjd_correct = m.rnjd_correct + 1;
                        }
                        if r.jump_regime {
                            m.jump_regime_skips = m.jump_regime_skips + 1;
                        }
                    },
                    None => {},
                }
            }
            i = i + 1;
        }
        assert(all.take(i as int) =~= all);
        m
    }

    /// Forgets all records.
    pub fn clear(&mut self)
        ensures
            final(self)@ == Seq::<BacktestRecord>::empty(),
            final(self).limit() == old(self).limit(),
    {
        self.records.clear();
    }
}

impl Default for BacktestCollector {
    fn default() -> (r: BacktestCollector)
        ensures
            r@ == Seq::<BacktestRecord>::empty(),
            r.limit() == KEPT_RECORDS,
    {
        BacktestCollector::new(KEPT_RECORDS)
    }
}

/// An outcome stays: giving a market another one changes nothing.
pub proof fn law_outcome_stays(r: BacktestRecord, market: Seq<char>, first: bool, second: bool)
    ensures
        settled(settled(r, market, first), market, second) == settled(r, market, first),
{
}

/// A collector that is asked to add keeps no more records than its limit, and the
/// newest one as long as it keeps any.
pub proof fn law_newest_records_are_kept(all: Seq<BacktestRecord>, r: BacktestRecord, limit: nat)
    ensures
        last_items(all.push(r), limit).len() <= limit,
        limit > 0 ==> last_items(all.push(r), limit).last() == r,
{
}

/// The newest record stands last, and the oldest ones beyond the limit go.
pub proof fn law_added_record_stands_last(
    c: &mut BacktestCollector,
    x: BacktestRecord,
    before: BacktestCollector,
    after: BacktestCollector,
    limit: usize,
    a: Vec<&BacktestRecord>,
    b: Vec<&BacktestRecord>,
    i: int,
)
    requires
        call_ensures(BacktestCollector::add_record, (c, x), ()),
        before == *old(c),
        after == *final(c),
        call_ensures(BacktestCollector::recent_records, (&before, limit), a),
        call_ensures(BacktestCollector::recent_records, (&after, limit), b),
        before.limit() > 0,
        before@.len() <= before.limit(),
        limit > 0,
    ensures
        b.len() > 0 && *b[0] == x,
        0 <= i < b.len() - 1 ==> i < a.len() && *b[i + 1] == *a[i],
        before@.len() < before.limit() ==> after@.len() == before@.len() + 1,
        before@.len() == before.limit() ==> after@.len() == before.limit(),
        after.limit() == before.limit(),
{
}

/// An outcome goes to the records of its market that have none, and to no others.
pub proof fn law_outcome_goes_to_its_market(c: &mut BacktestCollector, slug: &str, up: bool, i: int)
    requires
        call_ensures(BacktestCollector::resolve_market, (c, slug, up), ()),
        0 <= i < old(c)@.len(),
    ensures
        ({
            let a = old(c)@[i];
            let b = final(c)@[i];
            &&& a.market_slug@ == slug@ && !a.resolved ==> b.resolved && b.outcome_up == Some(up)
            &&& a.market_slug@ != slug@ || a.resolved ==> b == a
            &&& b.p_up_old == a.p_up_old && b.p_up_rnjd == a.p_up_rnjd && b.jump_regime == a.jump_regime
            &&& final(c)@.len() == old(c)@.len()
        }),
{
}

/// A model is right where it gave more than one half to a rise that came, or no more than
/// that to one that did not; a record more counts once.
pub proof fn law_right_calls_are_counted(
    c: BacktestCollector,
    less: BacktestCollector,
    r: BacktestMetrics,
    s: BacktestMetrics,
)
    requires
        call_ensures(BacktestCollector::calculate_metrics, (&c,), r),
        call_ensures(BacktestCollector::calculate_metrics, (&less,), s),
        c@.len() > 0,
        less@ == c@.drop_last(),
    ensures
        ({
            let x = c@.last();
            let known = x.resolved && x.outcome_up is Some;
            let half = Scalar::Rank(HALF_RANK);
            let one = |b: bool|
                if b {
                    1int
                } else {
                    0int
                };
            &&& r.total_resolved == s.total_resolved + one(known)
            &&& r.old_correct == s.old_correct + one(known && half.spec_lt(x.p_up_old) == x.outcome_up->0)
            &&& r.rnjd_correct == s.rnjd_correct + one(known && half.spec_lt(x.p_up_rnjd) == x.outcome_up->0)
            &&& r.jump_regime_skips == s.jump_regime_skips + one(known && x.jump_regime)
        }),
{
}

/// A collector starts empty, with ten thousand places where nothing else is asked for.
pub proof fn law_collector_starts_empty(
    n: usize,
    c: BacktestCollector,
    d: BacktestCollector,
    e: &mut BacktestCollector,
    empty: bool,
    len: usize,
)
    requires
        call_ensures(BacktestCollector::new, (n,), c),
        call_ensures(BacktestCollector::default, (), d),
        call_ensures(BacktestCollector::clear, (e,), ()),
        call_ensures(BacktestCollector::is_empty, (&c,), empty),
        call_ensures(BacktestCollector::len, (&c,), len),
    ensures
        c@.len() == 0 && c.limit() == n && empty && len == 0,
        d@.len() == 0 && d.limit() == 10_000,
        final(e)@.len() == 0 && final(e).limit() == old(e).limit(),
{
}

} // verus!
