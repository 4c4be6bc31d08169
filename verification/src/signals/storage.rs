//! The latest signals.
use crate::base::counter::pushed_at_limit;
use crate::models::MarketSignal;
use std::collections::VecDeque;
use vstd::prelude::*;

verus! {

/// How many signals are kept.
pub const KEPT_SIGNALS: usize = 10_000;

/// The latest signals, oldest first.
pub struct SignalStorage {
    signals: VecDeque<MarketSignal>,
}

impl View for SignalStorage {
    type V = Seq<MarketSignal>;

    closed spec fn view(&self) -> Seq<MarketSignal> {
        self.signals@
    }
}

impl SignalStorage {
    pub fn new() -> (r: SignalStorage)
        ensures
            r@ == Seq::<MarketSignal>::empty(),
    {
        SignalStorage { signals: VecDeque::with_capacity(KEPT_SIGNALS) }
    }

    /// Keeps a signal; where there is no room, the oldest one goes first.
    pub fn store(&mut self, signal: MarketSignal)
        ensures
            final(self)@ == pushed_at_limit(old(self)@, signal, KEPT_SIGNALS as nat),
    {
        if self.signals.len() >= KEPT_SIGNALS {
            let _oldest = self.signals.pop_front();
            assert(self.signals@ =~= old(self).signals@.skip(1));
        }
        self.signals.push_back(signal);
    }

    /// At most `limit` signals, latest first.
    pub fn get_recent(&self, limit: usize) -> (r: Vec<MarketSignal>)
        ensures
            r.len() == if limit <= self@.len() {
                limit as nat
            } else {
                self@.len()
            },
            forall|i: int| 0 <= i < r.len() ==> (#[trigger] r[i]) == self@[self@.len() - 1 - i],
    {
        let n = self.signals.len();
        let mut r: Vec<MarketSignal> = Vec::new();
        let mut i: usize = 0;
        while i < n && i < limit
            invariant
                n == self.signals.len(),
                i <= n,
                i <= limit,
                r.len() == i,
                forall|j: int| 0 <= j < i ==> (#[trigger] r[j]) == self.signals@[n - 1 - j],
            decreases n - i,
        {
            r.push(self.signals[n - 1 - i].copy());
            i = i + 1;
        }
        r
    }

    /// Forgets all signals.
    pub fn clear(&mut self)
        ensures
            final(self)@ == Seq::<MarketSignal>::empty(),
    {
        self.signals.clear();
    }

    pub fn len(&self) -> (r: usize)
        ensures
            r == self@.len(),
    {
        self.signals.len()
    }
}

/// As long as signals are only stored, no more than the limit are kept, and the one that was
/// stored last is among them.
pub proof fn law_storage_is_bounded(before: Seq<MarketSignal>, signal: MarketSignal)
    requires
        before.len() <= KEPT_SIGNALS,
    ensures
        pushed_at_limit(before, signal, KEPT_SIGNALS as nat).len() <= KEPT_SIGNALS,
        pushed_at_limit(before, signal, KEPT_SIGNALS as nat).last() == signal,
{
}

/// A signal that was stored is the first of the recent ones, and those before it come behind
/// it in their order; what was cleared is gone.
pub proof fn law_latest_signal_comes_first(
    s: &mut SignalStorage,
    signal: MarketSignal,
    before: SignalStorage,
    after: SignalStorage,
    limit: usize,
    a: Vec<MarketSignal>,
    b: Vec<MarketSignal>,
    i: int,
    c: &mut SignalStorage,
    n: usize,
)
    requires
        call_ensures(SignalStorage::store, (s, signal), ()),
        before == *old(s),
        after == *final(s),
        call_ensures(SignalStorage::get_recent, (&before, limit), a),
        call_ensures(SignalStorage::get_recent, (&after, limit), b),
        call_ensures(SignalStorage::len, (&after,), n),
        before@.len() <= 10_000,
        0 < limit < 10_000,
        call_ensures(SignalStorage::clear, (c,), ()),
    ensures
        b.len() > 0 && b[0] == signal,
        0 <= i < b.len() - 1 ==> i < a.len() && b[i + 1] == a[i],
        b.len() <= limit,
        before@.len() < 10_000 ==> n == before@.len() + 1,
        before@.len() == 10_000 ==> n == 10_000,
        final(c)@.len() == 0,
{
}

} // verus!
