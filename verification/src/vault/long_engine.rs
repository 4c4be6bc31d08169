//! The strategy that asks models about markets far from their end.
use super::engine::VaultEngineConfig;
use super::records::text_view;
use crate::base::clock::{
    day_floor,
    less_than_apart,
    parse_rfc3339,
    rfc3339_instant,
    utc_midnight,
    MAX_INSTANT,
    MIN_INSTANT,
};
use crate::base::scalar::Scalar;
use crate::base::table::Table;
use crate::base::text::{
    contains,
    decimal,
    decimal_i64,
    decimal_u64,
    first_chars,
    has_text,
    join,
    join_views,
    joined,
    lowercase,
    same,
    take_chars,
    to_lower,
    trim,
    trimmed,
    views,
};
use crate::models::{MarketSignal, SignalType};
use std::collections::VecDeque;
use vstd::prelude::*;

verus! {

/// What is known of a market.
#[derive(Debug)]
pub struct LongMarketState {
    pub market_slug: String,
    pub latest_signal: Option<MarketSignal>,
    pub last_signal_at: i64,
    pub last_infer_at: i64,
    pub pending_signal: bool,
    pub last_trade_at: i64,
    pub calls_day_start_ts: i64,
    pub calls_today: u32,
}

/// An entry of a wallet: when, into which outcome, and that outcome in lower case.
#[derive(Debug)]
pub struct WalletEvent {
    pub ts: i64,
    pub outcome: String,
    pub lowered: String,
}

/// The last entries of a wallet into a market.
#[derive(Debug)]
pub struct WalletMarketActivity {
    pub events: VecDeque<WalletEvent>,
}

/// The first second of the UTC day that holds an instant; the epoch where no day does.
pub open spec fn day_start_of(ts: int) -> int {
    if MIN_INSTANT <= ts <= MAX_INSTANT {
        day_floor(ts)
    } else {
        0
    }
}

pub fn utc_day_start(ts: i64) -> (r: i64)
    ensures
        r == day_start_of(ts as int),
{
    match utc_midnight(ts) {
        Some(t) => t,
        None => 0,
    }
}

/// A number raised by another, or as much as there is.
pub open spec fn raised32(a: u32, b: u32) -> u32 {
    if a + b > u32::MAX {
        u32::MAX
    } else {
        (a + b) as u32
    }
}

pub open spec fn raised64(a: u64, b: u64) -> u64 {
    if a + b > u64::MAX {
        u64::MAX
    } else {
        (a + b) as u64
    }
}

fn raise32(a: u32, b: u32) -> (r: u32)
    ensures
        r == raised32(a, b),
{
    match a.checked_add(b) {
        Some(c) => c,
        None => u32::MAX,
    }
}

fn raise64(a: u64, b: u64) -> (r: u64)
    ensures
        r == raised64(a, b),
{
    match a.checked_add(b) {
        Some(c) => c,
        None => u64::MAX,
    }
}

impl LongMarketState {
    fn blank() -> (r: LongMarketState) {
        LongMarketState {
            market_slug: String::new(),
            latest_signal: None,
            last_signal_at: 0,
            last_infer_at: 0,
            pending_signal: false,
            last_trade_at: 0,
            calls_day_start_ts: 0,
            calls_today: 0,
        }
    }

    /// Whether the market is due: it has a signal that waits, it does not cool down, and
    /// the last question lies long enough back.
    pub open spec fn due(self, now: int, cfg: VaultEngineConfig) -> bool {
        &&& self.pending_signal
        &&& now - self.last_trade_at >= cfg.long_cooldown_sec
        &&& now - self.last_infer_at >= cfg.long_min_infer_interval_sec
    }

    /// The market once it was looked at.
    pub open spec fn taken(self, now: i64, cfg: VaultEngineConfig) -> LongMarketState {
        if !self.due(now as int, cfg) {
            self
        } else if self.latest_signal is None {
            LongMarketState { pending_signal: false, ..self }
        } else {
            LongMarketState { pending_signal: false, last_infer_at: now, ..self }
        }
    }
}

/// The state of the strategy.
pub struct LongEngineState {
    pub markets: Table<LongMarketState>,
    pub wallet_activity: Table<WalletMarketActivity>,
    pub budget_day_start_ts: i64,
    pub calls_today: u32,
    pub tokens_today: u64,
    pub exit_bands: Table<u8>,
}

/// The entries without the oldest ones that lie before a bound; the first that does not
/// ends the cut.
pub open spec fn without_old(events: Seq<WalletEvent>, min_ts: int) -> Seq<WalletEvent>
    decreases events.len(),
{
    if events.len() > 0 && events[0].ts < min_ts {
        without_old(events.skip(1), min_ts)
    } else {
        events
    }
}

/// Whether all entries that name an outcome name the same one.
pub open spec fn one_sided(events: Seq<WalletEvent>) -> bool {
    forall|i: int, j: int|
        #![trigger events[i], events[j]]
        0 <= i < events.len() && 0 <= j < events.len() && trimmed(events[i].outcome@).len() > 0
            && trimmed(events[j].outcome@).len() > 0 ==> events[i].lowered@ == events[j].lowered@
}

/// The entries of a wallet after one more.
pub open spec fn entered(before: Seq<WalletEvent>, event: WalletEvent, window_sec: int) -> Seq<WalletEvent> {
    without_old(
        before.push(event),
        event.ts - if window_sec > 1 {
            window_sec
        } else {
            1
        },
    )
}

/// Whether an entry is the one into an outcome at an instant.
pub open spec fn is_entry_at(e: WalletEvent, now: int, outcome: Seq<char>) -> bool {
    &&& e.ts == now
    &&& e.outcome@ == trimmed(outcome)
    &&& e.lowered@ == lowercase(trimmed(outcome))
}

/// The entries that a table holds under a key.
pub open spec fn events_of(t: Map<Seq<char>, WalletMarketActivity>, key: Seq<char>) -> Seq<WalletEvent> {
    if t.contains_key(key) {
        t[key].events@
    } else {
        Seq::empty()
    }
}

/// The markets that are due among the first `n`, with their signals.
pub open spec fn due_among(
    order: Seq<Seq<char>>,
    markets: Map<Seq<char>, LongMarketState>,
    n: nat,
    now: i64,
    cfg: VaultEngineConfig,
) -> Seq<(Seq<char>, MarketSignal)>
    decreases n,
{
    if n == 0 {
        Seq::empty()
    } else {
        let before = due_among(order, markets, (n - 1) as nat, now, cfg);
        let m = markets[order[n - 1]];
        if m.due(now as int, cfg) && m.latest_signal is Some {
            before.push((order[n - 1], m.latest_signal->0))
        } else {
            before
        }
    }
}

/// Candidates as pairs.
pub open spec fn candidate_views(c: Seq<(String, MarketSignal)>) -> Seq<(Seq<char>, MarketSignal)> {
    c.map_values(|p: (String, MarketSignal)| (p.0@, p.1))
}

/// The market with a budget that starts anew.
pub open spec fn with_new_day(m: LongMarketState, day_start: i64) -> LongMarketState {
    LongMarketState { calls_day_start_ts: day_start, calls_today: 0, ..m }
}

impl LongEngineState {
    /// Nothing is known yet.
    pub open spec fn is_new(self) -> bool {
        &&& self.markets@ == Map::<Seq<char>, LongMarketState>::empty()
        &&& self.wallet_activity@ == Map::<Seq<char>, WalletMarketActivity>::empty()
        &&& self.budget_day_start_ts == 0
        &&& self.calls_today == 0
        &&& self.tokens_today == 0
        &&& self.exit_bands@ == Map::<Seq<char>, u8>::empty()
    }

    pub fn new() -> (r: LongEngineState)
        ensures
            r.is_new(),
    {
        LongEngineState {
            markets: Table::new(),
            wallet_activity: Table::new(),
            budget_day_start_ts: 0,
            calls_today: 0,
            tokens_today: 0,
            exit_bands: Table::new(),
        }
    }

    /// Whether the budgets start anew where another day began, and nothing changed else.
    pub open spec fn day_reset(self, after: LongEngineState, now: int) -> bool {
        let day = day_start_of(now) as i64;
        &&& after.wallet_activity == self.wallet_activity
        &&& after.exit_bands == self.exit_bands
        &&& after.budget_day_start_ts == day
        &&& if self.budget_day_start_ts == day {
            after == self
        } else {
            &&& after.calls_today == 0
            &&& after.tokens_today == 0
            &&& after.markets.order() == self.markets.order()
            &&& after.markets@.dom() == self.markets@.dom()
            &&& forall|k: Seq<char>|
                #![trigger after.markets@[k]]
                self.markets@.contains_key(k) ==> after.markets@[k] == with_new_day(self.markets@[k], day)
        }
    }

    /// Starts the budgets anew on another day.
    pub fn reset_day_if_needed(&mut self, now_ts: i64)
        ensures
            old(self).day_reset(*final(self), now_ts as int),
    {
        let day_start = utc_day_start(now_ts);
        if self.budget_day_start_ts != day_start {
            self.budget_day_start_ts = day_start;
            self.calls_today = 0;
            self.tokens_today = 0;
            let n = self.markets.len();
            let ghost order = self.markets.order();
            let ghost before = self.markets@;
            let mut i: usize = 0;
            while i < n
                invariant
                    i <= n,
                    n == order.len(),
                    order.no_duplicates(),
                    order.to_set() == before.dom(),
                    self.markets.order() == order,
                    self.markets@.dom() == before.dom(),
                    self.wallet_activity == old(self).wallet_activity,
                    self.exit_bands == old(self).exit_bands,
                    self.budget_day_start_ts == day_start,
                    self.calls_today == 0,
                    self.tokens_today == 0,
                    forall|j: int|
                        #![trigger order[j]]
                        0 <= j < i ==> self.markets@[order[j]] == with_new_day(
                            before[order[j]],
                            day_start,
                        ),
                    forall|j: int|
                        #![trigger order[j]]
                        i <= j < n ==> self.markets@[order[j]] == before[order[j]],
                decreases n - i,
            {
                let mut m = self.markets.replace_at(i, LongMarketState::blank());
                m.calls_day_start_ts = day_start;
                m.calls_today = 0;
                let _blank = self.markets.replace_at(i, m);
                assert(before.dom().contains(order[i as int])) by {
                    assert(order.to_set().contains(order[i as int]));
                }
                assert(self.markets@.dom() =~= before.dom());
                i = i + 1;
            }
            assert forall|k: Seq<char>|
                #![trigger self.markets@[k]]
                before.contains_key(k) implies self.markets@[k] == with_new_day(before[k], day_start) by {
                assert(order.to_set().contains(k));
                let j = order.index_of(k);
                assert(order[j] == k);
            }
        }
    }

    /// Whether so many calls on a market, whose key is its slug in lower case, are left of
    /// the day.
    pub open spec fn has_room(self, key: Seq<char>, calls: u32, cfg: VaultEngineConfig) -> bool {
        &&& raised32(self.calls_today, calls) <= cfg.long_max_calls_per_day
        &&& self.markets@.contains_key(key) ==> raised32(self.markets@[key].calls_today, calls)
            <= cfg.long_max_calls_per_market_per_day
    }

    /// Whether the budgets of the day leave room for calls on a market.
    pub open spec fn has_budget(self, key: Seq<char>, needed: u32, cfg: VaultEngineConfig) -> bool {
        self.tokens_today < cfg.long_max_tokens_per_day && self.has_room(key, needed, cfg)
    }

    pub fn can_spend_calls(&self, market_slug: &str, needed_calls: u32, cfg: &VaultEngineConfig) -> (r: bool)
        ensures
            r == self.has_budget(lowercase(market_slug@), needed_calls, *cfg),
    {
        let key = to_lower(market_slug);
        self.can_spend_under(key.as_str(), needed_calls, cfg)
    }

    /// Whether the budgets of the day leave room for calls on the market with a key.
    pub fn can_spend_under(&self, key: &str, needed_calls: u32, cfg: &VaultEngineConfig) -> (r: bool)
        ensures
            r == self.has_budget(key@, needed_calls, *cfg),
    {
        if self.tokens_today >= cfg.long_max_tokens_per_day {
            return false;
        }
        if raise32(self.calls_today, needed_calls) > cfg.long_max_calls_per_day {
            return false;
        }
        match self.markets.get(key) {
            Some(m) => raise32(m.calls_today, needed_calls) <= cfg.long_max_calls_per_market_per_day,
            None => true,
        }
    }

    /// The tokens of a day after a call: no more than the budget.
    pub open spec fn tokens_after(self, tokens: u64, cfg: VaultEngineConfig) -> u64 {
        let sum = raised64(self.tokens_today, tokens);
        if sum > cfg.long_max_tokens_per_day {
            cfg.long_max_tokens_per_day
        } else {
            sum
        }
    }

    /// The markets after a call on one of them.
    pub open spec fn markets_after_call(self, key: Seq<char>) -> Map<Seq<char>, LongMarketState> {
        if self.markets@.contains_key(key) {
            self.markets@.insert(
                key,
                LongMarketState {
                    calls_today: raised32(self.markets@[key].calls_today, 1),
                    ..self.markets@[key]
                },
            )
        } else {
            self.markets@
        }
    }

    /// Whether a call on a market was taken out of the budgets, and nothing changed else.
    pub open spec fn call_spent(
        self,
        after: LongEngineState,
        key: Seq<char>,
        tokens: u64,
        cfg: VaultEngineConfig,
    ) -> bool {
        &&& after.calls_today == raised32(self.calls_today, 1)
        &&& after.tokens_today == self.tokens_after(tokens, cfg)
        &&& after.markets@ == self.markets_after_call(key)
        &&& after.wallet_activity == self.wallet_activity
        &&& after.exit_bands == self.exit_bands
        &&& after.budget_day_start_ts == self.budget_day_start_ts
    }

    /// Takes a call on a market out of the budgets.
    pub fn spend_call(&mut self, market_slug: &str, tokens: u64, cfg: &VaultEngineConfig)
        ensures
            old(self).call_spent(*final(self), lowercase(market_slug@), tokens, *cfg),
    {
        let key = to_lower(market_slug);
        self.spend_under(key.as_str(), tokens, cfg);
    }

    /// Takes a call on the market with a key out of the budgets.
    pub fn spend_under(&mut self, key: &str, tokens: u64, cfg: &VaultEngineConfig)
        ensures
            old(self).call_spent(*final(self), key@, tokens, *cfg),
    {
        self.calls_today = raise32(self.calls_today, 1);
        self.tokens_today = raise64(self.tokens_today, tokens);
        match self.markets.remove(key) {
            Some(m) => {
                let mut m = m;
                m.calls_today = raise32(m.calls_today, 1);
                self.markets.insert(key.to_owned(), m);
                assert(self.markets@ =~= old(self).markets@.insert(key@, m));
            },
            None => {
                assert(self.markets@ =~= old(self).markets@);
            },
        }
        if self.tokens_today > cfg.long_max_tokens_per_day {
            self.tokens_today = cfg.long_max_tokens_per_day;
        }
    }

    /// The key of a wallet's entries into a market.
    pub open spec fn activity_key(wallet: Seq<char>, market_slug: Seq<char>) -> Seq<char> {
        wallet + ":"@ + market_slug
    }

    /// Whether an entry was noted under a key: it stands behind the entries of that key that
    /// lie in the window, and the entries of all others are as they were.
    pub open spec fn entry_noted(self, after: LongEngineState, key: Seq<char>, event: WalletEvent, window_sec: int) -> bool {
        &&& after.wallet_activity@.dom() == self.wallet_activity@.dom().insert(key)
        &&& forall|k: Seq<char>|
            k != key && self.wallet_activity@.contains_key(k) ==> #[trigger] after.wallet_activity@[k]
                == self.wallet_activity@[k]
        &&& events_of(after.wallet_activity@, key) == entered(
            events_of(self.wallet_activity@, key),
            event,
            window_sec,
        )
    }

    /// Notes an entry of a wallet into a market, and says whether the wallet is worth
    /// following there: it entered seldom enough, and into one outcome only.
    pub fn record_wallet_activity(
        &mut self,
        wallet: &str,
        market_slug: &str,
        now_ts: i64,
        outcome: &str,
        window_sec: i64,
        max_trades: usize,
    ) -> (r: bool)
        requires
            now_ts - window_sec >= i64::MIN,
            now_ts > i64::MIN,
        ensures
            wallet@.len() == 0 ==> !r && *final(self) == *old(self),
            wallet@.len() > 0 ==> {
                let key = Self::activity_key(lowercase(wallet@), lowercase(market_slug@));
                let events = events_of(final(self).wallet_activity@, key);
                &&& *final(self) == (LongEngineState {
                    wallet_activity: final(self).wallet_activity,
                    ..*old(self)
                })
                &&& exists|e: WalletEvent|
                    is_entry_at(e, now_ts as int, outcome@) && #[trigger] old(self).entry_noted(
                        *final(self),
                        key,
                        e,
                        window_sec as int,
                    )
                &&& r == (events.len() <= max_trades && one_sided(events))
            },
    {
        if wallet.is_empty() {
            return false;
        }
        let a = to_lower(wallet);
        let b = to_lower(market_slug);
        let head = joined(a.as_str(), ":");
        let key = joined(head.as_str(), b.as_str());
        let bare = trim(outcome);
        let lowered = to_lower(bare.as_str());
        let event = WalletEvent { ts: now_ts, outcome: bare, lowered };
        let ghost noted = (key@, event);
        let r = self.note_entry(key, event, window_sec, max_trades);
        assert(is_entry_at(noted.1, now_ts as int, outcome@));
        assert(noted.0 =~= Self::activity_key(lowercase(wallet@), lowercase(market_slug@)));
        assert(old(self).entry_noted(*self, noted.0, noted.1, window_sec as int));
        r
    }

    /// Notes an entry under a key.
    pub fn note_entry(&mut self, key: String, event: WalletEvent, window_sec: i64, max_trades: usize) -> (r:
        bool)
        requires
            event.ts - window_sec >= i64::MIN,
            event.ts > i64::MIN,
        ensures
            *final(self) == (LongEngineState {
                wallet_activity: final(self).wallet_activity,
                ..*old(self)
            }),
            old(self).entry_noted(*final(self), key@, event, window_sec as int),
            r == (events_of(final(self).wallet_activity@, key@).len() <= max_trades && one_sided(
                events_of(final(self).wallet_activity@, key@),
            )),
    {
        let ghost k0 = key@;
        let ghost before = events_of(self.wallet_activity@, k0);
        let mut events: VecDeque<WalletEvent> = match self.wallet_activity.remove(key.as_str()) {
            Some(a) => a.events,
            None => VecDeque::new(),
        };
        assert(events@ =~= before);
        let w: i64 = if window_sec > 1 {
            window_sec
        } else {
            1
        };
        let min_ts: i64 = event.ts - w;
        events.push_back(event);
        let ghost full = before.push(event);
        while events.len() > 0 && events[0].ts < min_ts
            invariant
                without_old(events@, min_ts as int) == without_old(full, min_ts as int),
            decreases events.len(),
        {
            let ghost now = events@;
            let _old = events.pop_front();
            assert(events@ =~= now.skip(1));
        }
        assert(events@ == without_old(full, min_ts as int));
        let fits = events.len() <= max_trades;
        let sided = fits && one_outcome(&events);
        let ghost kept = events@;
        self.wallet_activity.insert(key, WalletMarketActivity { events });
        assert(self.wallet_activity@[k0].events@ == kept);
        assert(self.wallet_activity@.dom() =~= old(self).wallet_activity@.dom().insert(k0));
        sided
    }

    /// A market with a signal that waits.
    pub open spec fn with_signal(self, key: Seq<char>, signal: MarketSignal, now: i64, after: LongMarketState) -> bool {
        &&& after.latest_signal == Some(signal)
        &&& after.last_signal_at == now
        &&& after.pending_signal
        &&& if self.markets@.contains_key(key) {
            after == (LongMarketState {
                latest_signal: Some(signal),
                last_signal_at: now,
                pending_signal: true,
                ..self.markets@[key]
            })
        } else {
            &&& after.market_slug@ == key
            &&& after.last_infer_at == 0
            &&& after.last_trade_at == 0
            &&& after.calls_day_start_ts == day_start_of(now as int)
            &&& after.calls_today == 0
        }
    }

    /// Takes a signal in: its market waits for a decision.
    pub fn upsert_market_signal(&mut self, signal: MarketSignal, now_ts: i64)
        ensures
            ({
                let key = lowercase(signal.market_slug@);
                &&& *final(self) == (LongEngineState { markets: final(self).markets, ..*old(self) })
                &&& final(self).markets@ == old(self).markets@.insert(key, final(self).markets@[key])
                &&& old(self).with_signal(key, signal, now_ts, final(self).markets@[key])
            }),
    {
        let key = to_lower(signal.market_slug.as_str());
        self.upsert_under(key, signal, now_ts);
    }

    /// Takes a signal in for the market with a key.
    pub fn upsert_under(&mut self, key: String, signal: MarketSignal, now_ts: i64)
        ensures
            *final(self) == (LongEngineState { markets: final(self).markets, ..*old(self) }),
            final(self).markets@ == old(self).markets@.insert(key@, final(self).markets@[key@]),
            old(self).with_signal(key@, signal, now_ts, final(self).markets@[key@]),
    {
        let mut m = match self.markets.remove(key.as_str()) {
            Some(m) => m,
            None => LongMarketState {
                market_slug: key.clone(),
                latest_signal: None,
                last_signal_at: 0,
                last_infer_at: 0,
                pending_signal: false,
                last_trade_at: 0,
                calls_day_start_ts: utc_day_start(now_ts),
                calls_today: 0,
            },
        };
        m.latest_signal = Some(signal);
        m.last_signal_at = now_ts;
        m.pending_signal = true;
        let ghost k0 = key@;
        self.markets.insert(key, m);
        assert(self.markets@ =~= old(self).markets@.insert(k0, m));
    }

    /// Takes the markets that are due, with their signals.
    pub fn take_due_candidates(&mut self, now_ts: i64, cfg: &VaultEngineConfig) -> (r: Vec<(
        String,
        MarketSignal,
    )>)
        ensures
            *final(self) == (LongEngineState { markets: final(self).markets, ..*old(self) }),
            final(self).markets.order() == old(self).markets.order(),
            final(self).markets@.dom() == old(self).markets@.dom(),
            forall|k: Seq<char>|
                #![trigger final(self).markets@[k]]
                old(self).markets@.contains_key(k) ==> final(self).markets@[k]
                    == old(self).markets@[k].taken(now_ts, *cfg),
            candidate_views(r@) == due_among(
                old(self).markets.order(),
                old(self).markets@,
                old(self).markets.order().len(),
                now_ts,
                *cfg,
            ),
    {
        let mut out: Vec<(String, MarketSignal)> = Vec::new();
        let n = self.markets.len();
        let ghost order = self.markets.order();
        let ghost before = self.markets@;
        let mut i: usize = 0;
        assert(candidate_views(out@) =~= Seq::<(Seq<char>, MarketSignal)>::empty());
        while i < n
            invariant
                i <= n,
                n == order.len(),
                order.no_duplicates(),
                order.to_set() == before.dom(),
                self.markets.order() == order,
                self.markets@.dom() == before.dom(),
                *self == (LongEngineState { markets: self.markets, ..*old(self) }),
                forall|j: int|
                    #![trigger order[j]]
                    0 <= j < i ==> self.markets@[order[j]] == before[order[j]].taken(now_ts, *cfg),
                forall|j: int|
                    #![trigger order[j]]
                    i <= j < n ==> self.markets@[order[j]] == before[order[j]],
                candidate_views(out@) == due_among(order, before, i as nat, now_ts, *cfg),
            decreases n - i,
        {
            let slug = self.markets.key_at(i).clone();
            let mut m = self.markets.replace_at(i, LongMarketState::blank());
            let ghost m0 = m;
            let waits = m.pending_signal && !less_than_apart(
                now_ts,
                m.last_trade_at,
                cfg.long_cooldown_sec,
            ) && !less_than_apart(now_ts, m.last_infer_at, cfg.long_min_infer_interval_sec);
            assert(waits == m0.due(now_ts as int, *cfg));
            let ghost out0 = out@;
            if waits {
                m.pending_signal = false;
                match &m.latest_signal {
                    Some(sig) => {
                        out.push((slug, sig.copy()));
                        m.last_infer_at = now_ts;
                        assert(candidate_views(out@) =~= candidate_views(out0).push(
                            (order[i as int], m0.latest_signal->0),
                        ));
                    },
                    None => {},
                }
            }
            assert(m == m0.taken(now_ts, *cfg));
            let _blank = self.markets.replace_at(i, m);
            assert(before.dom().contains(order[i as int])) by {
                assert(order.to_set().contains(order[i as int]));
            }
            assert(self.markets@.dom() =~= before.dom());
            i = i + 1;
        }
        assert forall|k: Seq<char>|
            #![trigger self.markets@[k]]
            before.contains_key(k) implies self.markets@[k] == before[k].taken(now_ts, *cfg) by {
            assert(order.to_set().contains(k));
            let j = order.index_of(k);
            assert(order[j] == k);
        }
        out
    }

    /// Notes a trade on a market.
    pub fn note_trade(&mut self, market_slug: &str, now_ts: i64)
        ensures
            *final(self) == (LongEngineState { markets: final(self).markets, ..*old(self) }),
            final(self).markets@ == old(self).markets_after_trade(lowercase(market_slug@), now_ts),
    {
        let key = to_lower(market_slug);
        self.note_trade_under(key.as_str(), now_ts);
    }

    /// The markets after a trade on one of them.
    pub open spec fn markets_after_trade(self, key: Seq<char>, now: i64) -> Map<Seq<char>, LongMarketState> {
        if self.markets@.contains_key(key) {
            self.markets@.insert(key, LongMarketState { last_trade_at: now, ..self.markets@[key] })
        } else {
            self.markets@
        }
    }

    /// Notes a trade on the market with a key.
    pub fn note_trade_under(&mut self, key: &str, now_ts: i64)
        ensures
            *final(self) == (LongEngineState { markets: final(self).markets, ..*old(self) }),
            final(self).markets@ == old(self).markets_after_trade(key@, now_ts),
    {
        match self.markets.remove(key) {
            Some(m) => {
                let mut m = m;
                m.last_trade_at = now_ts;
                self.markets.insert(key.to_owned(), m);
                assert(self.markets@ =~= old(self).markets@.insert(key@, m));
            },
            None => {
                assert(self.markets@ =~= old(self).markets@);
            },
        }
    }

    pub open spec fn band(self, token_id: Seq<char>) -> u8 {
        if self.exit_bands@.contains_key(token_id) {
            self.exit_bands@[token_id]
        } else {
            0
        }
    }

    /// How far a token was sold off.
    pub fn exit_band_of(&self, token_id: &str) -> (r: u8)
        ensures
            r == self.band(token_id@),
    {
        match self.exit_bands.get(token_id) {
            Some(b) => *b,
            None => 0,
        }
    }

    pub fn set_exit_band(&mut self, token_id: &str, band: u8)
        ensures
            *final(self) == (LongEngineState { exit_bands: final(self).exit_bands, ..*old(self) }),
            final(self).exit_bands@ == old(self).exit_bands@.insert(token_id@, band),
    {
        self.exit_bands.insert(token_id.to_owned(), band);
    }

    /// Whether an entry of a wallet is worth noting: the wallet has an address and a
    /// label that does not speak of high frequency, and the entry is large enough.
    pub open spec fn worth_noting(
        wallet: Seq<char>,
        label: Seq<char>,
        position_value: Scalar,
        min_notional: Scalar,
    ) -> bool {
        &&& wallet.len() > 0
        &&& label.len() > 0
        &&& !has_text(label, "high_frequency"@)
        &&& !has_text(label, "hft"@)
        &&& position_value.spec_is_finite()
        &&& !position_value.spec_lt(min_notional)
    }

    fn is_worth_noting(wallet: &str, label: &str, position_value: Scalar, min_notional: Scalar) -> (r: bool)
        ensures
            r == Self::worth_noting(wallet@, label@, position_value, min_notional),
    {
        if wallet.is_empty() || label.is_empty() {
            return false;
        }
        if contains(label, "high_frequency") || contains(label, "hft") {
            return false;
        }
        position_value.is_finite() && !position_value.lt(min_notional)
    }

    /// Takes in a signal on an entry of a wallet, and says whether its market now waits
    /// for a decision.
    pub fn ingest_long_signal(&mut self, signal: MarketSignal, cfg: &VaultEngineConfig, now: i64) -> (r: bool)
        requires
            now - cfg.long_wallet_window_sec >= i64::MIN,
            now > i64::MIN,
        ensures
            match signal.signal_type {
                SignalType::TrackedWalletEntry {
                    wallet_address,
                    wallet_label,
                    position_value_usd,
                    order_count,
                    token_label,
                } => {
                    let wallet = lowercase(trimmed(wallet_address@));
                    let label = lowercase(trimmed(wallet_label@));
                    if !Self::worth_noting(
                        wallet,
                        label,
                        position_value_usd,
                        cfg.long_wallet_min_notional_usd,
                    ) {
                        !r && *final(self) == *old(self)
                    } else {
                        let key = Self::activity_key(lowercase(wallet), lowercase(signal.market_slug@));
                        let market = lowercase(signal.market_slug@);
                        let events = events_of(final(self).wallet_activity@, key);
                        let outcome = match token_label {
                            Some(t) => trimmed(t@),
                            None => Seq::<char>::empty(),
                        };
                        &&& exists|e: WalletEvent|
                            is_entry_at(e, now as int, outcome) && #[trigger] old(self).entry_noted(
                                *final(self),
                                key,
                                e,
                                cfg.long_wallet_window_sec as int,
                            )
                        &&& r == (events.len() <= cfg.long_wallet_max_trades_per_window && one_sided(
                            events,
                        ))
                        &&& if r {
                            &&& final(self).markets@ == old(self).markets@.insert(
                                market,
                                final(self).markets@[market],
                            )
                            &&& old(self).with_signal(market, signal, now, final(self).markets@[market])
                        } else {
                            final(self).markets == old(self).markets
                        }
                    }
                },
                _ => !r && *final(self) == *old(self),
            },
            final(self).budget_day_start_ts == old(self).budget_day_start_ts,
            final(self).calls_today == old(self).calls_today,
            final(self).tokens_today == old(self).tokens_today,
            final(self).exit_bands == old(self).exit_bands,
    {
        let go = match &signal.signal_type {
            SignalType::TrackedWalletEntry {
                wallet_address,
                wallet_label,
                position_value_usd,
                token_label,
                ..
            } => {
                let wallet_bare = trim(wallet_address.as_str());
                let wallet = to_lower(wallet_bare.as_str());
                let label_bare = trim(wallet_label.as_str());
                let label = to_lower(label_bare.as_str());
                if !Self::is_worth_noting(
                    wallet.as_str(),
                    label.as_str(),
                    *position_value_usd,
                    cfg.long_wallet_min_notional_usd,
                ) {
                    return false;
                }
                let outcome = match token_label {
                    Some(t) => trim(t.as_str()),
                    None => String::new(),
                };
                self.record_wallet_activity(
                    wallet.as_str(),
                    signal.market_slug.as_str(),
                    now,
                    outcome.as_str(),
                    cfg.long_wallet_window_sec,
                    cfg.long_wallet_max_trades_per_window,
                )
            },
            _ => {
                return false;
            },
        };
        if !go {
            return false;
        }
        let ghost noted = *self;
        self.upsert_market_signal(signal, now);
        assert(self.wallet_activity == noted.wallet_activity);
        assert forall|key: Seq<char>, e: WalletEvent, w: int| #[trigger]
            old(self).entry_noted(noted, key, e, w) implies old(self).entry_noted(*self, key, e, w) by {}
        true
    }
}

/// Whether all entries that name an outcome name the same one.
fn one_outcome(events: &VecDeque<WalletEvent>) -> (r: bool)
    ensures
        r == one_sided(events@),
{
    let mut first: Option<usize> = None;
    let mut i: usize = 0;
    while i < events.len()
        invariant
            i <= events.len(),
            match first {
                None => forall|j: int|
                    #![trigger events@[j]]
                    0 <= j < i ==> trimmed(events@[j].outcome@).len() == 0,
                Some(f) => f < i && trimmed(events@[f as int].outcome@).len() > 0 && forall|j: int|
                    #![trigger events@[j]]
                    0 <= j < i && trimmed(events@[j].outcome@).len() > 0 ==> events@[j].lowered@
                        == events@[f as int].lowered@,
            },
        decreases events.len() - i,
    {
        let bare = trim(events[i].outcome.as_str());
        if !bare.as_str().is_empty() {
            match first {
                None => {
                    first = Some(i);
                },
                Some(f) => {
                    if !same(events[i].lowered.as_str(), events[f].lowered.as_str()) {
                        assert(!one_sided(events@)) by {
                            assert(events@[i as int].lowered@ != events@[f as int].lowered@);
                        }
                        return false;
                    }
                },
            }
        }
        i = i + 1;
    }
    true
}

/// When a market ends: the time of the signal counts before the time of the listing, and a
/// time that is blank or cannot be read does not count.
pub open spec fn expiry_of(signal_expiry: Option<Seq<char>>, gamma_expiry: Option<Seq<char>>) -> Option<i64> {
    let first = readable_expiry(signal_expiry);
    if first is Some {
        first
    } else {
        readable_expiry(gamma_expiry)
    }
}

pub open spec fn readable_expiry(t: Option<Seq<char>>) -> Option<i64> {
    match t {
        Some(s) => if trimmed(s).len() == 0 {
            None
        } else {
            match rfc3339_instant(s) {
                Some(i) => Some(i.0),
                None => None,
            }
        },
        None => None,
    }
}

fn read_expiry(t: &Option<String>) -> (r: Option<i64>)
    ensures
        r == readable_expiry(text_view(*t)),
{
    match t {
        Some(s) => {
            let bare = trim(s.as_str());
            if bare.as_str().is_empty() {
                return None;
            }
            match parse_rfc3339(s.as_str()) {
                Some(i) => Some(i.0),
                None => None,
            }
        },
        None => None,
    }
}

/// Finds out when a market ends.
pub fn parse_expiry_ts(signal_expiry: &Option<String>, gamma_expiry: &Option<String>) -> (r: Option<i64>)
    ensures
        r == expiry_of(text_view(*signal_expiry), text_view(*gamma_expiry)),
{
    let first = read_expiry(signal_expiry);
    let second = read_expiry(gamma_expiry);
    choose_expiry(first, second)
}

/// The time of the signal, else the time of the listing.
pub fn choose_expiry(first: Option<i64>, second: Option<i64>) -> (r: Option<i64>)
    ensures
        r == if first is Some {
            first
        } else {
            second
        },
{
    if first.is_some() {
        first
    } else {
        second
    }
}

/// What models are told to do.
pub fn long_system_prompt() -> (r: String)
    ensures
        r@ == "You are a conservative trading decision module. Follow the plan.\n\nmermaid\ngraph TD\nI[Inputs]-->A[Admissible]\nA-->B{StrongEdge}\nB--No-->H[HOLD]\nB--Yes-->C[PickOutcome]\nC-->D[EstimateP]\nD-->E[SizeMult]\nE-->O[OutputDSL]\n\n\nReturn ONLY KEY=VALUE lines. Allowed keys: ACTION, OUTCOME_INDEX, P_TRUE, UNCERTAINTY, SIZE_MULT, FLAGS, RATIONALE_HASH.\nRules:\n- ACTION must be BUY or HOLD.\n- OUTCOME_INDEX must be 0 or 1 when ACTION=BUY.\n- P_TRUE must be 0.0001..0.9999.\n- SIZE_MULT must be 0..1.\n- No extra text."@,
{
    "You are a conservative trading decision module. Follow the plan.\n\nmermaid\ngraph TD\nI[Inputs]-->A[Admissible]\nA-->B{StrongEdge}\nB--No-->H[HOLD]\nB--Yes-->C[PickOutcome]\nC-->D[EstimateP]\nD-->E[SizeMult]\nE-->O[OutputDSL]\n\n\nReturn ONLY KEY=VALUE lines. Allowed keys: ACTION, OUTCOME_INDEX, P_TRUE, UNCERTAINTY, SIZE_MULT, FLAGS, RATIONALE_HASH.\nRules:\n- ACTION must be BUY or HOLD.\n- OUTCOME_INDEX must be 0 or 1 when ACTION=BUY.\n- P_TRUE must be 0.0001..0.9999.\n- SIZE_MULT must be 0..1.\n- No extra text.".to_owned()
}

/// What the listing says of a market.
#[derive(Debug)]
pub struct GammaMarketLookup {
    pub question: Option<String>,
    pub description: Option<String>,
    pub outcomes: Vec<String>,
    pub clob_token_ids: Vec<String>,
    pub end_date_iso: Option<String>,
}

/// The numbers of a question, written out.
#[derive(Debug)]
pub struct PromptFigures {
    pub tte_days: String,
    pub current_price: String,
    pub liquidity: String,
    pub volume_24h: String,
    pub position_value_usd: String,
}

/// The outcomes with their numbers, from the `i`-th on.
pub open spec fn numbered(outcomes: Seq<Seq<char>>) -> Seq<Seq<char>> {
    Seq::new(outcomes.len(), |i: int| decimal(i) + ": "@ + outcomes[i])
}

/// What a market is called, bare and cut off after some characters.
pub open spec fn cut_text(t: Option<Seq<char>>, n: nat) -> Seq<char> {
    match t {
        Some(s) => first_chars(trimmed(s), n),
        None => first_chars(trimmed(Seq::<char>::empty()), n),
    }
}

fn cut(t: &Option<String>, n: usize) -> (r: String)
    ensures
        r@ == cut_text(text_view(*t), n as nat),
{
    let bare = match t {
        Some(s) => trim(s.as_str()),
        None => {
            let blank = String::new();
            trim(blank.as_str())
        },
    };
    take_chars(bare.as_str(), n)
}

fn number_outcomes(outcomes: &Vec<String>) -> (r: Vec<String>)
    ensures
        views(r@) == numbered(views(outcomes@)),
{
    let mut r: Vec<String> = Vec::new();
    let mut i: usize = 0;
    while i < outcomes.len()
        invariant
            i <= outcomes.len(),
            views(r@) == numbered(views(outcomes@)).take(i as int),
        decreases outcomes.len() - i,
    {
        let head = joined(decimal_u64(i as u64).as_str(), ": ");
        let line = joined(head.as_str(), outcomes[i].as_str());
        let ghost before = r@;
        r.push(line);
        assert(views(r@) =~= views(before).push(line@));
        assert(line@ == numbered(views(outcomes@))[i as int]);
        assert(views(r@) =~= numbered(views(outcomes@)).take(i as int + 1));
        i = i + 1;
    }
    assert(views(r@) =~= numbered(views(outcomes@)));
    r
}

/// What a question says of the wallet behind a signal.
pub open spec fn wallet_line(t: SignalType, position_value: Seq<char>) -> Seq<char> {
    match t {
        SignalType::TrackedWalletEntry {
            wallet_address,
            wallet_label,
            position_value_usd,
            order_count,
            token_label,
        } => "wallet_label="@ + wallet_label@ + " position_value_usd="@ + position_value
            + " order_count="@ + decimal(order_count as int) + " token_label="@ + (match token_label {
            Some(s) => s@,
            None => Seq::<char>::empty(),
        }) + " "@,
        _ => Seq::empty(),
    }
}

fn wallet_text(t: &SignalType, position_value: &str) -> (r: String)
    ensures
        r@ == wallet_line(*t, position_value@),
{
    match t {
        SignalType::TrackedWalletEntry { wallet_label, order_count, token_label, .. } => {
            let mut s = joined("wallet_label=", wallet_label.as_str());
            s = joined(s.as_str(), " position_value_usd=");
            s = joined(s.as_str(), position_value);
            s = joined(s.as_str(), " order_count=");
            s = joined(s.as_str(), decimal_u64(*order_count as u64).as_str());
            s = joined(s.as_str(), " token_label=");
            match token_label {
                Some(l) => {
                    s = joined(s.as_str(), l.as_str());
                },
                None => {
                    let blank = String::new();
                    s = joined(s.as_str(), blank.as_str());
                },
            }
            joined(s.as_str(), " ")
        },
        _ => String::new(),
    }
}

/// The question about a market.
pub open spec fn question_of(signal: MarketSignal, gamma: GammaMarketLookup, expiry_ts: int, f: PromptFigures) -> Seq<
    char,
> {
    "market_slug="@ + signal.market_slug@ + "\nmarket_title="@ + trimmed(
        signal.details.market_title@,
    ) + "\nquestion="@ + cut_text(text_view(gamma.question), 300) + "\ndescription="@ + cut_text(
        text_view(gamma.description),
        600,
    ) + "\nexpiry_ts="@ + decimal(expiry_ts) + "\ntte_days="@ + f.tte_days@ + "\n\noutcomes:\n"@
        + join_views(numbered(views(gamma.outcomes@)), "\n"@) + "\n\nmarket_snapshot: current_price="@
        + f.current_price@ + " liquidity="@ + f.liquidity@ + " volume_24h="@ + f.volume_24h@
        + "\n\nsignal: "@ + wallet_line(signal.signal_type, f.position_value_usd@)
        + "\n\nReturn DSL now."@
}

/// Writes the question about a market.
pub fn long_user_prompt(signal: &MarketSignal, gamma: &GammaMarketLookup, expiry_ts: i64, f: &PromptFigures) -> (r:
    String)
    ensures
        r@ == question_of(*signal, *gamma, expiry_ts as int, *f),
{
    let title = trim(signal.details.market_title.as_str());
    let question = cut(&gamma.question, 300);
    let description = cut(&gamma.description, 600);
    let lines = number_outcomes(&gamma.outcomes);
    let outcomes = join(&lines, "\n");
    let wallet = wallet_text(&signal.signal_type, f.position_value_usd.as_str());
    let mut s = joined("market_slug=", signal.market_slug.as_str());
    s = joined(s.as_str(), "\nmarket_title=");
    s = joined(s.as_str(), title.as_str());
    s = joined(s.as_str(), "\nquestion=");
    s = joined(s.as_str(), question.as_str());
    s = joined(s.as_str(), "\ndescription=");
    s = joined(s.as_str(), description.as_str());
    s = joined(s.as_str(), "\nexpiry_ts=");
    s = joined(s.as_str(), decimal_i64(expiry_ts).as_str());
    s = joined(s.as_str(), "\ntte_days=");
    s = joined(s.as_str(), f.tte_days.as_str());
    s = joined(s.as_str(), "\n\noutcomes:\n");
    s = joined(s.as_str(), outcomes.as_str());
    s = joined(s.as_str(), "\n\nmarket_snapshot: current_price=");
    s = joined(s.as_str(), f.current_price.as_str());
    s = joined(s.as_str(), " liquidity=");
    s = joined(s.as_str(), f.liquidity.as_str());
    s = joined(s.as_str(), " volume_24h=");
    s = joined(s.as_str(), f.volume_24h.as_str());
    s = joined(s.as_str(), "\n\nsignal: ");
    s = joined(s.as_str(), wallet.as_str());
    joined(s.as_str(), "\n\nReturn DSL now.")
}

/// Whether a day's budgets were kept to so far.
pub open spec fn within_budgets(s: LongEngineState, cfg: VaultEngineConfig) -> bool {
    &&& s.calls_today <= cfg.long_max_calls_per_day
    &&& s.tokens_today <= cfg.long_max_tokens_per_day
    &&& forall|k: Seq<char>|
        #![trigger s.markets@[k]]
        s.markets@.contains_key(k) ==> s.markets@[k].calls_today <= cfg.long_max_calls_per_market_per_day
}

/// Calls for which there was room when they were planned keep every budget of the day: each
/// of them leaves room for the rest, and so does a new day.
pub proof fn law_budgets_are_kept(
    before: LongEngineState,
    today: LongEngineState,
    after: LongEngineState,
    key: Seq<char>,
    calls: u32,
    tokens: u64,
    now: int,
    cfg: VaultEngineConfig,
)
    requires
        within_budgets(before, cfg),
        before.has_room(key, calls, cfg),
        calls >= 1,
        before.day_reset(today, now),
        today.call_spent(after, key, tokens, cfg),
    ensures
        within_budgets(today, cfg),
        today.has_room(key, calls, cfg),
        within_budgets(after, cfg),
        after.has_room(key, (calls - 1) as u32, cfg),
{
    assert forall|k: Seq<char>|
        #![trigger today.markets@[k]]
        today.markets@.contains_key(k) implies today.markets@[k].calls_today
        <= cfg.long_max_calls_per_market_per_day by {
        assert(before.markets@.dom().contains(k));
    }
    if today.markets@.contains_key(key) {
        assert(before.markets@.dom().contains(key));
    }
    assert forall|k: Seq<char>|
        #![trigger after.markets@[k]]
        after.markets@.contains_key(k) implies after.markets@[k].calls_today
        <= cfg.long_max_calls_per_market_per_day by {
        if k != key {
            assert(today.markets@.contains_key(k));
            assert(after.markets@[k] == today.markets@[k]);
        }
    }
}

/// A market that was taken is not due again, however late it is, until another signal
/// comes in for it.
pub proof fn law_signal_is_taken_once(m: LongMarketState, now: i64, later: int, cfg: VaultEngineConfig)
    requires
        m.due(now as int, cfg),
    ensures
        !m.taken(now, cfg).due(later, cfg),
{
}

/// Of entries in order of time, those that lie in the window stay, and no others.
pub proof fn law_recent_entries_stay(events: Seq<WalletEvent>, min_ts: int)
    requires
        forall|i: int, j: int|
            #![trigger events[i], events[j]]
            0 <= i <= j < events.len() ==> events[i].ts <= events[j].ts,
    ensures
        ({
            let kept = without_old(events, min_ts);
            let gone = events.len() - kept.len();
            &&& 0 <= gone
            &&& kept == events.skip(gone)
            &&& forall|i: int| 0 <= i < events.len() ==> (#[trigger] events[i].ts >= min_ts <==> i >= gone)
        }),
    decreases events.len(),
{
    if events.len() > 0 && events[0].ts < min_ts {
        let rest = events.skip(1);
        assert forall|i: int, j: int|
            #![trigger rest[i], rest[j]]
            0 <= i <= j < rest.len() implies rest[i].ts <= rest[j].ts by {
            assert(rest[i] == events[i + 1] && rest[j] == events[j + 1]);
        }
        law_recent_entries_stay(rest, min_ts);
        let kept = without_old(rest, min_ts);
        let gone = rest.len() - kept.len();
        assert(kept =~= events.skip(gone + 1)) by {
            assert(rest.skip(gone) =~= events.skip(gone + 1));
        }
        assert forall|i: int| 0 <= i < events.len() implies (#[trigger] events[i].ts >= min_ts <==> i
            >= gone + 1) by {
            if i > 0 {
                assert(rest[i - 1] == events[i]);
            }
        }
    } else {
        assert(events =~= events.skip(0));
        assert forall|i: int| 0 <= i < events.len() implies #[trigger] events[i].ts >= min_ts by {
            assert(events[0].ts <= events[i].ts);
        }
    }
}

/// The entries under a key among entries and their keys.
pub open spec fn entries_under(calls: Seq<(Seq<char>, WalletEvent)>, key: Seq<char>) -> Seq<WalletEvent>
    decreases calls.len(),
{
    if calls.len() == 0 {
        Seq::empty()
    } else {
        let before = entries_under(calls.drop_last(), key);
        if calls.last().0 == key {
            before.push(calls.last().1)
        } else {
            before
        }
    }
}

/// The entries that lie no further back than a bound.
pub open spec fn not_before(events: Seq<WalletEvent>, min_ts: int) -> Seq<WalletEvent> {
    events.filter(|e: WalletEvent| e.ts >= min_ts)
}

/// The first instant of a window that ends at an instant.
pub open spec fn window_start(now: int, window_sec: int) -> int {
    now - if window_sec > 1 {
        window_sec
    } else {
        1
    }
}

/// Whether each state follows from the one before it by noting an entry under a key.
pub open spec fn is_run(
    states: Seq<LongEngineState>,
    calls: Seq<(Seq<char>, WalletEvent)>,
    window_sec: int,
) -> bool {
    &&& states.len() == calls.len() + 1
    &&& forall|i: int|
        0 <= i < calls.len() ==> (#[trigger] states[i]).entry_noted(
            states[i + 1],
            calls[i].0,
            calls[i].1,
            window_sec,
        )
    &&& forall|i: int, j: int|
        #![trigger calls[i], calls[j]]
        0 <= i <= j < calls.len() ==> calls[i].1.ts <= calls[j].1.ts
}

proof fn lemma_entries_are_calls(calls: Seq<(Seq<char>, WalletEvent)>, key: Seq<char>)
    requires
        forall|i: int, j: int|
            #![trigger calls[i], calls[j]]
            0 <= i <= j < calls.len() ==> calls[i].1.ts <= calls[j].1.ts,
    ensures
        ({
            let e = entries_under(calls, key);
            &&& forall|i: int, j: int| #![trigger e[i], e[j]] 0 <= i <= j < e.len() ==> e[i].ts <= e[j].ts
            &&& forall|i: int| 0 <= i < e.len() ==> (#[trigger] e[i]).ts <= calls.last().1.ts
        }),
    decreases calls.len(),
{
    if calls.len() > 0 {
        let rest = calls.drop_last();
        assert forall|i: int, j: int|
            #![trigger rest[i], rest[j]]
            0 <= i <= j < rest.len() implies rest[i].1.ts <= rest[j].1.ts by {
            assert(rest[i] == calls[i] && rest[j] == calls[j]);
        }
        lemma_entries_are_calls(rest, key);
        if rest.len() > 0 {
            assert(rest.last() == calls[calls.len() - 2]);
            assert(calls[calls.len() - 2].1.ts <= calls[calls.len() - 1].1.ts);
        }
        let before = entries_under(rest, key);
        let e = entries_under(calls, key);
        assert(rest.len() == 0 ==> before.len() == 0);
        assert(forall|i: int| 0 <= i < before.len() ==> (#[trigger] before[i]).ts <= calls.last().1.ts);
        assert(forall|i: int| 0 <= i < before.len() ==> e[i] == #[trigger] before[i]);
        assert forall|i: int, j: int| #![trigger e[i], e[j]] 0 <= i <= j < e.len() implies e[i].ts <= e[j].ts by {
            if j < before.len() {
                assert(e[i] == before[i] && e[j] == before[j]);
            } else if i < before.len() {
                assert(e[i] == before[i]);
            }
        }
        assert forall|i: int| 0 <= i < e.len() implies (#[trigger] e[i]).ts <= calls.last().1.ts by {
            if i < before.len() {
                assert(e[i] == before[i]);
            }
        }
    }
}

proof fn lemma_filter_of_tail(events: Seq<WalletEvent>, gone: int, min_ts: int)
    requires
        0 <= gone <= events.len(),
        forall|i: int| 0 <= i < events.len() ==> (#[trigger] events[i].ts >= min_ts <==> i >= gone),
    ensures
        not_before(events, min_ts) == events.skip(gone),
    decreases events.len(),
{
    let keep = |e: WalletEvent| e.ts >= min_ts;
    reveal(Seq::filter);
    if events.len() == 0 {
        assert(events.skip(gone) =~= events.filter(keep));
    } else {
        let rest = events.drop_last();
        let n = events.len() - 1;
        assert forall|i: int| 0 <= i < rest.len() implies (#[trigger] rest[i].ts >= min_ts <==> i >= gone) by {
            assert(rest[i] == events[i]);
        }
        assert(events[n].ts >= min_ts <==> n >= gone);
        if gone <= n {
            lemma_filter_of_tail(rest, gone, min_ts);
            assert(events.skip(gone) =~= rest.skip(gone).push(events[n]));
        } else {
            lemma_filter_of_tail(rest, n, min_ts);
            assert(rest.skip(n) =~= events.skip(gone));
        }
    }
}

proof fn lemma_filter_again(events: Seq<WalletEvent>, early: int, late: int)
    requires
        early <= late,
    ensures
        not_before(not_before(events, early), late) == not_before(events, late),
    decreases events.len(),
{
    reveal(Seq::filter);
    let keep_early = |e: WalletEvent| e.ts >= early;
    let keep_late = |e: WalletEvent| e.ts >= late;
    if events.len() > 0 {
        lemma_filter_again(events.drop_last(), early, late);
        let before = events.drop_last().filter(keep_early);
        if events.last().ts >= early {
            assert(before.push(events.last()).drop_last() =~= before);
        }
    }
}

/// What is noted of a wallet in a market is what happened in the window: after a run of
/// entries with a clock that never goes back, in whatever wallets and markets, the entries
/// under the key of the last one are all those with that key that lie in its window, in
/// their order and whatever they led to.
pub proof fn law_window_holds_recent_entries(
    states: Seq<LongEngineState>,
    calls: Seq<(Seq<char>, WalletEvent)>,
    window_sec: int,
)
    requires
        is_run(states, calls, window_sec),
        calls.len() > 0,
        states[0].wallet_activity@ == Map::<Seq<char>, WalletMarketActivity>::empty(),
    ensures
        events_of(states.last().wallet_activity@, calls.last().0) == not_before(
            entries_under(calls, calls.last().0),
            window_start(calls.last().1.ts as int, window_sec),
        ),
{
    lemma_last_entry(states, calls, window_sec);
}

/// Between its entries, what is noted under a key stays as it was after the last of them.
proof fn lemma_noted_under(
    states: Seq<LongEngineState>,
    calls: Seq<(Seq<char>, WalletEvent)>,
    key: Seq<char>,
    window_sec: int,
)
    requires
        is_run(states, calls, window_sec),
        states[0].wallet_activity@ == Map::<Seq<char>, WalletMarketActivity>::empty(),
    ensures
        ({
            let e = entries_under(calls, key);
            if e.len() == 0 {
                events_of(states.last().wallet_activity@, key) == e
            } else {
                events_of(states.last().wallet_activity@, key) == not_before(
                    e,
                    window_start(e.last().ts as int, window_sec),
                )
            }
        }),
    decreases calls.len(), 1int,
{
    if calls.len() > 0 {
        let n = calls.len() - 1;
        assert(states[n].entry_noted(states[n + 1], calls[n].0, calls[n].1, window_sec));
        if calls.last().0 == key {
            lemma_last_entry(states, calls, window_sec);
        } else {
            lemma_shorter_run(states, calls, window_sec);
            lemma_noted_under(states.drop_last(), calls.drop_last(), key, window_sec);
            let before = states[n].wallet_activity@;
            let after = states[n + 1].wallet_activity@;
            assert(after.dom().contains(key) <==> before.dom().contains(key));
        }
    }
}

proof fn lemma_shorter_run(
    states: Seq<LongEngineState>,
    calls: Seq<(Seq<char>, WalletEvent)>,
    window_sec: int,
)
    requires
        is_run(states, calls, window_sec),
        calls.len() > 0,
    ensures
        is_run(states.drop_last(), calls.drop_last(), window_sec),
{
    let s = states.drop_last();
    let c = calls.drop_last();
    assert forall|i: int| 0 <= i < c.len() implies (#[trigger] s[i]).entry_noted(
        s[i + 1],
        c[i].0,
        c[i].1,
        window_sec,
    ) by {
        assert(states[i].entry_noted(states[i + 1], calls[i].0, calls[i].1, window_sec));
    }
    assert forall|i: int, j: int|
        #![trigger c[i], c[j]]
        0 <= i <= j < c.len() implies c[i].1.ts <= c[j].1.ts by {
        assert(calls[i].1.ts <= calls[j].1.ts);
    }
}

proof fn lemma_last_entry(
    states: Seq<LongEngineState>,
    calls: Seq<(Seq<char>, WalletEvent)>,
    window_sec: int,
)
    requires
        is_run(states, calls, window_sec),
        calls.len() > 0,
        states[0].wallet_activity@ == Map::<Seq<char>, WalletMarketActivity>::empty(),
    ensures
        events_of(states.last().wallet_activity@, calls.last().0) == not_before(
            entries_under(calls, calls.last().0),
            window_start(calls.last().1.ts as int, window_sec),
        ),
    decreases calls.len(), 0int,
{
    let n = calls.len() - 1;
    let key = calls[n].0;
    let event = calls[n].1;
    let min_ts = window_start(event.ts as int, window_sec);
    let rest = calls.drop_last();
    lemma_shorter_run(states, calls, window_sec);
    lemma_noted_under(states.drop_last(), rest, key, window_sec);
    assert(states[n].entry_noted(states[n + 1], key, event, window_sec));
    let earlier = entries_under(rest, key);
    let held = events_of(states[n].wallet_activity@, key);
    lemma_entries_are_calls(calls, key);
    lemma_entries_are_calls(rest, key);
    let all = entries_under(calls, key);
    assert(all == earlier.push(event));
    // What is held so far is in order of time, since it is a part of what came.
    law_recent_entries_stay(all, min_ts);
    let gone = all.len() - without_old(all, min_ts).len();
    lemma_filter_of_tail(all, gone, min_ts);
    if earlier.len() > 0 {
        let start = window_start(earlier.last().ts as int, window_sec);
        assert(earlier.last() == all[all.len() - 2]);
        assert(all[all.len() - 2].ts <= all[all.len() - 1].ts);
        law_recent_entries_stay(earlier, start);
        let cut = earlier.len() - without_old(earlier, start).len();
        lemma_filter_of_tail(earlier, cut, start);
        assert(held == earlier.skip(cut));
        let now = held.push(event);
        assert(now =~= all.skip(cut));
        assert forall|i: int, j: int|
            #![trigger now[i], now[j]]
            0 <= i <= j < now.len() implies now[i].ts <= now[j].ts by {
            assert(now[i] == all[i + cut] && now[j] == all[j + cut]);
        }
        law_recent_entries_stay(now, min_ts);
        let more = now.len() - without_old(now, min_ts).len();
        lemma_filter_of_tail(now, more, min_ts);
        lemma_filter_again(all, start, min_ts);
        assert(not_before(all, start) == all.skip(cut)) by {
            assert forall|i: int| 0 <= i < all.len() implies (#[trigger] all[i].ts >= start <==> i >= cut) by {
                if i < earlier.len() {
                    assert(all[i] == earlier[i]);
                } else {
                    assert(all[i] == event);
                }
            }
            lemma_filter_of_tail(all, cut, start);
        }
    } else {
        assert(held.push(event) =~= all);
    }
}

/// A wallet's address without a colon and a market name their entries: keys are equal where
/// both are.
pub proof fn law_keys_tell_entries_apart(w1: Seq<char>, m1: Seq<char>, w2: Seq<char>, m2: Seq<char>)
    requires
        !w1.contains(':'),
        !w2.contains(':'),
    ensures
        LongEngineState::activity_key(w1, m1) == LongEngineState::activity_key(w2, m2) <==> w1 == w2 && m1
            == m2,
{
    reveal_strlit(":");
    let a = LongEngineState::activity_key(w1, m1);
    let b = LongEngineState::activity_key(w2, m2);
    if a == b {
        assert(a[w1.len() as int] == ':');
        assert(b[w2.len() as int] == ':');
        if w1.len() < w2.len() {
            assert(w2[w1.len() as int] == b[w1.len() as int]);
            assert(w2.contains(w2[w1.len() as int]));
        } else if w2.len() < w1.len() {
            assert(w1[w2.len() as int] == a[w2.len() as int]);
            assert(w1.contains(w1[w2.len() as int]));
        }
        assert(w1 =~= a.take(w1.len() as int));
        assert(w2 =~= b.take(w2.len() as int));
        assert(m1 =~= a.skip(w1.len() as int + 1));
        assert(m2 =~= b.skip(w2.len() as int + 1));
    }
}

/// The first second of a day is a midnight, and the instant lies in the day that it begins.
pub proof fn law_day_starts_at_midnight(ts: i64, r: i64)
    requires
        call_ensures(utc_day_start, (ts,), r),
        0 <= ts <= MAX_INSTANT,
    ensures
        r % 86_400 == 0,
        r <= ts < r + 86_400,
{
}

/// On another day the budgets are whole again, of all and of each market; on the same day
/// nothing changes. Nothing else does.
pub proof fn law_budgets_start_anew_each_day(s: &mut LongEngineState, now: i64, day: i64, k: Seq<char>)
    requires
        call_ensures(LongEngineState::reset_day_if_needed, (s, now), ()),
        call_ensures(utc_day_start, (now,), day),
        old(s).markets@.contains_key(k),
    ensures
        final(s).budget_day_start_ts == day,
        old(s).budget_day_start_ts == day ==> *final(s) == *old(s),
        old(s).budget_day_start_ts != day ==> final(s).calls_today == 0 && final(s).tokens_today == 0 && final(s).markets@[k].calls_today == 0 && final(s).markets@[k].calls_day_start_ts == day,
        final(s).markets@.contains_key(k),
        final(s).markets@[k].pending_signal == old(s).markets@[k].pending_signal,
        final(s).markets@[k].latest_signal == old(s).markets@[k].latest_signal,
        final(s).markets@[k].last_trade_at == old(s).markets@[k].last_trade_at,
        final(s).markets@[k].last_infer_at == old(s).markets@[k].last_infer_at,
        final(s).exit_bands == old(s).exit_bands && final(s).wallet_activity == old(s).wallet_activity,
{
    let m = final(s).markets@[k];
    assert(final(s).markets@.dom().contains(k));
}

/// Calls are made where those of the day, those on the market and the tokens of the day all
/// leave room for them.
pub proof fn law_calls_need_room_in_all_budgets(
    s: LongEngineState,
    key: &str,
    n: u32,
    cfg: VaultEngineConfig,
    r: bool,
)
    requires
        call_ensures(LongEngineState::can_spend_under, (&s, key, n, &cfg), r),
        s.calls_today + n <= u32::MAX,
        s.markets@.contains_key(key@) ==> s.markets@[key@].calls_today + n <= u32::MAX,
    ensures
        r <==> s.tokens_today < cfg.long_max_tokens_per_day && s.calls_today + n <= cfg.long_max_calls_per_day && (
        s.markets@.contains_key(key@) ==> s.markets@[key@].calls_today + n <= cfg.long_max_calls_per_market_per_day),
{
}

/// A call is taken out of the budget of the day and of its market, its tokens out of theirs,
/// which never go beyond their bound; no other market pays for it.
pub proof fn law_call_is_taken_out_of_its_budgets(
    s: &mut LongEngineState,
    key: &str,
    tokens: u64,
    cfg: VaultEngineConfig,
    other: Seq<char>,
)
    requires
        call_ensures(LongEngineState::spend_under, (s, key, tokens, &cfg), ()),
        old(s).calls_today < u32::MAX,
        old(s).markets@.contains_key(key@) ==> old(s).markets@[key@].calls_today < u32::MAX,
        other != key@,
    ensures
        final(s).calls_today == old(s).calls_today + 1,
        old(s).tokens_today + tokens <= cfg.long_max_tokens_per_day ==> final(s).tokens_today == old(s).tokens_today
            + tokens,
        old(s).tokens_today + tokens > cfg.long_max_tokens_per_day ==> final(s).tokens_today
            == cfg.long_max_tokens_per_day,
        old(s).markets@.contains_key(key@) ==> final(s).markets@.contains_key(key@) && final(s).markets@[key@].calls_today == old(s).markets@[key@].calls_today + 1 && final(s).markets@[key@].pending_signal
            == old(s).markets@[key@].pending_signal,
        final(s).markets@.contains_key(other) <==> old(s).markets@.contains_key(other),
        old(s).markets@.contains_key(other) ==> final(s).markets@[other] == old(s).markets@[other],
        final(s).exit_bands == old(s).exit_bands && final(s).budget_day_start_ts == old(s).budget_day_start_ts,
{
}

/// A wallet is followed into a market where it entered seldom enough and into one outcome
/// only; an entry is always noted, last, under its own key.
pub proof fn law_seldom_and_one_sided_wallets_are_followed(
    s: &mut LongEngineState,
    key: String,
    e: WalletEvent,
    window_sec: i64,
    max_trades: usize,
    r: bool,
    other: Seq<char>,
)
    requires
        e.ts > i64::MIN,
        window_sec >= 0,
        call_ensures(LongEngineState::note_entry, (s, key, e, window_sec, max_trades), r),
        other != key@,
    ensures
        ({
            let v = final(s).wallet_activity@[key@].events@;
            &&& final(s).wallet_activity@.contains_key(key@)
            &&& v.len() > 0 && v.last() == e
            &&& v.len() > max_trades ==> !r
            &&& r ==> v.len() <= max_trades
            &&& r ==> forall|i: int|
                0 <= i < v.len() && trimmed((#[trigger] v[i]).outcome@).len() > 0 && trimmed(e.outcome@).len() > 0
                    ==> v[i].lowered@ == e.lowered@
            &&& v.len() <= max_trades && (forall|i: int| 0 <= i < v.len() ==> (#[trigger] v[i]).lowered@ == e.lowered@)
                ==> r
            &&& v[0].ts >= e.ts - if window_sec > 1 {
                window_sec as int
            } else {
                1
            }
            &&& final(s).wallet_activity@.contains_key(other) <==> old(s).wallet_activity@.contains_key(other)
            &&& old(s).wallet_activity@.contains_key(other) ==> final(s).wallet_activity@[other] == old(s).wallet_activity@[other]
            &&& final(s).markets == old(s).markets && final(s).calls_today == old(s).calls_today
        }),
{
    let before = events_of(old(s).wallet_activity@, key@);
    let all = before.push(e);
    lemma_cut_keeps_the_last(
        all,
        e.ts - if window_sec > 1 {
            window_sec as int
        } else {
            1
        },
    );
    assert(all.last() == e);
    assert(final(s).wallet_activity@.dom().contains(key@));
    let v = final(s).wallet_activity@[key@].events@;
    assert(events_of(final(s).wallet_activity@, key@) == v);
    assert(v[v.len() - 1] == e);
    assert(final(s).wallet_activity@.dom().contains(other) <==> old(s).wallet_activity@.dom().contains(other));
}

proof fn lemma_cut_keeps_the_last(events: Seq<WalletEvent>, min_ts: int)
    requires
        events.len() > 0,
        events.last().ts >= min_ts,
    ensures
        without_old(events, min_ts).len() > 0,
        without_old(events, min_ts).last() == events.last(),
        without_old(events, min_ts)[0].ts >= min_ts,
    decreases events.len(),
{
    if events[0].ts < min_ts {
        let rest = events.skip(1);
        assert(events.len() > 1);
        assert(rest.last() == events.last());
        lemma_cut_keeps_the_last(rest, min_ts);
    }
}

/// A signal waits in its market, and in no other; what the market is known by else stays.
pub proof fn law_signal_waits_in_its_market(
    s: &mut LongEngineState,
    key: String,
    signal: MarketSignal,
    now: i64,
    other: Seq<char>,
)
    requires
        call_ensures(LongEngineState::upsert_under, (s, key, signal, now), ()),
        other != key@,
    ensures
        ({
            let m = final(s).markets@[key@];
            let known = old(s).markets@.contains_key(key@);
            let w = old(s).markets@[key@];
            &&& final(s).markets@.contains_key(key@)
            &&& m.pending_signal && m.latest_signal == Some(signal) && m.last_signal_at == now
            &&& known ==> m.last_infer_at == w.last_infer_at && m.last_trade_at == w.last_trade_at && m.calls_today
                == w.calls_today && m.market_slug == w.market_slug
            &&& !known ==> m.last_infer_at == 0 && m.last_trade_at == 0 && m.calls_today == 0 && m.market_slug@ == key@
            &&& final(s).markets@.contains_key(other) <==> old(s).markets@.contains_key(other)
            &&& old(s).markets@.contains_key(other) ==> final(s).markets@[other] == old(s).markets@[other]
            &&& final(s).calls_today == old(s).calls_today && final(s).tokens_today == old(s).tokens_today
        }),
{
}

proof fn lemma_due_among(
    order: Seq<Seq<char>>,
    markets: Map<Seq<char>, LongMarketState>,
    n: nat,
    now: i64,
    cfg: VaultEngineConfig,
    k: int,
)
    requires
        0 <= k < n <= order.len(),
        markets[order[k]].due(now as int, cfg),
        markets[order[k]].latest_signal is Some,
    ensures
        due_among(order, markets, n, now, cfg).contains((order[k], markets[order[k]].latest_signal->0)),
    decreases n,
{
    let before = due_among(order, markets, (n - 1) as nat, now, cfg);
    let all = due_among(order, markets, n, now, cfg);
    let x = (order[k], markets[order[k]].latest_signal->0);
    if k < n - 1 {
        lemma_due_among(order, markets, (n - 1) as nat, now, cfg, k);
        let i = choose|i: int| 0 <= i < before.len() && before[i] == x;
        assert(all[i] == x);
    } else {
        assert(all[before.len() as int] == x);
    }
}

/// A market with a signal that waits is taken once its rest after a trade and after the last
/// question is over, and then waits no more.
pub proof fn law_due_markets_are_taken(
    s: &mut LongEngineState,
    now: i64,
    cfg: VaultEngineConfig,
    r: Vec<(String, MarketSignal)>,
    k: int,
)
    requires
        call_ensures(LongEngineState::take_due_candidates, (s, now, &cfg), r),
        0 <= k < old(s).markets.order().len(),
        old(s).markets@.contains_key(old(s).markets.order()[k]),
    ensures
        ({
            let slug = old(s).markets.order()[k];
            let w = old(s).markets@[slug];
            let m = final(s).markets@[slug];
            let due = w.pending_signal && now >= w.last_trade_at + cfg.long_cooldown_sec && now >= w.last_infer_at
                + cfg.long_min_infer_interval_sec;
            &&& due && w.latest_signal is Some ==> candidate_views(r@).contains((slug, w.latest_signal->0))
                && !m.pending_signal && m.last_infer_at == now
            &&& due && w.latest_signal is None ==> !m.pending_signal && m.last_infer_at == w.last_infer_at
            &&& !due ==> m == w
            &&& m.latest_signal == w.latest_signal && m.last_trade_at == w.last_trade_at && m.calls_today == w.calls_today
        }),
{
    let slug = old(s).markets.order()[k];
    let w = old(s).markets@[slug];
    let m = final(s).markets@[slug];
    if w.due(now as int, cfg) && w.latest_signal is Some {
        lemma_due_among(old(s).markets.order(), old(s).markets@, old(s).markets.order().len(), now, cfg, k);
    }
}

/// Nothing is taken but markets that are due.
pub proof fn law_only_due_markets_are_taken(
    s: &mut LongEngineState,
    now: i64,
    cfg: VaultEngineConfig,
    r: Vec<(String, MarketSignal)>,
    i: int,
)
    requires
        call_ensures(LongEngineState::take_due_candidates, (s, now, &cfg), r),
        0 <= i < r.len(),
    ensures
        ({
            let w = old(s).markets@[r[i].0@];
            &&& w.pending_signal && w.latest_signal == Some(r[i].1)
            &&& now >= w.last_trade_at + cfg.long_cooldown_sec
            &&& now >= w.last_infer_at + cfg.long_min_infer_interval_sec
        }),
{
    lemma_taken_was_due(old(s).markets.order(), old(s).markets@, old(s).markets.order().len(), now, cfg, i);
    assert(candidate_views(r@)[i] == (r[i].0@, r[i].1));
    assert(candidate_views(r@).len() == r.len());
}

proof fn lemma_taken_was_due(
    order: Seq<Seq<char>>,
    markets: Map<Seq<char>, LongMarketState>,
    n: nat,
    now: i64,
    cfg: VaultEngineConfig,
    i: int,
)
    ensures
        0 <= i < due_among(order, markets, n, now, cfg).len() ==> {
            let x = due_among(order, markets, n, now, cfg)[i];
            markets[x.0].due(now as int, cfg) && markets[x.0].latest_signal == Some(x.1)
        },
    decreases n,
{
    if n > 0 {
        lemma_taken_was_due(order, markets, (n - 1) as nat, now, cfg, i);
    }
}

/// A trade on a market sets its rest, and that of no other.
pub proof fn law_trade_sets_the_rest_of_its_market(s: &mut LongEngineState, key: &str, now: i64, other: Seq<char>)
    requires
        call_ensures(LongEngineState::note_trade_under, (s, key, now), ()),
        old(s).markets@.contains_key(key@),
        other != key@,
    ensures
        final(s).markets@[key@].last_trade_at == now,
        final(s).markets@[key@].pending_signal == old(s).markets@[key@].pending_signal,
        final(s).markets@[key@].last_infer_at == old(s).markets@[key@].last_infer_at,
        final(s).markets@[other] == old(s).markets@[other],
        final(s).exit_bands == old(s).exit_bands,
{
}

/// The band that is set for a token is the one that is found for it, and none where none was
/// set.
pub proof fn law_band_is_found_as_set(
    s: &mut LongEngineState,
    token: &str,
    band: u8,
    other: &str,
    before: LongEngineState,
    after: LongEngineState,
    a: u8,
    b: u8,
    c: u8,
)
    requires
        call_ensures(LongEngineState::set_exit_band, (s, token, band), ()),
        before == *old(s),
        after == *final(s),
        other@ != token@,
        call_ensures(LongEngineState::exit_band_of, (&after, token), a),
        call_ensures(LongEngineState::exit_band_of, (&after, other), b),
        call_ensures(LongEngineState::exit_band_of, (&before, other), c),
    ensures
        a == band,
        b == c,
        !before.exit_bands@.contains_key(other@) ==> b == 0,
{
}

/// An entry is taken in where its wallet has an address and a label that does not speak of
/// high frequency and the entry is large enough; only then may its market wait.
pub proof fn law_only_worthy_entries_are_taken_in(
    s: &mut LongEngineState,
    signal: MarketSignal,
    cfg: VaultEngineConfig,
    now: i64,
    r: bool,
)
    requires
        call_ensures(LongEngineState::ingest_long_signal, (s, signal, &cfg, now), r),
    ensures
        !(signal.signal_type is TrackedWalletEntry) ==> !r && *final(s) == *old(s),
        signal.signal_type is TrackedWalletEntry ==> {
            let label = lowercase(trimmed(signal.signal_type->TrackedWalletEntry_wallet_label@));
            let wallet = lowercase(trimmed(signal.signal_type->TrackedWalletEntry_wallet_address@));
            let value = signal.signal_type->TrackedWalletEntry_position_value_usd;
            let market = lowercase(signal.market_slug@);
            &&& wallet.len() == 0 || label.len() == 0 ==> !r && *final(s) == *old(s)
            &&& has_text(label, "high_frequency"@) || has_text(label, "hft"@) ==> !r && *final(s) == *old(s)
            &&& !value.spec_is_finite() || value.spec_lt(cfg.long_wallet_min_notional_usd) ==> !r && *final(s) == *old(s)
            &&& !r ==> final(s).markets == old(s).markets
            &&& r ==> final(s).markets@.contains_key(market) && final(s).markets@[market].pending_signal && final(s).markets@[market].latest_signal == Some(signal) && final(s).markets@[market].last_signal_at == now
            &&& wallet.len() > 0 && label.len() > 0 && !has_text(label, "high_frequency"@) && !has_text(label, "hft"@)
                && value.spec_is_finite() && !value.spec_lt(cfg.long_wallet_min_notional_usd) ==> final(s).wallet_activity@.contains_key(lowercase(wallet) + ":"@ + market)
        },
        final(s).calls_today == old(s).calls_today && final(s).tokens_today == old(s).tokens_today,
        final(s).exit_bands == old(s).exit_bands,
{
    if signal.signal_type is TrackedWalletEntry {
        let wallet = lowercase(trimmed(signal.signal_type->TrackedWalletEntry_wallet_address@));
        let key = LongEngineState::activity_key(lowercase(wallet), lowercase(signal.market_slug@));
        if *final(s) != *old(s) {
            assert(final(s).wallet_activity@.dom().contains(key));
        }
        assert(old(s).wallet_activity@.dom().insert(key).contains(key));
    }
}

/// The time of a signal goes before the time of a listing.
pub proof fn law_signal_time_goes_first(first: Option<i64>, second: Option<i64>, r: Option<i64>)
    requires
        call_ensures(choose_expiry, (first, second), r),
    ensures
        first is Some ==> r == first,
        first is None ==> r == second,
{
}

/// A blank time does not count, for the signal or for the listing.
pub proof fn law_blank_times_do_not_count(signal: Option<String>, listing: Option<String>, r: Option<i64>, alone: Option<i64>)
    requires
        call_ensures(parse_expiry_ts, (&signal, &listing), r),
        signal is None || trimmed(signal->0@).len() == 0,
        call_ensures(parse_expiry_ts, (&None::<String>, &listing), alone),
    ensures
        r == alone,
        listing is None || trimmed(listing->0@).len() == 0 ==> r is None,
{
}

/// A new strategy knows no market and has spent nothing.
pub proof fn law_long_strategy_starts_afresh(s: LongEngineState, k: Seq<char>)
    requires
        call_ensures(LongEngineState::new, (), s),
    ensures
        !s.markets@.contains_key(k) && !s.wallet_activity@.contains_key(k) && !s.exit_bands@.contains_key(k),
        s.calls_today == 0 && s.tokens_today == 0 && s.budget_day_start_ts == 0,
{
}

/// A market is spent on, signalled and traded under its name in small letters.
pub proof fn law_markets_are_kept_in_small_letters(
    a: &mut LongEngineState,
    b: &mut LongEngineState,
    slug: &str,
    key: &str,
    tokens: u64,
    cfg: VaultEngineConfig,
    c: &mut LongEngineState,
    d: &mut LongEngineState,
    now: i64,
    e: &mut LongEngineState,
    signal: MarketSignal,
    room: bool,
    same: bool,
    n: u32,
    s: LongEngineState,
)
    requires
        key@ == lowercase(slug@),
        *old(a) == *old(b),
        call_ensures(LongEngineState::spend_call, (a, slug, tokens, &cfg), ()),
        call_ensures(LongEngineState::spend_under, (b, key, tokens, &cfg), ()),
        *old(c) == *old(d),
        call_ensures(LongEngineState::note_trade, (c, slug, now), ()),
        call_ensures(LongEngineState::note_trade_under, (d, key, now), ()),
        signal.market_slug@ == slug@,
        call_ensures(LongEngineState::upsert_market_signal, (e, signal, now), ()),
        call_ensures(LongEngineState::can_spend_calls, (&s, slug, n, &cfg), room),
        call_ensures(LongEngineState::can_spend_under, (&s, key, n, &cfg), same),
    ensures
        final(a).markets@ == final(b).markets@ && final(a).calls_today == final(b).calls_today && final(a).tokens_today
            == final(b).tokens_today,
        final(c).markets@ == final(d).markets@,
        final(e).markets@.contains_key(key@) && final(e).markets@[key@].pending_signal && final(e).markets@[key@].latest_signal == Some(signal),
        room == same,
{
}

/// An entry of a wallet is noted under the wallet and the market in small letters, and the
/// wallet is followed where it enters seldom and into one outcome.
pub proof fn law_entries_are_noted_in_small_letters(
    s: &mut LongEngineState,
    wallet: &str,
    slug: &str,
    now: i64,
    outcome: &str,
    window_sec: i64,
    max_trades: usize,
    r: bool,
)
    requires
        call_ensures(LongEngineState::record_wallet_activity, (s, wallet, slug, now, outcome, window_sec, max_trades), r),
        window_sec >= 0,
        now > i64::MIN,
    ensures
        ({
            let key = lowercase(wallet@) + ":"@ + lowercase(slug@);
            let v = final(s).wallet_activity@[key].events@;
            &&& wallet@.len() == 0 ==> !r && *final(s) == *old(s)
            &&& wallet@.len() > 0 ==> final(s).wallet_activity@.contains_key(key) && v.len() > 0 && v.last().ts == now
                && v.last().outcome@ == trimmed(outcome@) && v.last().lowered@ == lowercase(trimmed(outcome@))
            &&& r ==> v.len() <= max_trades
            &&& wallet@.len() > 0 && v.len() > max_trades ==> !r
        }),
{
    if wallet@.len() > 0 {
        let key = LongEngineState::activity_key(lowercase(wallet@), lowercase(slug@));
        let e = choose|e: WalletEvent|
            is_entry_at(e, now as int, outcome@) && #[trigger] old(s).entry_noted(*final(s), key, e, window_sec as int);
        let all = events_of(old(s).wallet_activity@, key).push(e);
        assert(all.last() == e);
        lemma_cut_keeps_the_last(
            all,
            e.ts - if window_sec > 1 {
                window_sec as int
            } else {
                1
            },
        );
        assert(final(s).wallet_activity@.dom().contains(key));
    }
}

/// A question tells the market, its title, what it asks and describes, its end, its outcomes
/// by number, its figures and the signal, in that order.
pub proof fn law_question_tells_the_market(
    signal: MarketSignal,
    gamma: GammaMarketLookup,
    at: i64,
    f: PromptFigures,
    r: String,
)
    requires
        call_ensures(long_user_prompt, (&signal, &gamma, at, &f), r),
        gamma.question is None,
        gamma.description is None,
        !(signal.signal_type is TrackedWalletEntry),
        gamma.outcomes.len() == 2,
    ensures
        r@ == "market_slug="@ + signal.market_slug@ + "\nmarket_title="@ + trimmed(signal.details.market_title@)
            + "\nquestion="@ + "\ndescription="@ + "\nexpiry_ts="@ + decimal(at as int) + "\ntte_days="@ + f.tte_days@
            + "\n\noutcomes:\n"@ + (decimal(0) + ": "@ + gamma.outcomes[0]@ + "\n"@ + (decimal(1) + ": "@
            + gamma.outcomes[1]@)) + "\n\nmarket_snapshot: current_price="@ + f.current_price@ + " liquidity="@ + f.liquidity@
            + " volume_24h="@ + f.volume_24h@ + "\n\nsignal: "@ + "\n\nReturn DSL now."@,
{
    let n = numbered(views(gamma.outcomes@));
    reveal_with_fuel(join_views, 3);
    assert(views(gamma.outcomes@)[0] == gamma.outcomes[0]@);
    assert(views(gamma.outcomes@)[1] == gamma.outcomes[1]@);
    assert(n.len() == 2 && n[0] == decimal(0) + ": "@ + gamma.outcomes[0]@ && n[1] == decimal(1) + ": "@
        + gamma.outcomes[1]@);
    assert(n.drop_last() =~= seq![n[0]]);
    assert(trimmed(Seq::<char>::empty()) == Seq::<char>::empty());
    assert(cut_text(None, 300) =~= Seq::<char>::empty());
    assert(cut_text(None, 600) =~= Seq::<char>::empty());
    let head = "market_slug="@ + signal.market_slug@ + "\nmarket_title="@ + trimmed(signal.details.market_title@)
        + "\nquestion="@;
    assert(head + Seq::<char>::empty() =~= head);
    let more = head + "\ndescription="@;
    assert(more + Seq::<char>::empty() =~= more);
}

/// A question tells no more than three hundred characters of what the market asks and six
/// hundred of what it describes, and the wallet, its position, its orders and its token where
/// the signal has them.
pub proof fn law_question_tells_the_wallet(
    signal: MarketSignal,
    gamma: GammaMarketLookup,
    at: i64,
    f: PromptFigures,
    r: String,
)
    requires
        call_ensures(long_user_prompt, (&signal, &gamma, at, &f), r),
        gamma.question is Some,
        gamma.description is Some,
        signal.signal_type is TrackedWalletEntry,
        signal.signal_type->TrackedWalletEntry_token_label is Some,
    ensures
        exists|head: Seq<char>, middle: Seq<char>|
            {
                let t = signal.signal_type;
                let asks = first_chars(trimmed(gamma.question->0@), 300);
                let tells = first_chars(trimmed(gamma.description->0@), 600);
                &&& r@ == #[trigger] (head + middle) + ("wallet_label="@ + t->TrackedWalletEntry_wallet_label@
                    + " position_value_usd="@ + f.position_value_usd@ + " order_count="@ + decimal(
                    t->TrackedWalletEntry_order_count as int,
                ) + " token_label="@ + t->TrackedWalletEntry_token_label->0@ + " "@) + "\n\nReturn DSL now."@
                &&& head == "market_slug="@ + signal.market_slug@ + "\nmarket_title="@ + trimmed(
                    signal.details.market_title@,
                ) + "\nquestion="@ + asks + "\ndescription="@ + tells + "\nexpiry_ts="@ + decimal(at as int)
            },
{
    let asks = first_chars(trimmed(gamma.question->0@), 300);
    let tells = first_chars(trimmed(gamma.description->0@), 600);
    let head = "market_slug="@ + signal.market_slug@ + "\nmarket_title="@ + trimmed(signal.details.market_title@)
        + "\nquestion="@ + asks + "\ndescription="@ + tells + "\nexpiry_ts="@ + decimal(at as int);
    let middle = "\ntte_days="@ + f.tte_days@ + "\n\noutcomes:\n"@ + join_views(
        numbered(views(gamma.outcomes@)),
        "\n"@,
    ) + "\n\nmarket_snapshot: current_price="@ + f.current_price@ + " liquidity="@ + f.liquidity@ + " volume_24h="@
        + f.volume_24h@ + "\n\nsignal: "@;
    let line = wallet_line(signal.signal_type, f.position_value_usd@);
    assert(r@ =~= head + middle + line + "\n\nReturn DSL now."@);
}

} // verus!
