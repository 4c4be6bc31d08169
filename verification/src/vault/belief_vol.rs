//! How fast beliefs move.
use crate::base::order::{count_where, lemma_count_where_of_set};
use crate::base::ranks::{R_0_1, R_2};
use crate::base::scalar::{Scalar, HALF_RANK};
use crate::base::table::Table;
use crate::base::text::{lowercase, to_lower};
use std::collections::VecDeque;
use vstd::prelude::*;

verus! {

/// The rank of 2.0.
pub const PRIOR_SIGMA: i64 = 0x4000_0000_0000_0000;

/// The rank of 0.1.
pub const EMA_ALPHA: i64 = 0x3FB9_9999_9999_999A;

/// How long a gap between two observations may be in seconds.
pub const LONGEST_GAP: i64 = 3600;

/// How many increments are kept unless something else is asked for.
pub const KEPT_INCREMENTS: usize = 1000;

/// An estimate of the volatility of a market's log-odds.
#[derive(Clone, Copy, Debug, PartialEq, Eq, Structural)]
pub struct BeliefVolEstimate {
    pub sigma_b: Scalar,
    pub sample_count: usize,
    pub last_updated: i64,
    pub confidence: Scalar,
}

impl Default for BeliefVolEstimate {
    fn default() -> (r: BeliefVolEstimate)
        ensures
            r == (BeliefVolEstimate {
                sigma_b: Scalar::Rank(PRIOR_SIGMA),
                sample_count: 0,
                last_updated: 0,
                confidence: Scalar::Rank(0),
            }),
    {
        BeliefVolEstimate {
            sigma_b: Scalar::Rank(PRIOR_SIGMA),
            sample_count: 0,
            last_updated: 0,
            confidence: Scalar::Rank(0),
        }
    }
}

/// How volatilities are estimated.
#[derive(Clone, Copy, Debug, PartialEq, Eq, Structural)]
pub struct BeliefVolConfig {
    pub min_samples: usize,
    pub ema_alpha: Scalar,
    pub max_age_secs: i64,
    pub prior_sigma_b: Scalar,
}

impl Default for BeliefVolConfig {
    fn default() -> (r: BeliefVolConfig)
        ensures
            r == (BeliefVolConfig {
                min_samples: 30,
                ema_alpha: Scalar::Rank(EMA_ALPHA),
                max_age_secs: 3600,
                prior_sigma_b: Scalar::Rank(PRIOR_SIGMA),
            }),
    {
        BeliefVolConfig {
            min_samples: 30,
            ema_alpha: Scalar::Rank(EMA_ALPHA),
            max_age_secs: 3600,
            prior_sigma_b: Scalar::Rank(PRIOR_SIGMA),
        }
    }
}

/// How log-odds changed between two observations.
#[derive(Clone, Copy, Debug, PartialEq, Eq, Structural)]
pub struct LogOddsIncrement {
    pub timestamp: i64,
    pub x_before: Scalar,
    pub x_after: Scalar,
    /// The seconds in between; zero for a first observation.
    pub dt_secs: i64,
}

/// What was found out about the last move.
#[derive(Clone, Copy, Debug, PartialEq, Eq, Structural)]
pub struct JumpDetectionResult {
    pub is_jump: bool,
    pub z_score: Scalar,
    pub jump_size: Scalar,
    pub threshold_used: Scalar,
}

/// The counts of a tracker.
#[derive(Clone, Copy, Debug, PartialEq, Eq, Structural)]
pub struct BeliefVolSummary {
    pub markets_tracked: usize,
    pub reliable_estimates: usize,
}

/// What an observation did.
#[derive(Clone, Copy, Debug, PartialEq, Eq, Structural)]
pub enum Recorded {
    /// It is the first of its market.
    First,
    /// It came too soon or too late after the last one.
    Skipped,
    /// It was appended, and the market's estimate is due.
    Appended,
}

/// Whether an increment says how fast log-odds move.
pub open spec fn is_move(inc: LogOddsIncrement) -> bool {
    inc.dt_secs > 0
}

/// How many increments are moves.
pub open spec fn move_count(s: Seq<LogOddsIncrement>) -> nat
    decreases s.len(),
{
    if s.len() == 0 {
        0
    } else {
        move_count(s.drop_last()) + if is_move(s.last()) {
            1nat
        } else {
            0nat
        }
    }
}

/// The moves from `cutoff` on, newest first: the increments are walked from the
/// newest back to the first that is older.
pub open spec fn moves_since(s: Seq<LogOddsIncrement>, cutoff: int) -> Seq<LogOddsIncrement>
    decreases s.len(),
{
    if s.len() == 0 || s.last().timestamp < cutoff {
        Seq::empty()
    } else {
        let older = moves_since(s.drop_last(), cutoff);
        if is_move(s.last()) {
            seq![s.last()] + older
        } else {
            older
        }
    }
}

/// The last `limit` items.
pub open spec fn last_items<T>(s: Seq<T>, limit: nat) -> Seq<T> {
    if s.len() <= limit {
        s
    } else {
        s.skip(s.len() - limit)
    }
}

/// A move, the spread that was to be expected of it, and how many times that it went.
#[derive(Clone, Copy, Debug, PartialEq, Eq, Structural)]
pub struct ScoredMove {
    pub m: LogOddsIncrement,
    pub expected_std: Scalar,
    pub z_score: Scalar,
}

/// Whether a move is a jump: it went further than a threshold says, where some spread was
/// to be expected.
pub open spec fn is_jump(s: ScoredMove, threshold: Scalar) -> bool {
    Scalar::Rank(0).spec_lt(s.expected_std) && threshold.spec_lt(s.z_score)
}

/// How many of the moves are jumps by their scores; a score of another move counts for
/// nothing.
pub open spec fn jump_count(moves: Seq<LogOddsIncrement>, scored: Seq<ScoredMove>, threshold: Scalar) -> nat
    decreases moves.len(),
{
    if moves.len() == 0 {
        0
    } else {
        let i = moves.len() - 1;
        jump_count(moves.drop_last(), scored, threshold) + if i < scored.len() && scored[i].m == moves[i]
            && is_jump(scored[i], threshold) {
            1nat
        } else {
            0nat
        }
    }
}

/// Counts the jumps among moves.
pub fn jumps_among(moves: &Vec<LogOddsIncrement>, scored: &Vec<ScoredMove>, threshold: Scalar) -> (r: usize)
    ensures
        r == jump_count(moves@, scored@, threshold),
{
    let mut r: usize = 0;
    let mut i: usize = 0;
    while i < moves.len()
        invariant
            i <= moves.len(),
            r <= i,
            r == jump_count(moves@.take(i as int), scored@, threshold),
        decreases moves.len() - i,
    {
        assert(moves@.take(i as int + 1).drop_last() =~= moves@.take(i as int));
        if i < scored.len() && scored[i].m == moves[i] && Scalar::Rank(0).lt(scored[i].expected_std)
            && threshold.lt(scored[i].z_score) {
            r = r + 1;
        }
        i = i + 1;
    }
    assert(moves@.take(i as int) =~= moves@);
    r
}

/// Whether scores are those of moves, one for each and in their order.
pub open spec fn are_scores_of(scored: Seq<ScoredMove>, moves: Seq<LogOddsIncrement>) -> bool {
    &&& scored.len() == moves.len()
    &&& forall|i: int| 0 <= i < scored.len() ==> (#[trigger] scored[i]).m == moves[i]
}

/// The volatility estimates of all markets.
pub struct BeliefVolTracker {
    config: BeliefVolConfig,
    history: Table<VecDeque<LogOddsIncrement>>,
    estimates: Table<BeliefVolEstimate>,
    max_history: usize,
}

impl BeliefVolTracker {
    pub closed spec fn cfg(self) -> BeliefVolConfig {
        self.config
    }

    /// How many increments are kept per market.
    pub closed spec fn limit(self) -> usize {
        self.max_history
    }

    /// The increments of a market, by its key.
    pub closed spec fn increments(self, key: Seq<char>) -> Option<Seq<LogOddsIncrement>> {
        if self.history@.contains_key(key) {
            Some(self.history@[key]@)
        } else {
            None
        }
    }

    /// The estimates, by the keys of the markets.
    pub closed spec fn known(self) -> Map<Seq<char>, BeliefVolEstimate> {
        self.estimates@
    }

    pub closed spec fn history_len(self) -> nat {
        self.history.order().len()
    }

    /// Whether an estimate can be relied on.
    pub open spec fn relies_on(self, e: BeliefVolEstimate) -> bool {
        e.sample_count >= self.cfg().min_samples && Scalar::Rank(HALF_RANK).spec_lt(e.confidence)
    }

    /// A tracker without observations.
    pub fn new(config: BeliefVolConfig) -> (r: BeliefVolTracker)
        ensures
            r.cfg() == config,
            r.limit() == KEPT_INCREMENTS,
            forall|k: Seq<char>| (#[trigger] r.increments(k)) is None,
            r.known() == Map::<Seq<char>, BeliefVolEstimate>::empty(),
            r.history_len() == 0,
    {
        BeliefVolTracker {
            config,
            history: Table::new(),
            estimates: Table::new(),
            max_history: KEPT_INCREMENTS,
        }
    }

    /// The tracker with another number of increments to keep.
    pub fn with_max_history(self, max: usize) -> (r: BeliefVolTracker)
        ensures
            r.limit() == max,
            r.cfg() == self.cfg(),
            r.known() == self.known(),
            r.history_len() == self.history_len(),
            forall|k: Seq<char>| (#[trigger] r.increments(k)) == self.increments(k),
    {
        BeliefVolTracker {
            config: self.config,
            history: self.history,
            estimates: self.estimates,
            max_history: max,
        }
    }

    /// How many increments are kept per market.
    pub fn max_history(&self) -> (r: usize)
        ensures
            r == self.limit(),
    {
        self.max_history
    }

    /// The volatility of a market, or the prior where too few samples stand behind
    /// an estimate.
    pub fn get_sigma_b(&self, market_slug: &str) -> (r: Scalar)
        ensures
            r == if self.known().contains_key(market_slug@) && self.known()[market_slug@].sample_count
                >= self.cfg().min_samples {
                self.known()[market_slug@].sigma_b
            } else {
                self.cfg().prior_sigma_b
            },
    {
        match self.estimates.get(market_slug) {
            Some(e) => if e.sample_count >= self.config.min_samples {
                e.sigma_b
            } else {
                self.config.prior_sigma_b
            },
            None => self.config.prior_sigma_b,
        }
    }

    /// The estimate of a market.
    pub fn get_estimate(&self, market_slug: &str) -> (r: Option<&BeliefVolEstimate>)
        ensures
            match r {
                Some(e) => self.known().contains_key(market_slug@) && *e == self.known()[market_slug@],
                None => !self.known().contains_key(market_slug@),
            },
    {
        self.estimates.get(market_slug)
    }

    /// Whether a market has an estimate to rely on.
    pub fn has_reliable_estimate(&self, market_slug: &str) -> (r: bool)
        ensures
            r == (self.known().contains_key(market_slug@) && self.relies_on(
                self.known()[market_slug@],
            )),
    {
        match self.estimates.get(market_slug) {
            Some(e) => e.sample_count >= self.config.min_samples && Scalar::Rank(HALF_RANK).lt(e.confidence),
            None => false,
        }
    }

    pub fn config(&self) -> (r: &BeliefVolConfig)
        ensures
            *r == self.cfg(),
    {
        &self.config
    }

    /// How many markets were observed.
    pub fn market_count(&self) -> (r: usize)
        ensures
            r == self.history_len(),
    {
        self.history.len()
    }

    /// The log-odds of the last observation of a market.
    pub fn last_increment(&self, market_slug: &str) -> (r: Option<LogOddsIncrement>)
        ensures
            r == match self.increments(lowercase(market_slug@)) {
                Some(s) => if s.len() > 0 {
                    Some(s.last())
                } else {
                    None
                },
                None => None,
            },
    {
        let key = to_lower(market_slug);
        match self.history.get(key.as_str()) {
            Some(h) => if h.len() > 0 {
                Some(h[h.len() - 1])
            } else {
                None
            },
            None => None,
        }
    }

    /// What an observation does to the increments of its market.
    pub open spec fn observed(
        self,
        key: Seq<char>,
        x_now: Scalar,
        x_before: Scalar,
        timestamp: i64,
    ) -> (Recorded, Seq<LogOddsIncrement>) {
        let h = match self.increments(key) {
            Some(s) => s,
            None => Seq::empty(),
        };
        if h.len() == 0 {
            (
                Recorded::First,
                seq![LogOddsIncrement { timestamp, x_before: x_now, x_after: x_now, dt_secs: 0 }],
            )
        } else {
            let dt = timestamp - h.last().timestamp;
            if 1 <= dt <= 3600 {
                (
                    Recorded::Appended,
                    last_items(
                        h.push(
                            LogOddsIncrement {
                                timestamp,
                                x_before,
                                x_after: x_now,
                                dt_secs: dt as i64,
                            },
                        ),
                        self.limit() as nat,
                    ),
                )
            } else {
                (Recorded::Skipped, h)
            }
        }
    }

    /// Records an observation of a market: its log-odds now, and those of the last
    /// observation. Only gaps from a second to an hour count.
    pub fn record_observation(
        &mut self,
        market_slug: &str,
        x_now: Scalar,
        x_before: Scalar,
        timestamp: i64,
    ) -> (r: Recorded)
        ensures
            final(self).cfg() == old(self).cfg(),
            final(self).limit() == old(self).limit(),
            final(self).known() == old(self).known(),
            ({
                let key = lowercase(market_slug@);
                let (what, s) = old(self).observed(key, x_now, x_before, timestamp);
                &&& r == what
                &&& final(self).increments(key) == Some(s)
                &&& forall|k: Seq<char>|
                    k != key ==> (#[trigger] final(self).increments(k)) == old(self).increments(k)
                &&& final(self).history_len() == old(self).history_len() + if old(self).increments(
                    key,
                ) is None {
                    1int
                } else {
                    0
                }
            }),
    {
        let key = to_lower(market_slug);
        self.record_under(key, x_now, x_before, timestamp)
    }

    /// Records an observation of the market with a key.
    pub fn record_under(&mut self, key: String, x_now: Scalar, x_before: Scalar, timestamp: i64) -> (r:
        Recorded)
        ensures
            final(self).cfg() == old(self).cfg(),
            final(self).limit() == old(self).limit(),
            final(self).known() == old(self).known(),
            ({
                let (what, s) = old(self).observed(key@, x_now, x_before, timestamp);
                &&& r == what
                &&& final(self).increments(key@) == Some(s)
                &&& forall|k: Seq<char>|
                    k != key@ ==> (#[trigger] final(self).increments(k)) == old(self).increments(k)
                &&& final(self).history_len() == old(self).history_len() + if old(self).increments(
                    key@,
                ) is None {
                    1int
                } else {
                    0
                }
            }),
    {
        let ghost before = self.increments(key@);
        let mut h: VecDeque<LogOddsIncrement> = VecDeque::new();
        let mut i: usize = 0;
        match self.history.get(key.as_str()) {
            Some(old_h) => {
                while i < old_h.len()
                    invariant
                        i <= old_h.len(),
                        h@ == old_h@.take(i as int),
                    decreases old_h.len() - i,
                {
                    assert(old_h@.take(i as int + 1) =~= old_h@.take(i as int).push(old_h@[i as int]));
                    h.push_back(old_h[i]);
                    i = i + 1;
                }
                assert(h@ =~= old_h@);
            },
            None => {},
        }
        let ghost was = h@;
        let what = if h.len() == 0 {
            h.push_back(LogOddsIncrement { timestamp, x_before: x_now, x_after: x_now, dt_secs: 0 });
            assert(h@ =~= seq![
                LogOddsIncrement { timestamp, x_before: x_now, x_after: x_now, dt_secs: 0 },
            ]);
            Recorded::First
        } else {
            let last = h[h.len() - 1];
            let dt: i128 = (timestamp as i128) - (last.timestamp as i128);
            if 1 <= dt && dt <= 3600 {
                h.push_back(
                    LogOddsIncrement { timestamp, x_before, x_after: x_now, dt_secs: dt as i64 },
                );
                let ghost full = h@;
                while h.len() > self.max_history
                    invariant
                        h.len() <= full.len(),
                        h@ == full.skip(full.len() - h.len()),
                        h.len() >= self.max_history || h.len() == full.len(),
                    decreases h.len(),
                {
                    let ghost now = h@;
                    let _oldest = h.pop_front();
                    assert(h@ =~= full.skip(full.len() - h.len()));
                }
                assert(full.skip(0) =~= full);
                Recorded::Appended
            } else {
                Recorded::Skipped
            }
        };
        self.history.insert(key, h);
        what
    }

    /// Notes the estimate that the increments of a market give: its samples are the
    /// moves after the oldest increment, and without one there is no estimate.
    pub fn update_estimate(&mut self, key: &str, sigma_b: Scalar, confidence: Scalar, now_ts: i64)
        ensures
            final(self).cfg() == old(self).cfg(),
            final(self).limit() == old(self).limit(),
            final(self).history_len() == old(self).history_len(),
            forall|k: Seq<char>| (#[trigger] final(self).increments(k)) == old(self).increments(k),
            final(self).known() == match old(self).increments(key@) {
                Some(s) => if s.len() >= 2 && move_count(s.skip(1)) > 0 {
                    old(self).known().insert(
                        key@,
                        BeliefVolEstimate {
                            sigma_b,
                            sample_count: move_count(s.skip(1)) as usize,
                            last_updated: now_ts,
                            confidence,
                        },
                    )
                } else {
                    old(self).known()
                },
                None => old(self).known(),
            },
    {
        let count = self.sample_count(key);
        if count > 0 {
            self.estimates.insert(
                key.to_owned(),
                BeliefVolEstimate { sigma_b, sample_count: count, last_updated: now_ts, confidence },
            );
        }
    }

    /// How many moves an estimate of a market would rest on.
    pub fn sample_count(&self, key: &str) -> (r: usize)
        ensures
            r == match self.increments(key@) {
                Some(s) => if s.len() >= 2 {
                    move_count(s.skip(1))
                } else {
                    0
                },
                None => 0,
            },
    {
        match self.history.get(key) {
            Some(h) => {
                if h.len() < 2 {
                    return 0;
                }
                let mut count: usize = 0;
                let mut i: usize = 1;
                assert(h@.subrange(1, 1) =~= Seq::<LogOddsIncrement>::empty());
                while i < h.len()
                    invariant
                        1 <= i <= h.len(),
                        count < i,
                        count == move_count(h@.subrange(1, i as int)),
                    decreases h.len() - i,
                {
                    assert(h@.subrange(1, i as int + 1).drop_last() =~= h@.subrange(1, i as int));
                    if h[i].dt_secs > 0 {
                        count = count + 1;
                    }
                    i = i + 1;
                }
                assert(h@.subrange(1, i as int) =~= h@.skip(1));
                count
            },
            None => 0,
        }
    }

    /// The moves of the market with a key in the last `window_secs` seconds, newest first.
    pub open spec fn moves_in(self, key: Seq<char>, window_secs: int, now_ts: int) -> Seq<LogOddsIncrement> {
        match self.increments(key) {
            Some(s) => moves_since(s, now_ts - window_secs),
            None => Seq::empty(),
        }
    }

    /// The moves of a market in the last `window_secs` seconds, newest first.
    pub fn recent_moves(&self, market_slug: &str, window_secs: i64, now_ts: i64) -> (r: Vec<
        LogOddsIncrement,
    >)
        ensures
            r@ == self.moves_in(lowercase(market_slug@), window_secs as int, now_ts as int),
    {
        let key = to_lower(market_slug);
        self.recent_moves_under(key.as_str(), window_secs, now_ts)
    }

    /// The moves of the market with a key in the last `window_secs` seconds.
    pub fn recent_moves_under(&self, key: &str, window_secs: i64, now_ts: i64) -> (r: Vec<
        LogOddsIncrement,
    >)
        ensures
            r@ == self.moves_in(key@, window_secs as int, now_ts as int),
    {
        let mut r: Vec<LogOddsIncrement> = Vec::new();
        match self.history.get(key) {
            Some(h) => {
                let cutoff: i128 = (now_ts as i128) - (window_secs as i128);
                let ghost s = h@;
                let mut i: usize = h.len();
                assert(s.take(i as int) =~= s);
                assert(r@ + moves_since(s.take(i as int), cutoff as int) =~= moves_since(s, cutoff as int));
                while i > 0
                    invariant
                        i <= h.len(),
                        s == h@,
                        cutoff == now_ts - window_secs,
                        self.increments(key@) == Some(s),
                        r@ + moves_since(s.take(i as int), cutoff as int) == moves_since(
                            s,
                            cutoff as int,
                        ),
                    decreases i,
                {
                    let inc = h[i - 1];
                    let ghost upto = s.take(i as int);
                    assert(upto.last() == inc);
                    assert(upto.drop_last() =~= s.take(i - 1));
                    if (inc.timestamp as i128) < cutoff {
                        assert(r@ + Seq::<LogOddsIncrement>::empty() =~= r@);
                        return r;
                    }
                    if inc.dt_secs > 0 {
                        let ghost had = r@;
                        r.push(inc);
                        assert(had + (seq![inc] + moves_since(s.take(i - 1), cutoff as int)) =~= r@
                            + moves_since(s.take(i - 1), cutoff as int));
                    }
                    i = i - 1;
                }
                assert(r@ + moves_since(s.take(0), cutoff as int) =~= r@);
            },
            None => {},
        }
        r
    }

    /// Whether enough moves over enough time stand behind a realized volatility.
    pub fn enough_for_volatility(moves: &Vec<LogOddsIncrement>) -> (r: bool)
        ensures
            r == (moves.len() >= 5 && total_gap(moves@) >= 60),
    {
        let mut sum: i128 = 0;
        let mut i: usize = 0;
        while i < moves.len()
            invariant
                i <= moves.len(),
                sum == total_gap(moves@.take(i as int)),
                -0x8000_0000_0000_0000 * i <= sum <= 0x7FFF_FFFF_FFFF_FFFF * i,
            decreases moves.len() - i,
        {
            assert(moves@.take(i as int + 1).drop_last() =~= moves@.take(i as int));
            sum = sum + (moves[i].dt_secs as i128);
            i = i + 1;
        }
        assert(moves@.take(i as int) =~= moves@);
        moves.len() >= 5 && sum >= 60
    }

    /// The realized volatility of a market in the last `window_secs` seconds, where enough
    /// moves stand behind it; `worked_out` is that of these moves.
    pub fn realized_vol_window(
        &self,
        market_slug: &str,
        window_secs: i64,
        now_ts: i64,
        worked_out: Scalar,
    ) -> (r: Option<Scalar>)
        ensures
            r == match self.increments(lowercase(market_slug@)) {
                Some(s) => if moves_since(s, now_ts - window_secs).len() >= 5 && total_gap(
                    moves_since(s, now_ts - window_secs),
                ) >= 60 {
                    Some(worked_out)
                } else {
                    None
                },
                None => None,
            },
    {
        let moves = self.recent_moves(market_slug, window_secs, now_ts);
        if BeliefVolTracker::enough_for_volatility(&moves) {
            Some(worked_out)
        } else {
            None
        }
    }

    /// Judges the last move of a market by its score: `expected_std` is the spread that was
    /// to be expected of it, and `dx` how far it went.
    pub fn detect_recent_jump(
        &self,
        market_slug: &str,
        threshold_sigma: Scalar,
        expected_std: Scalar,
        z_score: Scalar,
        dx: Scalar,
    ) -> (r: Option<JumpDetectionResult>)
        ensures
            r == if self.judged(lowercase(market_slug@)) is None || expected_std.spec_le(Scalar::Rank(0)) {
                None
            } else {
                Some(verdict(z_score, dx, threshold_sigma))
            },
    {
        if self.last_move(market_slug).is_none() || expected_std.le(Scalar::Rank(0)) {
            return None;
        }
        Some(jump_verdict(z_score, dx, threshold_sigma))
    }

    /// Counts the jumps of a market in the last `window_secs` seconds, given the scores of
    /// its moves there in their order; none without an estimate. A score of another move
    /// counts for nothing.
    pub fn count_recent_jumps(
        &self,
        market_slug: &str,
        window_secs: i64,
        now_ts: i64,
        scored: &Vec<ScoredMove>,
        threshold_sigma: Scalar,
    ) -> (r: usize)
        ensures
            r == self.jumps_in(
                lowercase(market_slug@),
                window_secs as int,
                now_ts as int,
                scored@,
                threshold_sigma,
            ),
    {
        let key = to_lower(market_slug);
        if self.estimates.contains(key.as_str()) {
            let moves = self.recent_moves_under(key.as_str(), window_secs, now_ts);
            jumps_among(&moves, scored, threshold_sigma)
        } else {
            0
        }
    }

    /// The jumps of the market with a key in the last `window_secs` seconds; none without an
    /// estimate.
    pub open spec fn jumps_in(
        self,
        key: Seq<char>,
        window_secs: int,
        now_ts: int,
        scored: Seq<ScoredMove>,
        threshold: Scalar,
    ) -> nat {
        if self.known().contains_key(key) {
            jump_count(self.moves_in(key, window_secs, now_ts), scored, threshold)
        } else {
            0
        }
    }

    /// The last move of a market and its estimate, where there is a move to judge.
    pub fn last_move(&self, market_slug: &str) -> (r: Option<(LogOddsIncrement, BeliefVolEstimate)>)
        ensures
            r == self.judged(lowercase(market_slug@)),
    {
        let key = to_lower(market_slug);
        match (self.history.get(key.as_str()), self.estimates.get(key.as_str())) {
            (Some(h), Some(e)) => {
                if h.len() == 0 {
                    return None;
                }
                let inc = h[h.len() - 1];
                if inc.dt_secs <= 0 {
                    None
                } else {
                    Some((inc, *e))
                }
            },
            _ => None,
        }
    }

    pub open spec fn judged(self, key: Seq<char>) -> Option<(LogOddsIncrement, BeliefVolEstimate)> {
        match self.increments(key) {
            Some(s) => if self.known().contains_key(key) && s.len() > 0 && is_move(s.last()) {
                Some((s.last(), self.known()[key]))
            } else {
                None
            },
            None => None,
        }
    }

    /// The number of the estimates, and of those to rely on.
    pub fn summary(&self) -> (r: BeliefVolSummary)
        ensures
            r.markets_tracked == self.known().dom().len(),
            r.reliable_estimates == self.known().dom().filter(
                |k: Seq<char>| self.relies_on(self.known()[k]),
            ).len(),
    {
        let n = self.estimates.len();
        let ghost all = self.estimates.order();
        let ghost good = |k: Seq<char>| self.relies_on(self.known()[k]);
        let mut reliable: usize = 0;
        let mut i: usize = 0;
        while i < n
            invariant
                i <= n,
                n == all.len(),
                all == self.estimates.order(),
                good == (|k: Seq<char>| self.relies_on(self.known()[k])),
                reliable <= i,
                reliable == count_where(all.take(i as int), good),
            decreases n - i,
        {
            let e = self.estimates.value_at(i);
            assert(all.take(i as int + 1).drop_last() =~= all.take(i as int));
            if e.sample_count >= self.config.min_samples && Scalar::Rank(HALF_RANK).lt(e.confidence) {
                reliable = reliable + 1;
            }
            i = i + 1;
        }
        proof {
            assert(all.take(i as int) =~= all);
            lemma_count_where_of_set(all, good);
            assert(all.to_set() =~= self.known().dom());
        }
        BeliefVolSummary { markets_tracked: n, reliable_estimates: reliable }
    }

    /// All estimates, in the order in which their markets came.
    pub fn export_estimates(&self) -> (r: Vec<(String, BeliefVolEstimate)>)
        ensures
            r.len() == self.known().dom().len(),
            forall|i: int|
                #![trigger r[i]]
                0 <= i < r.len() ==> self.known().contains_key(r[i].0@) && self.known()[r[i].0@] == r[i].1,
            forall|i: int, j: int|
                #![trigger r[i], r[j]]
                0 <= i < j < r.len() ==> r[i].0@ != r[j].0@,
    {
        let n = self.estimates.len();
        let ghost all = self.estimates.order();
        let mut r: Vec<(String, BeliefVolEstimate)> = Vec::new();
        let mut i: usize = 0;
        while i < n
            invariant
                i <= n,
                n == all.len(),
                all == self.estimates.order(),
                all.no_duplicates(),
                r.len() == i,
                forall|j: int|
                    #![trigger r[j]]
                    0 <= j < i ==> r[j].0@ == all[j] && self.known().contains_key(all[j])
                        && self.known()[all[j]] == r[j].1,
            decreases n - i,
        {
            let key = self.estimates.key_at(i);
            let value = self.estimates.value_at(i);
            r.push((key.clone(), *value));
            i = i + 1;
        }
        r
    }

    /// Takes estimates over; one of a market that is known already replaces it.
    pub fn import_estimates(&mut self, estimates: &Vec<(String, BeliefVolEstimate)>)
        ensures
            final(self).cfg() == old(self).cfg(),
            final(self).limit() == old(self).limit(),
            final(self).history_len() == old(self).history_len(),
            forall|k: Seq<char>| (#[trigger] final(self).increments(k)) == old(self).increments(k),
            final(self).known() == imported(old(self).known(), estimates@),
    {
        let mut i: usize = 0;
        while i < estimates.len()
            invariant
                i <= estimates.len(),
                self.config == old(self).config,
                self.max_history == old(self).max_history,
                self.history == old(self).history,
                self.known() == imported(old(self).known(), estimates@.take(i as int)),
            decreases estimates.len() - i,
        {
            assert(estimates@.take(i as int + 1).drop_last() =~= estimates@.take(i as int));
            let key = to_lower(estimates[i].0.as_str());
            self.estimates.insert(key, estimates[i].1);
            i = i + 1;
        }
        assert(estimates@.take(i as int) =~= estimates@);
    }
}

/// The estimates with others taken over, one after the other.
pub open spec fn imported(
    known: Map<Seq<char>, BeliefVolEstimate>,
    more: Seq<(String, BeliefVolEstimate)>,
) -> Map<Seq<char>, BeliefVolEstimate>
    decreases more.len(),
{
    if more.len() == 0 {
        known
    } else {
        imported(known, more.drop_last()).insert(lowercase(more.last().0@), more.last().1)
    }
}

/// The seconds that all gaps take together.
pub open spec fn total_gap(s: Seq<LogOddsIncrement>) -> int
    decreases s.len(),
{
    if s.len() == 0 {
        0
    } else {
        total_gap(s.drop_last()) + s.last().dt_secs
    }
}

/// What a score says of a move: whether it is a jump, and how great.
pub open spec fn verdict(z_score: Scalar, dx: Scalar, threshold_sigma: Scalar) -> JumpDetectionResult {
    JumpDetectionResult {
        is_jump: threshold_sigma.spec_lt(z_score),
        z_score,
        jump_size: if threshold_sigma.spec_lt(z_score) {
            dx
        } else {
            Scalar::Rank(0)
        },
        threshold_used: threshold_sigma,
    }
}

/// Judges a move by its score: whether it is a jump, and how great.
pub fn jump_verdict(z_score: Scalar, dx: Scalar, threshold_sigma: Scalar) -> (r: JumpDetectionResult)
    ensures
        r == verdict(z_score, dx, threshold_sigma),
{
    let is_jump = threshold_sigma.lt(z_score);
    JumpDetectionResult {
        is_jump,
        z_score,
        jump_size: if is_jump {
            dx
        } else {
            Scalar::Rank(0)
        },
        threshold_used: threshold_sigma,
    }
}

/// A lower threshold finds at least as many jumps.
pub proof fn law_lower_threshold_finds_more(
    moves: Seq<LogOddsIncrement>,
    scored: Seq<ScoredMove>,
    low: Scalar,
    high: Scalar,
)
    requires
        low.spec_le(high),
    ensures
        jump_count(moves, scored, low) >= jump_count(moves, scored, high),
    decreases moves.len(),
{
    if moves.len() > 0 {
        law_lower_threshold_finds_more(moves.drop_last(), scored, low, high);
    }
}

proof fn lemma_more_moves_hold_more_jumps(
    moves: Seq<LogOddsIncrement>,
    n: int,
    few: Seq<ScoredMove>,
    many: Seq<ScoredMove>,
    threshold: Scalar,
)
    requires
        0 <= n <= moves.len(),
        few.len() <= many.len(),
        few == many.take(few.len() as int),
    ensures
        jump_count(moves.take(n), few, threshold) <= jump_count(moves, many, threshold),
    decreases moves.len(),
{
    if moves.len() > 0 {
        if n < moves.len() {
            assert(moves.drop_last().take(n) =~= moves.take(n));
            lemma_more_moves_hold_more_jumps(moves.drop_last(), n, few, many, threshold);
        } else {
            assert(moves.take(n) =~= moves);
            assert(moves.drop_last().take(n - 1) =~= moves.drop_last());
            lemma_more_moves_hold_more_jumps(moves.drop_last(), n - 1, few, many, threshold);
        }
    } else {
        assert(moves.take(n) =~= moves);
    }
}

/// A lower threshold and a longer window never lose a jump, where a move has one score; and
/// a market that was never observed has none.
pub proof fn law_wider_search_finds_more(
    t: BeliefVolTracker,
    key: Seq<char>,
    now: int,
    short: int,
    long: int,
    few: Seq<ScoredMove>,
    many: Seq<ScoredMove>,
    low: Scalar,
    high: Scalar,
)
    requires
        low.spec_le(high),
        short <= long,
        are_scores_of(few, t.moves_in(key, short, now)),
        are_scores_of(many, t.moves_in(key, long, now)),
        forall|i: int, j: int|
            #![trigger few[i], many[j]]
            0 <= i < few.len() && 0 <= j < many.len() && few[i].m == many[j].m ==> few[i] == many[j],
    ensures
        t.jumps_in(key, long, now, many, low) >= t.jumps_in(key, short, now, few, high),
        t.increments(key) is None ==> t.jumps_in(key, long, now, many, low) == 0,
{
    match t.increments(key) {
        Some(s) => {
            law_longer_window_holds_more(s, now - short, now - long);
            let n = few.len() as int;
            let all = t.moves_in(key, long, now);
            assert(few =~= many.take(n)) by {
                assert forall|i: int| 0 <= i < n implies few[i] == many[i] by {
                    assert(few[i].m == many[i].m);
                }
            }
            assert(t.moves_in(key, short, now) == all.take(n));
            lemma_more_moves_hold_more_jumps(all, n, few, many, high);
            law_lower_threshold_finds_more(all, many, low, high);
        },
        None => {},
    }
}

/// A longer window holds at least as many moves, and the shorter one's stand first.
pub proof fn law_longer_window_holds_more(s: Seq<LogOddsIncrement>, near: int, far: int)
    requires
        far <= near,
    ensures
        moves_since(s, near).len() <= moves_since(s, far).len(),
        moves_since(s, near) == moves_since(s, far).take(moves_since(s, near).len() as int),
    decreases s.len(),
{
    if s.len() > 0 && s.last().timestamp >= near {
        law_longer_window_holds_more(s.drop_last(), near, far);
        let a = moves_since(s.drop_last(), near);
        let b = moves_since(s.drop_last(), far);
        if is_move(s.last()) {
            assert(seq![s.last()] + a =~= (seq![s.last()] + b).take(1 + a.len() as int));
        }
    } else {
        assert(moves_since(s, near) =~= moves_since(s, far).take(0));
    }
}

/// However a market is observed, no more increments are kept than the limit says,
/// once there are two.
pub proof fn law_history_is_bounded(t: BeliefVolTracker, key: Seq<char>, x: Scalar, b: Scalar, ts: i64)
    requires
        t.limit() >= 1,
        t.increments(key) matches Some(s) ==> s.len() <= t.limit(),
    ensures
        t.observed(key, x, b, ts).1.len() <= t.limit(),
{
}

/// The first observation of a market has no gap; a later one is appended with its gap where
/// that is from a second to an hour, and passed over elsewhere. No other market is touched.
pub proof fn law_observation_is_appended_after_a_gap(
    t: &mut BeliefVolTracker,
    key: String,
    x_now: Scalar,
    x_before: Scalar,
    at: i64,
    r: Recorded,
    other: Seq<char>,
)
    requires
        call_ensures(BeliefVolTracker::record_under, (t, key, x_now, x_before, at), r),
        other != key@,
        old(t).limit() >= 1,
    ensures
        ({
            let h = old(t).increments(key@)->0;
            let n = final(t).increments(key@)->0;
            let first = old(t).increments(key@) is None || h.len() == 0;
            let gap = at - h.last().timestamp;
            &&& final(t).increments(key@) is Some
            &&& r is First <==> first
            &&& r is Appended <==> !first && 1 <= gap <= 60 * 60
            &&& first ==> n.len() == 1 && n[0].timestamp == at && n[0].x_after == x_now && n[0].dt_secs == 0
            &&& r is Skipped ==> n == h
            &&& r is Appended ==> n.len() > 0 && n.last().timestamp == at && n.last().dt_secs == gap && n.last().x_before
                == x_before && n.last().x_after == x_now
            &&& r is Appended && h.len() < old(t).limit() ==> n.len() == h.len() + 1 && n.drop_last() == h
            &&& r is Appended && h.len() == old(t).limit() ==> n.len() == h.len() && n.drop_last() == h.skip(1)
            &&& final(t).increments(other) == old(t).increments(other)
            &&& final(t).known() == old(t).known() && final(t).cfg() == old(t).cfg()
        }),
{
    let o = final(t).increments(other);
}

/// An estimate is noted for its market alone, with the moves behind the oldest increment as
/// its samples; where there is none nothing is noted.
pub proof fn law_estimate_rests_on_its_moves(
    t: &mut BeliefVolTracker,
    key: &str,
    sigma: Scalar,
    confidence: Scalar,
    now: i64,
    before: BeliefVolTracker,
    n: usize,
    other: Seq<char>,
)
    requires
        call_ensures(BeliefVolTracker::update_estimate, (t, key, sigma, confidence, now), ()),
        before == *old(t),
        call_ensures(BeliefVolTracker::sample_count, (&before, key), n),
        other != key@,
    ensures
        n > 0 ==> final(t).known().contains_key(key@) && final(t).known()[key@].sigma_b == sigma && final(t).known()[key@].confidence == confidence && final(t).known()[key@].last_updated == now && final(t).known()[key@].sample_count == n,
        n == 0 ==> final(t).known() == before.known(),
        final(t).known().contains_key(other) <==> before.known().contains_key(other),
        before.known().contains_key(other) ==> final(t).known()[other] == before.known()[other],
        before.increments(key@) is None ==> n == 0,
        final(t).increments(key@) == before.increments(key@),
{
    let same = final(t).increments(key@);
    if before.increments(key@) is Some {
        lemma_moves_are_few(before.increments(key@)->0.skip(1));
    }
}

proof fn lemma_moves_are_few(s: Seq<LogOddsIncrement>)
    ensures
        move_count(s) == s.filter(|i: LogOddsIncrement| i.dt_secs > 0).len(),
        move_count(s) <= s.len(),
    decreases s.len(),
{
    reveal(Seq::filter);
    if s.len() > 0 {
        lemma_moves_are_few(s.drop_last());
    }
}

/// The samples of an estimate are the increments with a gap, but for the oldest increment.
pub proof fn law_samples_have_a_gap(t: BeliefVolTracker, key: &str, n: usize)
    requires
        call_ensures(BeliefVolTracker::sample_count, (&t, key), n),
        t.increments(key@) is Some,
        t.increments(key@)->0.len() >= 2,
    ensures
        n == t.increments(key@)->0.skip(1).filter(|i: LogOddsIncrement| i.dt_secs > 0).len(),
{
    lemma_moves_are_few(t.increments(key@)->0.skip(1));
}

/// The volatility of a market is its estimate once enough samples stand behind it, and the
/// prior before; an estimate is relied on where it is confident too.
pub proof fn law_prior_stands_in_for_few_samples(
    t: BeliefVolTracker,
    slug: &str,
    sigma: Scalar,
    reliable: bool,
    e: Option<&BeliefVolEstimate>,
)
    requires
        call_ensures(BeliefVolTracker::get_sigma_b, (&t, slug), sigma),
        call_ensures(BeliefVolTracker::has_reliable_estimate, (&t, slug), reliable),
        call_ensures(BeliefVolTracker::get_estimate, (&t, slug), e),
    ensures
        e is None ==> sigma == t.cfg().prior_sigma_b && !reliable,
        e is Some && e->0.sample_count >= t.cfg().min_samples ==> sigma == e->0.sigma_b,
        e is Some && e->0.sample_count < t.cfg().min_samples ==> sigma == t.cfg().prior_sigma_b && !reliable,
        e is Some ==> (reliable <==> e->0.sample_count >= t.cfg().min_samples && Scalar::Rank(HALF_RANK).spec_lt(
            e->0.confidence,
        )),
        e is Some <==> t.known().contains_key(slug@),
{
}

proof fn lemma_moves_since(s: Seq<LogOddsIncrement>, cutoff: int)
    ensures
        forall|k: int|
            0 <= k < moves_since(s, cutoff).len() ==> (#[trigger] moves_since(s, cutoff)[k]).timestamp >= cutoff
                && moves_since(s, cutoff)[k].dt_secs > 0 && s.contains(moves_since(s, cutoff)[k]),
        (forall|i: int, j: int| 0 <= i <= j < s.len() ==> (#[trigger] s[i]).timestamp <= (#[trigger] s[j]).timestamp)
            ==> forall|i: int|
            0 <= i < s.len() && (#[trigger] s[i]).timestamp >= cutoff && s[i].dt_secs > 0 ==> moves_since(s, cutoff).contains(
                s[i],
            ),
    decreases s.len(),
{
    if s.len() > 0 && s.last().timestamp >= cutoff {
        let front = s.drop_last();
        let older = moves_since(front, cutoff);
        let all = moves_since(s, cutoff);
        lemma_moves_since(front, cutoff);
        let shift: int = if is_move(s.last()) {
            1
        } else {
            0
        };
        assert(s[s.len() - 1] == s.last());
        assert forall|k: int| 0 <= k < all.len() implies (#[trigger] all[k]).timestamp >= cutoff && all[k].dt_secs > 0
            && s.contains(all[k]) by {
            if k >= shift {
                assert(all[k] == older[k - shift]);
                let i = choose|i: int| 0 <= i < front.len() && front[i] == older[k - shift];
                assert(s[i] == all[k]);
            }
        }
        if forall|i: int, j: int| 0 <= i <= j < s.len() ==> (#[trigger] s[i]).timestamp <= (#[trigger] s[j]).timestamp {
            assert forall|i: int, j: int| 0 <= i <= j < front.len() implies (#[trigger] front[i]).timestamp <= (
            #[trigger] front[j]).timestamp by {
                assert(front[i] == s[i] && front[j] == s[j]);
            }
            assert forall|i: int|
                0 <= i < s.len() && (#[trigger] s[i]).timestamp >= cutoff && s[i].dt_secs > 0 implies all.contains(
                s[i],
            ) by {
                if i < front.len() {
                    assert(front[i] == s[i]);
                    let k = choose|k: int| 0 <= k < older.len() && older[k] == s[i];
                    assert(all[k + shift] == s[i]);
                } else {
                    assert(all[0] == s[i]);
                }
            }
        }
    } else if s.len() > 0 {
        if forall|i: int, j: int| 0 <= i <= j < s.len() ==> (#[trigger] s[i]).timestamp <= (#[trigger] s[j]).timestamp {
            assert forall|i: int|
                0 <= i < s.len() && (#[trigger] s[i]).timestamp >= cutoff && s[i].dt_secs > 0 implies moves_since(
                s,
                cutoff,
            ).contains(s[i]) by {
                assert(s[i].timestamp <= s[s.len() - 1].timestamp);
            }
        }
    }
}

/// The moves of a window are increments with a gap that lie in it, and of increments in the
/// order of time every such one is among them.
pub proof fn law_window_holds_its_moves(
    t: BeliefVolTracker,
    key: &str,
    window: i64,
    now: i64,
    r: Vec<LogOddsIncrement>,
    k: int,
)
    requires
        call_ensures(BeliefVolTracker::recent_moves_under, (&t, key, window, now), r),
    ensures
        t.increments(key@) is None ==> r.len() == 0,
        0 <= k < r.len() ==> r[k].timestamp >= now - window && r[k].dt_secs > 0 && t.increments(key@)->0.contains(r[k]),
        t.increments(key@) is Some && (forall|i: int, j: int|
            0 <= i <= j < t.increments(key@)->0.len() ==> (#[trigger] t.increments(key@)->0[i]).timestamp <= (
            #[trigger] t.increments(key@)->0[j]).timestamp) ==> forall|i: int|
            0 <= i < t.increments(key@)->0.len() && (#[trigger] t.increments(key@)->0[i]).timestamp >= now - window
                && t.increments(key@)->0[i].dt_secs > 0 ==> r@.contains(t.increments(key@)->0[i]),
{
    if t.increments(key@) is Some {
        lemma_moves_since(t.increments(key@)->0, now - window);
    }
}

/// A realized volatility needs five moves over a minute.
pub proof fn law_volatility_needs_five_moves(
    moves: Vec<LogOddsIncrement>,
    r: bool,
    more: Vec<LogOddsIncrement>,
    s: bool,
)
    requires
        call_ensures(BeliefVolTracker::enough_for_volatility, (&moves,), r),
        call_ensures(BeliefVolTracker::enough_for_volatility, (&more,), s),
        more.len() > 0,
        moves@ == more@.drop_last(),
        more@.last().dt_secs > 0,
    ensures
        moves.len() < 5 ==> !r,
        r ==> s,
        moves.len() >= 4 && more@.last().dt_secs >= 60 && total_gap(moves@) >= 0 ==> s,
{
}

/// A move is a jump where it went further than the threshold; its size is how far it went.
pub proof fn law_far_moves_are_jumps(z: Scalar, dx: Scalar, threshold: Scalar, r: JumpDetectionResult)
    requires
        call_ensures(jump_verdict, (z, dx, threshold), r),
    ensures
        r.is_jump <==> threshold.spec_lt(z),
        r.is_jump ==> r.jump_size == dx,
        !r.is_jump ==> r.jump_size == Scalar::Rank(0),
        r.z_score == z && r.threshold_used == threshold,
{
}

/// A move more is a jump more where it went further than its spread says, and none elsewhere.
pub proof fn law_each_far_move_is_one_jump(
    moves: Vec<LogOddsIncrement>,
    fewer: Vec<LogOddsIncrement>,
    scored: Vec<ScoredMove>,
    threshold: Scalar,
    r: usize,
    s: usize,
)
    requires
        call_ensures(jumps_among, (&moves, &scored, threshold), r),
        call_ensures(jumps_among, (&fewer, &scored, threshold), s),
        moves.len() > 0,
        fewer@ == moves@.drop_last(),
        scored.len() == moves.len(),
        scored@.last().m == moves@.last(),
    ensures
        threshold.spec_lt(scored@.last().z_score) && Scalar::Rank(0).spec_lt(scored@.last().expected_std) ==> r == s + 1,
        !threshold.spec_lt(scored@.last().z_score) || !Scalar::Rank(0).spec_lt(scored@.last().expected_std) ==> r == s,
{
}

/// Estimates that are taken over are known under their names in small letters, the last one
/// of a name; all others stay.
pub proof fn law_imported_estimates_are_known(
    t: &mut BeliefVolTracker,
    v: Vec<(String, BeliefVolEstimate)>,
    k: Seq<char>,
)
    requires
        call_ensures(BeliefVolTracker::import_estimates, (t, &v), ()),
    ensures
        v.len() > 0 ==> final(t).known().contains_key(lowercase(v@.last().0@)) && final(t).known()[lowercase(
            v@.last().0@,
        )] == v@.last().1,
        (forall|i: int| 0 <= i < v.len() ==> lowercase((#[trigger] v[i]).0@) != k) ==> (final(t).known().contains_key(k)
            <==> old(t).known().contains_key(k)) && (old(t).known().contains_key(k) ==> final(t).known()[k] == old(t).known()[k]),
        final(t).cfg() == old(t).cfg() && final(t).limit() == old(t).limit(),
{
    if forall|i: int| 0 <= i < v.len() ==> lowercase((#[trigger] v[i]).0@) != k {
        assert forall|i: int| 0 <= i < v@.len() implies lowercase((#[trigger] v@[i]).0@) != k by {
            assert(v@[i] == v[i]);
        }
        lemma_others_stay(old(t).known(), v@, k);
    }
}

proof fn lemma_others_stay(known: Map<Seq<char>, BeliefVolEstimate>, more: Seq<(String, BeliefVolEstimate)>, k: Seq<char>)
    requires
        forall|i: int| 0 <= i < more.len() ==> lowercase((#[trigger] more[i]).0@) != k,
    ensures
        imported(known, more).contains_key(k) <==> known.contains_key(k),
        known.contains_key(k) ==> imported(known, more)[k] == known[k],
    decreases more.len(),
{
    if more.len() > 0 {
        let front = more.drop_last();
        assert forall|i: int| 0 <= i < front.len() implies lowercase((#[trigger] front[i]).0@) != k by {
            assert(front[i] == more[i]);
        }
        lemma_others_stay(known, front, k);
        assert(more[more.len() - 1] == more.last());
    }
}

/// A new tracker keeps a thousand increments per market and knows none; another number only
/// changes how many are kept.
pub proof fn law_tracker_starts_afresh(
    cfg: BeliefVolConfig,
    t: BeliefVolTracker,
    max: usize,
    u: BeliefVolTracker,
    k: Seq<char>,
    d: BeliefVolConfig,
    e: BeliefVolEstimate,
)
    requires
        call_ensures(BeliefVolTracker::new, (cfg,), t),
        call_ensures(BeliefVolTracker::with_max_history, (t, max), u),
        call_ensures(BeliefVolConfig::default, (), d),
        call_ensures(BeliefVolEstimate::default, (), e),
    ensures
        t.cfg() == cfg && t.limit() == 1000 && t.increments(k) is None && !t.known().contains_key(k),
        u.limit() == max && u.cfg() == cfg && u.increments(k) is None && !u.known().contains_key(k),
        d.min_samples == 30 && d.max_age_secs == 3600 && d.prior_sigma_b == Scalar::Rank(R_2) && d.ema_alpha
            == Scalar::Rank(R_0_1),
        e.sigma_b == Scalar::Rank(R_2) && e.sample_count == 0 && e.confidence == Scalar::Rank(0),
{
    let a = t.increments(k);
    let b = u.increments(k);
}

/// A market is observed and looked at under its name in small letters.
pub proof fn law_markets_are_known_in_small_letters(
    a: &mut BeliefVolTracker,
    b: &mut BeliefVolTracker,
    slug: &str,
    key: String,
    x: Scalar,
    y: Scalar,
    at: i64,
    r: Recorded,
    s: Recorded,
    t: BeliefVolTracker,
    k: &str,
    window: i64,
    now: i64,
    u: Vec<LogOddsIncrement>,
    v: Vec<LogOddsIncrement>,
)
    requires
        *old(a) == *old(b),
        key@ == lowercase(slug@),
        k@ == key@,
        call_ensures(BeliefVolTracker::record_observation, (a, slug, x, y, at), r),
        call_ensures(BeliefVolTracker::record_under, (b, key, x, y, at), s),
        call_ensures(BeliefVolTracker::recent_moves, (&t, slug, window, now), u),
        call_ensures(BeliefVolTracker::recent_moves_under, (&t, k, window, now), v),
    ensures
        r == s,
        final(a).increments(key@) == final(b).increments(key@),
        u@ == v@,
{
}

/// A realized volatility is told of the moves of a window where they are enough; the last move
/// of a market is judged where it has an estimate and some spread was to be expected.
pub proof fn law_volatility_is_told_of_enough_moves(
    t: BeliefVolTracker,
    slug: &str,
    window: i64,
    now: i64,
    worked_out: Scalar,
    r: Option<Scalar>,
    moves: Vec<LogOddsIncrement>,
    enough: bool,
    threshold: Scalar,
    std: Scalar,
    z: Scalar,
    dx: Scalar,
    j: Option<JumpDetectionResult>,
    last: Option<(LogOddsIncrement, BeliefVolEstimate)>,
    inc: Option<LogOddsIncrement>,
)
    requires
        call_ensures(BeliefVolTracker::realized_vol_window, (&t, slug, window, now, worked_out), r),
        call_ensures(BeliefVolTracker::recent_moves, (&t, slug, window, now), moves),
        call_ensures(BeliefVolTracker::enough_for_volatility, (&moves,), enough),
        call_ensures(BeliefVolTracker::detect_recent_jump, (&t, slug, threshold, std, z, dx), j),
        call_ensures(BeliefVolTracker::last_move, (&t, slug), last),
        call_ensures(BeliefVolTracker::last_increment, (&t, slug), inc),
        std is Rank,
    ensures
        r is Some <==> enough,
        r is Some ==> r->0 == worked_out,
        last is Some ==> inc == Some((last->0).0) && (last->0).0.dt_secs > 0,
        j is Some <==> last is Some && Scalar::Rank(0).spec_lt(std),
        j is Some ==> (j->0.is_jump <==> threshold.spec_lt(z)) && j->0.z_score == z && j->0.threshold_used == threshold,
        j is Some && j->0.is_jump ==> j->0.jump_size == dx,
        inc is Some && t.known().contains_key(lowercase(slug@)) && inc->0.dt_secs > 0 ==> last is Some && (last->0).1
            == t.known()[lowercase(slug@)],
{
}

/// Jumps are counted among the moves of a window, and there are none without an estimate.
pub proof fn law_jumps_are_counted_in_the_window(
    t: BeliefVolTracker,
    slug: &str,
    window: i64,
    now: i64,
    scored: Vec<ScoredMove>,
    threshold: Scalar,
    r: usize,
    moves: Vec<LogOddsIncrement>,
    among: usize,
)
    requires
        call_ensures(BeliefVolTracker::count_recent_jumps, (&t, slug, window, now, &scored, threshold), r),
        call_ensures(BeliefVolTracker::recent_moves, (&t, slug, window, now), moves),
        call_ensures(jumps_among, (&moves, &scored, threshold), among),
    ensures
        t.known().contains_key(lowercase(slug@)) ==> r == among,
        !t.known().contains_key(lowercase(slug@)) ==> r == 0,
{
}

/// What is exported are all estimates, each once.
pub proof fn law_all_estimates_are_exported(t: BeliefVolTracker, r: Vec<(String, BeliefVolEstimate)>, s: BeliefVolSummary, i: int, j: int)
    requires
        call_ensures(BeliefVolTracker::export_estimates, (&t,), r),
        call_ensures(BeliefVolTracker::summary, (&t,), s),
        0 <= i < j < r.len(),
    ensures
        r.len() == s.markets_tracked,
        t.known().contains_key(r[i].0@) && t.known()[r[i].0@] == r[i].1,
        r[i].0@ != r[j].0@,
{
}

/// Each rank here is that of the binary64 number nearest to the one it is called after.
pub proof fn law_belief_vol_ranks_are_nearest()
    ensures
        0x4000_0000_0000_0000 <= PRIOR_SIGMA < 0x4010_0000_0000_0000,
        -1 <= 2 * (1 * (PRIOR_SIGMA - 0x3FF0000000000000) - 2 * 0x8000000000000int) <= 1,
        0x3FB0_0000_0000_0000 <= EMA_ALPHA < 0x3FC0_0000_0000_0000,
        -10 <= 2 * (10 * (EMA_ALPHA - 0x3FA0000000000000) - 1 * 0x100000000000000int) <= 10,
{
}

} // verus!
