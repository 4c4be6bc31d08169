//! The comparison of two pricing models on live markets.
use crate::base::ranks::R_0_001;
use crate::base::scalar::{Scalar, HALF_RANK};
use crate::base::table::Table;
use vstd::prelude::*;

verus! {

/// How many draws are equally likely.
pub const DRAWS: u64 = 32_768;

/// The draws below one half.
pub const HALF_OF_DRAWS: u64 = 16_384;

/// The rank of 0.001.
pub const PROBABILITY_STEP: i64 = 0x3F50_624D_D2F1_A9FC;

/// The first state of the generator.
pub const SEED: u64 = 42;

#[derive(Clone, Copy, Debug, PartialEq, Eq, Hash, Structural)]
pub enum ModelVariant {
    Legacy,
    RnjdEnhanced,
}

impl ModelVariant {
    pub open spec fn label(self) -> Seq<char> {
        match self {
            ModelVariant::Legacy => "legacy"@,
            ModelVariant::RnjdEnhanced => "rnjd"@,
        }
    }

    /// The name of the variant in a summary.
    pub fn name(self) -> (r: &'static str)
        ensures
            r@ == self.label(),
    {
        match self {
            ModelVariant::Legacy => "legacy",
            ModelVariant::RnjdEnhanced => "rnjd",
        }
    }
}

/// Whether models are compared, and how often the newer one is used.
#[derive(Clone, Copy, Debug, PartialEq, Eq, Structural)]
pub struct ABTestConfig {
    pub enabled: bool,
    pub rnjd_probability: Scalar,
    /// How many of the equally likely draws lie below that probability.
    pub rnjd_draws: u64,
}

impl Default for ABTestConfig {
    fn default() -> (r: ABTestConfig)
        ensures
            r == (ABTestConfig {
                enabled: false,
                rnjd_probability: Scalar::Rank(HALF_RANK),
                rnjd_draws: HALF_OF_DRAWS,
            }),
    {
        ABTestConfig {
            enabled: false,
            rnjd_probability: Scalar::Rank(HALF_RANK),
            rnjd_draws: HALF_OF_DRAWS,
        }
    }
}

/// The figures of a comparison; averages are the caller's to divide.
#[derive(Debug)]
pub struct ABTestSummary {
    pub enabled: bool,
    pub legacy_trades: usize,
    pub legacy_pnl: Scalar,
    pub rnjd_trades: usize,
    pub rnjd_pnl: Scalar,
    pub market_assignments: Vec<(String, String)>,
}

/// The next state of the generator.
pub open spec fn next_state(s: u64) -> u64 {
    vstd::wrapping::u64_specs::wrapping_add(
        vstd::wrapping::u64_specs::wrapping_mul(s, 1103515245),
        12345,
    )
}

/// The draw that a state of the generator gives.
pub open spec fn draw_of(s: u64) -> u64 {
    (s >> 16) & 0x7FFF
}

/// The comparison.
pub struct ABTestTracker {
    config: ABTestConfig,
    assignments: Table<ModelVariant>,
    legacy_trades: usize,
    legacy_pnl: Scalar,
    rnjd_trades: usize,
    rnjd_pnl: Scalar,
    rng_state: u64,
}

/// The comparison as a value.
pub struct ABTestView {
    pub config: ABTestConfig,
    pub assignments: Map<Seq<char>, ModelVariant>,
    pub legacy_trades: usize,
    pub legacy_pnl: Scalar,
    pub rnjd_trades: usize,
    pub rnjd_pnl: Scalar,
    pub rng_state: u64,
}

impl View for ABTestTracker {
    type V = ABTestView;

    closed spec fn view(&self) -> ABTestView {
        ABTestView {
            config: self.config,
            assignments: self.assignments@,
            legacy_trades: self.legacy_trades,
            legacy_pnl: self.legacy_pnl,
            rnjd_trades: self.rnjd_trades,
            rnjd_pnl: self.rnjd_pnl,
            rng_state: self.rng_state,
        }
    }
}

impl ABTestView {
    /// The variant that a market gets, and the comparison after it was asked for: the
    /// newer model while nothing is compared, the one that the market has, or one by
    /// chance that the market keeps.
    pub open spec fn ask(self, market: Seq<char>) -> (ModelVariant, ABTestView) {
        if !self.config.enabled {
            (ModelVariant::RnjdEnhanced, self)
        } else if self.assignments.contains_key(market) {
            (self.assignments[market], self)
        } else {
            let s = next_state(self.rng_state);
            let v = if draw_of(s) < self.config.rnjd_draws {
                ModelVariant::RnjdEnhanced
            } else {
                ModelVariant::Legacy
            };
            (v, ABTestView { assignments: self.assignments.insert(market, v), rng_state: s, ..self })
        }
    }
}

impl ABTestTracker {
    /// A comparison without assignments.
    pub fn new(config: ABTestConfig) -> (r: ABTestTracker)
        ensures
            r@ == (ABTestView {
                config,
                assignments: Map::empty(),
                legacy_trades: 0,
                legacy_pnl: Scalar::Rank(0),
                rnjd_trades: 0,
                rnjd_pnl: Scalar::Rank(0),
                rng_state: SEED,
            }),
    {
        ABTestTracker {
            config,
            assignments: Table::new(),
            legacy_trades: 0,
            legacy_pnl: Scalar::Rank(0),
            rnjd_trades: 0,
            rnjd_pnl: Scalar::Rank(0),
            rng_state: SEED,
        }
    }

    /// Draws one of the equally likely numbers.
    fn next_random(&mut self) -> (r: u64)
        ensures
            r == draw_of(next_state(old(self).rng_state)),
            *final(self) == (ABTestTracker { rng_state: next_state(old(self).rng_state), ..*old(self) }),
    {
        self.rng_state = self.rng_state.wrapping_mul(1103515245).wrapping_add(12345);
        (self.rng_state >> 16) & 0x7FFF
    }

    /// The variant of a market, which it gets when it is first asked for.
    pub fn get_variant(&mut self, market_slug: &str) -> (r: ModelVariant)
        ensures
            (r, final(self)@) == old(self)@.ask(market_slug@),
    {
        if !self.config.enabled {
            return ModelVariant::RnjdEnhanced;
        }
        match self.assignments.get(market_slug) {
            Some(v) => {
                return *v;
            },
            None => {},
        }
        let draw = self.next_random();
        let variant = if draw < self.config.rnjd_draws {
            ModelVariant::RnjdEnhanced
        } else {
            ModelVariant::Legacy
        };
        self.assignments.insert(market_slug.to_owned(), variant);
        variant
    }

    /// The variant that a market has.
    pub fn peek_variant(&self, market_slug: &str) -> (r: Option<ModelVariant>)
        ensures
            r == if self@.assignments.contains_key(market_slug@) {
                Some(self@.assignments[market_slug@])
            } else {
                None
            },
    {
        match self.assignments.get(market_slug) {
            Some(v) => Some(*v),
            None => None,
        }
    }

    /// Counts a trade of a variant; `pnl_so_far` is what its trades brought together.
    pub fn record_result(&mut self, variant: ModelVariant, pnl_so_far: Scalar)
        requires
            old(self)@.legacy_trades < usize::MAX,
            old(self)@.rnjd_trades < usize::MAX,
        ensures
            final(self)@ == match variant {
                ModelVariant::Legacy => ABTestView {
                    legacy_trades: (old(self)@.legacy_trades + 1) as usize,
                    legacy_pnl: pnl_so_far,
                    ..old(self)@
                },
                ModelVariant::RnjdEnhanced => ABTestView {
                    rnjd_trades: (old(self)@.rnjd_trades + 1) as usize,
                    rnjd_pnl: pnl_so_far,
                    ..old(self)@
                },
            },
    {
        match variant {
            ModelVariant::Legacy => {
                self.legacy_trades = self.legacy_trades + 1;
                self.legacy_pnl = pnl_so_far;
            },
            ModelVariant::RnjdEnhanced => {
                self.rnjd_trades = self.rnjd_trades + 1;
                self.rnjd_pnl = pnl_so_far;
            },
        }
    }

    /// What the trades of a variant brought together.
    pub fn pnl_of(&self, variant: ModelVariant) -> (r: Scalar)
        ensures
            r == match variant {
                ModelVariant::Legacy => self@.legacy_pnl,
                ModelVariant::RnjdEnhanced => self@.rnjd_pnl,
            },
    {
        match variant {
            ModelVariant::Legacy => self.legacy_pnl,
            ModelVariant::RnjdEnhanced => self.rnjd_pnl,
        }
    }

    /// The figures of the comparison.
    pub fn summary(&self) -> (r: ABTestSummary)
        ensures
            r.enabled == self@.config.enabled,
            r.legacy_trades == self@.legacy_trades,
            r.legacy_pnl == self@.legacy_pnl,
            r.rnjd_trades == self@.rnjd_trades,
            r.rnjd_pnl == self@.rnjd_pnl,
            r.market_assignments.len() == self@.assignments.dom().len(),
            forall|i: int|
                #![trigger r.market_assignments[i]]
                0 <= i < r.market_assignments.len() ==> {
                    let (market, name) = r.market_assignments[i];
                    self@.assignments.contains_key(market@) && name@
                        == self@.assignments[market@].label()
                },
            forall|i: int, j: int|
                #![trigger r.market_assignments[i], r.market_assignments[j]]
                0 <= i < j < r.market_assignments.len() ==> r.market_assignments[i].0@
                    != r.market_assignments[j].0@,
    {
        let n = self.assignments.len();
        let ghost all = self.assignments.order();
        let mut list: Vec<(String, String)> = Vec::new();
        let mut i: usize = 0;
        while i < n
            invariant
                i <= n,
                n == all.len(),
                all == self.assignments.order(),
                list.len() == i,
                forall|j: int|
                    #![trigger list[j]]
                    0 <= j < i ==> list[j].0@ == all[j] && self.assignments@.contains_key(all[j])
                        && list[j].1@ == self.assignments@[all[j]].label(),
            decreases n - i,
        {
            let market = self.assignments.key_at(i);
            let variant = self.assignments.value_at(i);
            list.push((market.clone(), variant.name().to_owned()));
            i = i + 1;
        }
        ABTestSummary {
            enabled: self.config.enabled,
            legacy_trades: self.legacy_trades,
            legacy_pnl: self.legacy_pnl,
            rnjd_trades: self.rnjd_trades,
            rnjd_pnl: self.rnjd_pnl,
            market_assignments: list,
        }
    }

    /// Forgets the trades and keeps the assignments.
    pub fn reset_stats(&mut self)
        ensures
            final(self)@ == (ABTestView {
                legacy_trades: 0,
                legacy_pnl: Scalar::Rank(0),
                rnjd_trades: 0,
                rnjd_pnl: Scalar::Rank(0),
                ..old(self)@
            }),
    {
        self.legacy_trades = 0;
        self.legacy_pnl = Scalar::Rank(0);
        self.rnjd_trades = 0;
        self.rnjd_pnl = Scalar::Rank(0);
    }

    /// Forgets the trades and the assignments.
    pub fn clear(&mut self)
        ensures
            final(self)@ == (ABTestView {
                assignments: Map::empty(),
                legacy_trades: 0,
                legacy_pnl: Scalar::Rank(0),
                rnjd_trades: 0,
                rnjd_pnl: Scalar::Rank(0),
                ..old(self)@
            }),
    {
        self.assignments = Table::new();
        self.reset_stats();
    }

    pub fn config(&self) -> (r: &ABTestConfig)
        ensures
            *r == self@.config,
    {
        &self.config
    }

    /// Takes another configuration; a probability that lies `distance` from the one
    /// so far, if that is not next to nothing, ends all assignments.
    pub fn update_config(&mut self, config: ABTestConfig, distance: Scalar)
        ensures
            final(self)@ == (ABTestView {
                config,
                assignments: if Scalar::Rank(PROBABILITY_STEP).spec_lt(distance) {
                    Map::empty()
                } else {
                    old(self)@.assignments
                },
                ..old(self)@
            }),
    {
        if Scalar::Rank(PROBABILITY_STEP).lt(distance) {
            self.assignments = Table::new();
        }
        self.config = config;
    }
}

/// A market that is asked for again gets the variant that it got, and nothing else
/// changes.
pub proof fn law_assignment_is_stable(t: ABTestView, market: Seq<char>)
    ensures
        ({
            let (v, after) = t.ask(market);
            after.ask(market) == (v, after)
        }),
{
}

/// Asking for one market leaves the assignments of all others alone.
pub proof fn law_assignments_are_separate(t: ABTestView, market: Seq<char>, other: Seq<char>)
    requires
        other != market,
    ensures
        ({
            let after = t.ask(market).1;
            &&& after.assignments.contains_key(other) == t.assignments.contains_key(other)
            &&& t.assignments.contains_key(other) ==> after.assignments[other] == t.assignments[other]
        }),
{
}

/// While nothing is compared, every market gets the newer model and none is assigned.
pub proof fn law_disabled_is_newer_model(t: ABTestView, market: Seq<char>)
    requires
        !t.config.enabled,
    ensures
        t.ask(market) == (ModelVariant::RnjdEnhanced, t),
{
}

/// A market that is asked for keeps the variant that it is given; one that has none is given
/// the newer model where the next draw lies below the share of draws, and the older one
/// elsewhere. Draws come from a linear congruential generator.
pub proof fn law_market_is_drawn_once(
    t: &mut ABTestTracker,
    market: &str,
    r: ModelVariant,
    before: ABTestTracker,
    after: ABTestTracker,
    was: Option<ModelVariant>,
    is: Option<ModelVariant>,
)
    requires
        call_ensures(ABTestTracker::get_variant, (t, market), r),
        before == *old(t),
        after == *final(t),
        call_ensures(ABTestTracker::peek_variant, (&before, market), was),
        call_ensures(ABTestTracker::peek_variant, (&after, market), is),
    ensures
        !before@.config.enabled ==> r == ModelVariant::RnjdEnhanced && after@ == before@,
        before@.config.enabled ==> is == Some(r),
        before@.config.enabled && was is Some ==> r == was->0 && after@ == before@,
        before@.config.enabled && was is None ==> {
            let s = (before@.rng_state * 1103515245 + 12345) % 0x1_0000_0000_0000_0000;
            &&& after@.rng_state == s
            &&& r == ModelVariant::RnjdEnhanced <==> (after@.rng_state >> 16) & 0x7FFF < before@.config.rnjd_draws
        },
        after@.config == before@.config && after@.rnjd_trades == before@.rnjd_trades && after@.legacy_trades
            == before@.legacy_trades,
{
    let a = before@.rng_state as int * 1103515245;
    let m: int = 0x1_0000_0000_0000_0000;
    vstd::arithmetic::div_mod::lemma_add_mod_noop(a, 12345, m);
    vstd::arithmetic::div_mod::lemma_small_mod(12345, m as nat);
}

/// A trade counts for its own variant; what its trades brought is found as it was told.
pub proof fn law_trade_counts_for_its_variant(
    t: &mut ABTestTracker,
    v: ModelVariant,
    pnl: Scalar,
    before: ABTestTracker,
    after: ABTestTracker,
    mine: Scalar,
    other: ModelVariant,
    theirs: Scalar,
    theirs_before: Scalar,
)
    requires
        call_ensures(ABTestTracker::record_result, (t, v, pnl), ()),
        before == *old(t),
        after == *final(t),
        other != v,
        call_ensures(ABTestTracker::pnl_of, (&after, v), mine),
        call_ensures(ABTestTracker::pnl_of, (&after, other), theirs),
        call_ensures(ABTestTracker::pnl_of, (&before, other), theirs_before),
        before@.legacy_trades < usize::MAX && before@.rnjd_trades < usize::MAX,
    ensures
        mine == pnl,
        theirs == theirs_before,
        v is Legacy ==> after@.legacy_trades == before@.legacy_trades + 1 && after@.rnjd_trades == before@.rnjd_trades
            && after@.legacy_pnl == pnl,
        v is RnjdEnhanced ==> after@.rnjd_trades == before@.rnjd_trades + 1 && after@.legacy_trades
            == before@.legacy_trades && after@.rnjd_pnl == pnl,
        after@.assignments == before@.assignments && after@.config == before@.config,
{
}

/// A summary tells each variant by its own figures and name; trades are forgotten apart from
/// assignments; another probability ends all assignments.
pub proof fn law_summary_tells_each_variant(
    t: ABTestTracker,
    s: ABTestSummary,
    v: ModelVariant,
    name: &'static str,
    a: &mut ABTestTracker,
    b: &mut ABTestTracker,
    c: &mut ABTestTracker,
    config: ABTestConfig,
    distance: Scalar,
    d: ABTestConfig,
    fresh: ABTestTracker,
)
    requires
        call_ensures(ABTestTracker::summary, (&t,), s),
        call_ensures(ModelVariant::name, (v,), name),
        call_ensures(ABTestTracker::reset_stats, (a,), ()),
        call_ensures(ABTestTracker::clear, (b,), ()),
        call_ensures(ABTestTracker::update_config, (c, config, distance), ()),
        call_ensures(ABTestConfig::default, (), d),
        call_ensures(ABTestTracker::new, (config,), fresh),
    ensures
        s.legacy_trades == t@.legacy_trades && s.legacy_pnl == t@.legacy_pnl && s.rnjd_trades == t@.rnjd_trades
            && s.rnjd_pnl == t@.rnjd_pnl && s.enabled == t@.config.enabled,
        v is Legacy ==> name@ == "legacy"@,
        v is RnjdEnhanced ==> name@ == "rnjd"@,
        final(a)@.legacy_trades == 0 && final(a)@.rnjd_trades == 0 && final(a)@.legacy_pnl == Scalar::Rank(0) && final(a)@.rnjd_pnl == Scalar::Rank(0) && final(a)@.assignments == old(a)@.assignments,
        final(b)@.legacy_trades == 0 && final(b)@.rnjd_trades == 0 && final(b)@.assignments == Map::<
            Seq<char>,
            ModelVariant,
        >::empty() && final(b)@.config == old(b)@.config,
        final(c)@.config == config && final(c)@.rnjd_trades == old(c)@.rnjd_trades,
        Scalar::Rank(R_0_001).spec_lt(distance) ==> final(c)@.assignments == Map::<Seq<char>, ModelVariant>::empty(),
        !Scalar::Rank(R_0_001).spec_lt(distance) ==> final(c)@.assignments == old(c)@.assignments,
        !d.enabled && d.rnjd_probability == Scalar::Rank(HALF_RANK) && d.rnjd_draws == 16_384,
        fresh@.rng_state == 42 && fresh@.config == config && fresh@.rnjd_trades == 0 && fresh@.legacy_trades == 0,
{
}

/// Each rank here is that of the binary64 number nearest to the one it is called after.
pub proof fn law_ab_test_ranks_are_nearest()
    ensures
        0x3F50_0000_0000_0000 <= PROBABILITY_STEP < 0x3F60_0000_0000_0000,
        -1000 <= 2 * (1000 * (PROBABILITY_STEP - 0x3F40000000000000) - 1 * 0x4000000000000000int) <= 1000,
{
}

} // verus!
