//! How a wallet has done, and how a follower of it would have done.
use super::copy_replay::{is_sorted_curve, point_times, sort_curve, EquityPoint};
use super::copy_trading::{
    bucket_of,
    day_bucket,
    is_tradable,
    law_days_keep_the_order,
    picked,
    tradable,
    DayAmount,
    SideKind,
    WalletOrder,
};
use super::days::{are_groups, days_rise, groups_rise, has_day, DayGroup};
use super::enrichment::compute_sharpe;
use super::follower::{drawable, flat_curve};
use crate::base::clock::more_than_apart;
use crate::base::order::{
    is_stable_order,
    law_stable_order_is_a_permutation,
    stable_order,
    stands_before,
};
use crate::base::ranks::{R_0_35, R_1E_MINUS_06, R_1E_MINUS_09, R_2, R_999};
use crate::base::scalar::{Scalar, ONE_RANK};
use crate::base::text::{joined, lowercase, same, to_lower};
use vstd::prelude::*;

verus! {

/// How much trading costs the follower.
#[derive(Clone, Copy, Debug, PartialEq, Eq, Structural)]
pub enum FrictionMode {
    /// 0.35 percent of each trade.
    Optimistic,
    /// One percent of each trade.
    Base,
    /// Two percent of each trade.
    Pessimistic,
}

impl Default for FrictionMode {
    fn default() -> (r: FrictionMode)
        ensures
            r == FrictionMode::Base,
    {
        FrictionMode::Base
    }
}

/// How the follower's curve is found: the wallet's curve scaled, net of costs, or its
/// trades replayed and priced day by day.
#[derive(Clone, Copy, Debug, PartialEq, Eq, Structural)]
pub enum CopyCurveModel {
    Scaled,
    Mtm,
}

impl Default for CopyCurveModel {
    fn default() -> (r: CopyCurveModel)
        ensures
            r == CopyCurveModel::Scaled,
    {
        CopyCurveModel::Scaled
    }
}

impl CopyCurveModel {
    /// The model of a name in small letters.
    pub open spec fn named(lower: Seq<char>) -> CopyCurveModel {
        if lower == "mtm"@ {
            CopyCurveModel::Mtm
        } else {
            CopyCurveModel::Scaled
        }
    }

    /// The model of a name, in any case.
    pub fn from_str(s: &str) -> (r: CopyCurveModel)
        ensures
            r == CopyCurveModel::named(lowercase(s@)),
    {
        let lower = to_lower(s);
        CopyCurveModel::of_lower(lower.as_str())
    }

    /// The model of a name in small letters.
    pub fn of_lower(lower: &str) -> (r: CopyCurveModel)
        ensures
            r == CopyCurveModel::named(lower@),
    {
        if same(lower, "mtm") {
            CopyCurveModel::Mtm
        } else {
            CopyCurveModel::Scaled
        }
    }

    /// Its name in a key.
    pub open spec fn tag(self) -> Seq<char> {
        match self {
            CopyCurveModel::Scaled => "scaled"@,
            CopyCurveModel::Mtm => "mtm"@,
        }
    }
}

impl FrictionMode {
    /// The cost of a trade in percent.
    pub open spec fn percent(self) -> Scalar {
        match self {
            FrictionMode::Optimistic => Scalar::Rank(R_0_35),
            FrictionMode::Base => Scalar::Rank(ONE_RANK),
            FrictionMode::Pessimistic => Scalar::Rank(R_2),
        }
    }

    pub fn total_friction_pct(&self) -> (r: Scalar)
        ensures
            r == self.percent(),
    {
        match self {
            FrictionMode::Optimistic => Scalar::Rank(R_0_35),
            FrictionMode::Base => Scalar::Rank(ONE_RANK),
            FrictionMode::Pessimistic => Scalar::Rank(R_2),
        }
    }

    /// The mode of a name in small letters.
    pub open spec fn named(lower: Seq<char>) -> FrictionMode {
        if lower == "optimistic"@ {
            FrictionMode::Optimistic
        } else if lower == "pessimistic"@ {
            FrictionMode::Pessimistic
        } else {
            FrictionMode::Base
        }
    }

    /// The mode of a name, in any case.
    pub fn from_str(s: &str) -> (r: FrictionMode)
        ensures
            r == FrictionMode::named(lowercase(s@)),
    {
        let lower = to_lower(s);
        FrictionMode::of_lower(lower.as_str())
    }

    /// The mode of a name in small letters.
    pub fn of_lower(lower: &str) -> (r: FrictionMode)
        ensures
            r == FrictionMode::named(lower@),
    {
        if same(lower, "optimistic") {
            FrictionMode::Optimistic
        } else if same(lower, "pessimistic") {
            FrictionMode::Pessimistic
        } else {
            FrictionMode::Base
        }
    }

    /// Its name in a key.
    pub open spec fn tag(self) -> Seq<char> {
        match self {
            FrictionMode::Optimistic => "opt"@,
            FrictionMode::Base => "base"@,
            FrictionMode::Pessimistic => "pess"@,
        }
    }

    /// Its name.
    pub open spec fn spelled(self) -> Seq<char> {
        match self {
            FrictionMode::Optimistic => "optimistic"@,
            FrictionMode::Base => "base"@,
            FrictionMode::Pessimistic => "pessimistic"@,
        }
    }

    /// Its name.
    pub fn name(self) -> (r: String)
        ensures
            r@ == self.spelled(),
    {
        match self {
            FrictionMode::Optimistic => "optimistic".to_owned(),
            FrictionMode::Base => "base".to_owned(),
            FrictionMode::Pessimistic => "pessimistic".to_owned(),
        }
    }
}

/// What is asked of the analytics.
#[derive(Clone, Copy, Debug, PartialEq, Eq, Structural)]
pub struct WalletAnalyticsParams {
    pub lookback_days: u32,
    pub warmup_days: u32,
    pub fixed_buy_notional_usd: Scalar,
    pub max_orders: usize,
    pub friction_mode: FrictionMode,
    pub copy_model: CopyCurveModel,
}

impl Default for WalletAnalyticsParams {
    fn default() -> (r: WalletAnalyticsParams)
        ensures
            r.lookback_days == 90,
            r.warmup_days == 30,
            r.fixed_buy_notional_usd == Scalar::Rank(ONE_RANK),
            r.max_orders == 2000,
            r.friction_mode == FrictionMode::Base,
            r.copy_model == CopyCurveModel::Scaled,
    {
        WalletAnalyticsParams {
            lookback_days: 90,
            warmup_days: 30,
            fixed_buy_notional_usd: Scalar::Rank(ONE_RANK),
            max_orders: 2000,
            friction_mode: FrictionMode::Base,
            copy_model: CopyCurveModel::Scaled,
        }
    }
}

/// How many seconds analytics are served from memory.
pub const WALLET_ANALYTICS_CACHE_TTL_SECONDS: i64 = 900;

/// How a wallet and its follower have done.
#[derive(Debug)]
pub struct WalletAnalytics {
    pub wallet_address: String,
    pub updated_at: i64,
    pub lookback_days: u32,
    pub fixed_buy_notional_usd: Scalar,
    pub wallet_realized_curve: Vec<EquityPoint>,
    pub copy_trade_curve: Vec<EquityPoint>,
    pub wallet_total_pnl: Option<Scalar>,
    pub wallet_roe_pct: Option<Scalar>,
    pub wallet_roe_denom_usd: Option<Scalar>,
    pub wallet_win_rate: Option<Scalar>,
    pub wallet_profit_factor: Option<Scalar>,
    pub copy_total_pnl: Option<Scalar>,
    pub copy_roe_pct: Option<Scalar>,
    pub copy_roe_denom_usd: Option<Scalar>,
    pub copy_win_rate: Option<Scalar>,
    pub copy_profit_factor: Option<Scalar>,
    pub copy_sharpe_7d: Option<Scalar>,
    pub copy_sharpe_14d: Option<Scalar>,
    pub copy_sharpe_30d: Option<Scalar>,
    pub copy_sharpe_90d: Option<Scalar>,
    pub copy_friction_mode: Option<String>,
    pub copy_friction_pct_per_trade: Option<Scalar>,
    pub copy_total_friction_usd: Option<Scalar>,
    pub copy_trade_count: Option<u64>,
}

/// The key of a wallet in small letters, a mode and a model.
pub open spec fn key_of(lower: Seq<char>, mode: FrictionMode, model: CopyCurveModel) -> Seq<char> {
    "wallet_analytics_v5:"@ + lower + ":"@ + mode.tag() + ":"@ + model.tag()
}

/// The key under which the analytics of a wallet are remembered.
pub fn wallet_analytics_cache_key(
    wallet: &str,
    friction_mode: FrictionMode,
    copy_model: CopyCurveModel,
) -> (r: String)
    ensures
        r@ == key_of(lowercase(wallet@), friction_mode, copy_model),
{
    let lower = to_lower(wallet);
    cache_key_under(lower.as_str(), friction_mode, copy_model)
}

/// The key of a wallet that is known in small letters.
pub fn cache_key_under(lower: &str, friction_mode: FrictionMode, copy_model: CopyCurveModel) -> (r: String)
    ensures
        r@ == key_of(lower@, friction_mode, copy_model),
{
    let mode = match friction_mode {
        FrictionMode::Optimistic => "opt",
        FrictionMode::Base => "base",
        FrictionMode::Pessimistic => "pess",
    };
    let model = match copy_model {
        CopyCurveModel::Scaled => "scaled",
        CopyCurveModel::Mtm => "mtm",
    };
    let a = joined("wallet_analytics_v5:", lower);
    let b = joined(a.as_str(), ":");
    let c = joined(b.as_str(), mode);
    let d = joined(c.as_str(), ":");
    joined(d.as_str(), model)
}

/// What memory leads to.
#[derive(Debug)]
pub enum CacheStep {
    /// Served as it is.
    Serve(WalletAnalytics),
    /// Computed anew; what is remembered is served where that fails.
    Compute(Option<WalletAnalytics>),
}

/// Looks at what is remembered, and when it came.
pub fn on_cache(cached: Option<(Option<WalletAnalytics>, i64)>, force: bool, now: i64) -> (r: CacheStep)
    ensures
        r == match cached {
            Some((Some(v), at)) => if !force && now - at <= WALLET_ANALYTICS_CACHE_TTL_SECONDS {
                CacheStep::Serve(v)
            } else {
                CacheStep::Compute(Some(v))
            },
            _ => CacheStep::Compute(None),
        },
{
    match cached {
        Some((Some(v), at)) => {
            if !force && !more_than_apart(now, at, WALLET_ANALYTICS_CACHE_TTL_SECONDS) {
                CacheStep::Serve(v)
            } else {
                CacheStep::Compute(Some(v))
            }
        },
        _ => CacheStep::Compute(None),
    }
}

/// What is answered, and whether it is remembered.
#[derive(Debug)]
pub struct ServedAnalytics<E> {
    pub answer: Result<WalletAnalytics, E>,
    pub remember: bool,
}

/// Takes new analytics in: a failure is answered with what was remembered, and nothing is
/// remembered that holds no curve.
pub fn on_computed<E>(computed: Result<WalletAnalytics, E>, stale: Option<WalletAnalytics>) -> (r: ServedAnalytics<
    E,
>)
    ensures
        r.answer == match (computed, stale) {
            (Ok(v), _) => Ok(v),
            (Err(_), Some(s)) => Ok(s),
            (Err(e), None) => Err(e),
        },
        r.remember == (computed matches Ok(v) && (v.copy_trade_curve.len() > 0
            || v.wallet_realized_curve.len() > 0)),
{
    match computed {
        Ok(v) => {
            let remember = v.copy_trade_curve.len() > 0 || v.wallet_realized_curve.len() > 0;
            ServedAnalytics { answer: Ok(v), remember }
        },
        Err(e) => match stale {
            Some(s) => ServedAnalytics { answer: Ok(s), remember: false },
            None => ServedAnalytics { answer: Err(e), remember: false },
        },
    }
}

/// The stretch that counts, and the one before it in which holdings build up.
#[derive(Clone, Copy, Debug, PartialEq, Eq, Structural)]
pub struct AnalyticsSpan {
    pub start_time: i64,
    pub fetch_start_time: i64,
}

pub fn analytics_span(now: i64, params: &WalletAnalyticsParams) -> (r: AnalyticsSpan)
    requires
        now - (params.lookback_days + params.warmup_days) * 86_400 >= i64::MIN,
    ensures
        r.start_time == now - params.lookback_days * 86_400,
        r.fetch_start_time == now - (params.lookback_days + params.warmup_days) * 86_400,
{
    let lookback: i64 = params.lookback_days as i64 * 24 * 3600;
    let warmup: i64 = params.warmup_days as i64 * 24 * 3600;
    AnalyticsSpan { start_time: now - lookback, fetch_start_time: now - lookback - warmup }
}

/// Whether a purchase counts for the size of the wallet's orders.
pub open spec fn sized_buy(o: WalletOrder, kind: SideKind, start_time: i64) -> bool {
    o.timestamp >= start_time && kind == SideKind::Buy && tradable(o.price) && tradable(
        o.shares_normalized,
    )
}

/// The places of the purchases that count.
pub open spec fn buys_in(orders: Seq<WalletOrder>, kinds: Seq<SideKind>, start_time: i64) -> Seq<usize>
    decreases orders.len(),
{
    if orders.len() == 0 {
        Seq::empty()
    } else {
        let i = orders.len() - 1;
        let before = buys_in(orders.drop_last(), kinds, start_time);
        if sized_buy(orders[i], kinds[i], start_time) {
            before.push(i as usize)
        } else {
            before
        }
    }
}

/// Finds the purchases that count.
pub fn counted_buys(orders: &Vec<WalletOrder>, kinds: &Vec<SideKind>, start_time: i64) -> (r: Vec<usize>)
    requires
        kinds.len() == orders.len(),
    ensures
        r@ == buys_in(orders@, kinds@, start_time),
        forall|i: int| #![trigger r[i]] 0 <= i < r.len() ==> r[i] < orders.len(),
{
    let mut r: Vec<usize> = Vec::new();
    let mut i: usize = 0;
    while i < orders.len()
        invariant
            i <= orders.len(),
            kinds.len() == orders.len(),
            r@ == buys_in(orders@.take(i as int), kinds@, start_time),
            forall|j: int| #![trigger r[j]] 0 <= j < r.len() ==> r[j] < orders.len(),
        decreases orders.len() - i,
    {
        let ghost next = orders@.take(i as int + 1);
        assert(next.drop_last() =~= orders@.take(i as int));
        assert(next[i as int] == orders[i as int]);
        let o = &orders[i];
        if o.timestamp >= start_time && kinds[i] == SideKind::Buy && is_tradable(o.price) && is_tradable(
            o.shares_normalized,
        ) {
            r.push(i);
        }
        i = i + 1;
    }
    assert(orders@.take(i as int) =~= orders@);
    r
}

/// What the wallet put in, where it put in something.
pub fn compute_wallet_roe_denom_usd(sum: Scalar) -> (r: Option<Scalar>)
    ensures
        r == if Scalar::Rank(0).spec_lt(sum) {
            Some(sum)
        } else {
            None
        },
{
    if Scalar::Rank(0).lt(sum) {
        Some(sum)
    } else {
        None
    }
}

/// How many purchases there are from an instant on.
pub open spec fn buy_total(orders: Seq<WalletOrder>, kinds: Seq<SideKind>, start_time: i64) -> nat
    decreases orders.len(),
{
    if orders.len() == 0 {
        0
    } else {
        let i = orders.len() - 1;
        buy_total(orders.drop_last(), kinds, start_time) + if orders[i].timestamp >= start_time
            && kinds[i] == SideKind::Buy {
            1nat
        } else {
            0nat
        }
    }
}

/// How often a follower puts in a fixed amount that buys whenever the wallet does.
pub fn compute_copy_roe_denom_usd(
    orders: &Vec<WalletOrder>,
    kinds: &Vec<SideKind>,
    start_time: i64,
    fixed_buy_notional_usd: Scalar,
) -> (r: Option<u64>)
    requires
        kinds.len() == orders.len(),
    ensures
        r == if tradable(fixed_buy_notional_usd) && buy_total(orders@, kinds@, start_time) > 0 {
            Some(buy_total(orders@, kinds@, start_time) as u64)
        } else {
            None
        },
        r matches Some(n) ==> n == buy_total(orders@, kinds@, start_time),
{
    if !is_tradable(fixed_buy_notional_usd) {
        return None;
    }
    let mut buys: u64 = 0;
    let mut i: usize = 0;
    while i < orders.len()
        invariant
            i <= orders.len(),
            kinds.len() == orders.len(),
            buys <= i,
            buys == buy_total(orders@.take(i as int), kinds@, start_time),
        decreases orders.len() - i,
    {
        let ghost next = orders@.take(i as int + 1);
        assert(next.drop_last() =~= orders@.take(i as int));
        assert(next[i as int] == orders[i as int]);
        if orders[i].timestamp >= start_time && kinds[i] == SideKind::Buy {
            buys = buys + 1;
        }
        i = i + 1;
    }
    assert(orders@.take(i as int) =~= orders@);
    if buys == 0 {
        None
    } else {
        Some(buys)
    }
}

/// The average size of an order, a millionth at least.
pub fn least_average(average: Scalar) -> (r: Scalar)
    ensures
        r == average.spec_max(Scalar::Rank(R_1E_MINUS_06)),
{
    average.max(Scalar::Rank(R_1E_MINUS_06))
}

/// By how much the wallet's orders are scaled: `ratio` is the fixed amount by the average
/// size of the purchases that count.
pub fn compute_copy_scale_factor(fixed_buy_notional_usd: Scalar, buys: usize, ratio: Scalar) -> (r: Scalar)
    ensures
        r == if !tradable(fixed_buy_notional_usd) || buys == 0 {
            Scalar::Rank(ONE_RANK)
        } else {
            ratio
        },
{
    if !is_tradable(fixed_buy_notional_usd) || buys == 0 {
        Scalar::Rank(ONE_RANK)
    } else {
        ratio
    }
}

/// Whether an order counts for a sample of sizes, whatever its side and time.
pub fn counts_for_sample(o: &WalletOrder) -> (r: bool)
    ensures
        r == (tradable(o.price) && tradable(o.shares_normalized)),
{
    is_tradable(o.price) && is_tradable(o.shares_normalized)
}

/// Days that cost something: what was traded and what that costs are both tradable sums.
pub open spec fn costs_of(daily: Seq<DayAmount>, pct: Scalar, costs: Seq<Scalar>) -> Seq<DayAmount>
    decreases daily.len(),
{
    if daily.len() == 0 || !tradable(pct) {
        Seq::empty()
    } else {
        let i = daily.len() - 1;
        let before = costs_of(daily.drop_last(), pct, costs);
        if tradable(daily[i].amount) && tradable(costs[i]) {
            before.push(DayAmount { day: daily[i].day, amount: costs[i] })
        } else {
            before
        }
    }
}

/// What each day's trades cost.
pub fn trade_notional_to_friction_costs(
    daily: &Vec<DayAmount>,
    friction_pct: Scalar,
    costs: &Vec<Scalar>,
) -> (r: Vec<DayAmount>)
    requires
        costs.len() == daily.len(),
    ensures
        r@ == costs_of(daily@, friction_pct, costs@),
        days_rise(daily@) ==> days_rise(r@),
{
    proof {
        if days_rise(daily@) {
            law_costs_rise(daily@, friction_pct, costs@);
        }
    }
    let mut r: Vec<DayAmount> = Vec::new();
    if !is_tradable(friction_pct) {
        return r;
    }
    let mut i: usize = 0;
    while i < daily.len()
        invariant
            i <= daily.len(),
            costs.len() == daily.len(),
            tradable(friction_pct),
            r@ == costs_of(daily@.take(i as int), friction_pct, costs@),
        decreases daily.len() - i,
    {
        let ghost next = daily@.take(i as int + 1);
        assert(next.drop_last() =~= daily@.take(i as int));
        assert(next[i as int] == daily[i as int]);
        if is_tradable(daily[i].amount) && is_tradable(costs[i]) {
            r.push(DayAmount { day: daily[i].day, amount: costs[i] });
        }
        i = i + 1;
    }
    assert(daily@.take(i as int) =~= daily@);
    r
}

/// A point, and how many of the costs it bears.
#[derive(Clone, Copy, Debug, PartialEq, Eq, Structural)]
pub struct ChargedPoint {
    pub point: EquityPoint,
    pub charged: usize,
}

/// How many costs, from a place on, are of a day or earlier before one that is later.
pub open spec fn reach(costs: Seq<DayAmount>, from: nat, day: int) -> nat
    decreases costs.len() - from,
{
    if from < costs.len() && costs[from as int].day <= day {
        reach(costs, from + 1, day)
    } else {
        from
    }
}

/// How many costs each point bears: those up to its day, and those that points before it
/// bear.
pub open spec fn charges(points: Seq<EquityPoint>, costs: Seq<DayAmount>) -> nat
    decreases points.len(),
{
    if points.len() == 0 {
        0
    } else {
        reach(costs, charges(points.drop_last(), costs), bucket_of(points.last().timestamp as int))
    }
}

/// The points by their instants, each with the costs it bears.
pub fn apply_daily_costs_to_curve(curve: &Vec<EquityPoint>, daily_costs: &Vec<DayAmount>) -> (r: Vec<
    ChargedPoint,
>)
    ensures
        exists|points: Seq<EquityPoint>| #[trigger]
            is_sorted_curve(curve@, points) && r.len() == points.len() && forall|i: int|
                #![trigger r[i]]
                0 <= i < points.len() ==> r[i].point == points[i] && r[i].charged == charges(
                    points.take(i + 1),
                    daily_costs@,
                ),
        days_rise(daily_costs@) ==> forall|i: int, k: int|
            #![trigger r[i], daily_costs[k]]
            0 <= i < r.len() && 0 <= k < daily_costs.len() ==> (k < r[i].charged <==> daily_costs[k].day
                <= bucket_of(r[i].point.timestamp as int)),
{
    let points = sort_curve(curve);
    let mut r: Vec<ChargedPoint> = Vec::new();
    let mut charged: usize = 0;
    let mut i: usize = 0;
    while i < points.len()
        invariant
            i <= points.len(),
            charged <= daily_costs.len(),
            charged == charges(points@.take(i as int), daily_costs@),
            r.len() == i,
            forall|j: int|
                #![trigger r[j]]
                0 <= j < i ==> r[j].point == points[j] && r[j].charged == charges(
                    points@.take(j + 1),
                    daily_costs@,
                ),
        decreases points.len() - i,
    {
        assert(points@.take(i as int + 1).drop_last() =~= points@.take(i as int));
        let day: i64 = day_bucket(points[i].timestamp);
        let ghost start = charged;
        while charged < daily_costs.len() && daily_costs[charged].day <= day
            invariant
                start <= charged <= daily_costs.len(),
                reach(daily_costs@, start as nat, day as int) == reach(
                    daily_costs@,
                    charged as nat,
                    day as int,
                ),
            decreases daily_costs.len() - charged,
        {
            charged = charged + 1;
        }
        r.push(ChargedPoint { point: points[i], charged });
        i = i + 1;
    }
    proof {
        if days_rise(daily_costs@) {
            law_points_bear_their_costs(curve@, points@, daily_costs@);
        }
    }
    r
}

/// A curve in the order of its instants, counted from its first value.
pub fn normalize_curve_to_zero(curve: Vec<EquityPoint>, shifted: &Vec<Scalar>) -> (r: Vec<EquityPoint>)
    requires
        shifted.len() == curve.len(),
    ensures
        r.len() == curve.len(),
        if curve.len() < 2 {
            r@ == curve@
        } else {
            exists|points: Seq<EquityPoint>| #[trigger]
                is_sorted_curve(curve@, points) && points.len() == r.len() && forall|i: int|
                    #![trigger r[i]]
                    0 <= i < points.len() ==> r[i] == if points[0].value.spec_is_finite()
                        && points[i].value.spec_is_finite() {
                        EquityPoint { timestamp: points[i].timestamp, value: shifted[i] }
                    } else {
                        points[i]
                    }
        },
{
    if curve.len() < 2 {
        return curve;
    }
    let points = sort_curve(&curve);
    let base = points[0].value;
    if !base.is_finite() {
        return points;
    }
    let mut r: Vec<EquityPoint> = Vec::new();
    let mut i: usize = 0;
    while i < points.len()
        invariant
            i <= points.len(),
            shifted.len() == points.len(),
            points.len() >= 2,
            base == points[0].value,
            base.spec_is_finite(),
            r.len() == i,
            forall|j: int|
                #![trigger r[j]]
                0 <= j < i ==> r[j] == if points[0].value.spec_is_finite()
                    && points[j].value.spec_is_finite() {
                    EquityPoint { timestamp: points[j].timestamp, value: shifted[j] }
                } else {
                    points[j]
                },
        decreases points.len() - i,
    {
        if points[i].value.is_finite() {
            r.push(EquityPoint { timestamp: points[i].timestamp, value: shifted[i] });
        } else {
            r.push(points[i]);
        }
        i = i + 1;
    }
    r
}

/// What a curve gained: `difference` is its last value less its first.
pub open spec fn total_of(points: nat, difference: Scalar) -> Option<Scalar> {
    if points < 2 {
        None
    } else {
        Some(difference)
    }
}

pub fn curve_total_pnl(curve: &Vec<EquityPoint>, difference: Scalar) -> (r: Option<Scalar>)
    ensures
        r == total_of(curve.len() as nat, difference),
{
    if curve.len() < 2 {
        None
    } else {
        Some(difference)
    }
}

/// The return on what was put in: `percent` is the quotient of both, in percent.
pub open spec fn roe_of(pnl: Option<Scalar>, denom: Option<Scalar>, percent: Scalar) -> Option<Scalar> {
    match (pnl, denom) {
        (Some(p), Some(d)) => if p.spec_is_finite() && tradable(d) {
            Some(percent)
        } else {
            None
        },
        _ => None,
    }
}

pub fn compute_roe_pct(total_pnl: Option<Scalar>, denom_usd: Option<Scalar>, percent: Scalar) -> (r: Option<
    Scalar,
>)
    ensures
        r == roe_of(total_pnl, denom_usd, percent),
{
    match (total_pnl, denom_usd) {
        (Some(p), Some(d)) => if p.is_finite() && is_tradable(d) {
            Some(percent)
        } else {
            None
        },
        _ => None,
    }
}

/// What a step of a curve counts as.
#[derive(Clone, Copy, Debug, PartialEq, Eq, Structural)]
pub enum StepKind {
    /// It is too small, or one of its ends is not finite.
    Flat,
    Win,
    Loss,
}

/// What the step to a point counts as, when the difference is known.
pub open spec fn step_of(before: Scalar, after: Scalar, d: Scalar) -> StepKind {
    if !after.spec_is_finite() || !before.spec_is_finite() || d.spec_abs().spec_lt(
        Scalar::Rank(R_1E_MINUS_09),
    ) {
        StepKind::Flat
    } else if Scalar::Rank(0).spec_lt(d) {
        StepKind::Win
    } else {
        StepKind::Loss
    }
}

/// What the steps of a curve count as, when the differences are known.
pub open spec fn steps_of(curve: Seq<EquityPoint>, deltas: Seq<Scalar>) -> Seq<StepKind> {
    Seq::new(
        (if curve.len() == 0 {
            0
        } else {
            curve.len() - 1
        }) as nat,
        |i: int| step_of(curve[i].value, curve[i + 1].value, deltas[i]),
    )
}

/// What the steps of a curve count as; `deltas` are the differences of each value and the
/// one before.
pub fn curve_steps(curve: &Vec<EquityPoint>, deltas: &Vec<Scalar>) -> (r: Vec<StepKind>)
    requires
        curve.len() == 0 || deltas.len() == curve.len() - 1,
    ensures
        r@ == steps_of(curve@, deltas@),
{
    let mut r: Vec<StepKind> = Vec::new();
    if curve.len() == 0 {
        assert(r@ =~= steps_of(curve@, deltas@));
        return r;
    }
    let mut i: usize = 1;
    while i < curve.len()
        invariant
            1 <= i <= curve.len(),
            deltas.len() == curve.len() - 1,
            r.len() == i - 1,
            forall|j: int|
                #![trigger r[j]]
                0 <= j < r.len() ==> r[j] == step_of(curve[j].value, curve[j + 1].value, deltas[j]),
        decreases curve.len() - i,
    {
        let before = curve[i - 1].value;
        let after = curve[i].value;
        let d = deltas[i - 1];
        let kind = if !after.is_finite() || !before.is_finite() || d.abs().lt(
            Scalar::Rank(R_1E_MINUS_09),
        ) {
            StepKind::Flat
        } else if Scalar::Rank(0).lt(d) {
            StepKind::Win
        } else {
            StepKind::Loss
        };
        r.push(kind);
        i = i + 1;
    }
    assert(r@ =~= steps_of(curve@, deltas@));
    r
}

/// How many steps are of a kind.
pub open spec fn step_count(steps: Seq<StepKind>, kind: StepKind) -> nat
    decreases steps.len(),
{
    if steps.len() == 0 {
        0
    } else {
        step_count(steps.drop_last(), kind) + if steps.last() == kind {
            1nat
        } else {
            0nat
        }
    }
}

/// How many steps won, and how many lost.
pub fn count_steps(steps: &Vec<StepKind>) -> (r: (u64, u64))
    ensures
        r.0 == step_count(steps@, StepKind::Win),
        r.1 == step_count(steps@, StepKind::Loss),
        r.0 + r.1 <= steps.len(),
{
    let mut wins: u64 = 0;
    let mut losses: u64 = 0;
    let mut i: usize = 0;
    while i < steps.len()
        invariant
            i <= steps.len(),
            wins + losses <= i,
            wins == step_count(steps@.take(i as int), StepKind::Win),
            losses == step_count(steps@.take(i as int), StepKind::Loss),
        decreases steps.len() - i,
    {
        assert(steps@.take(i as int + 1).drop_last() =~= steps@.take(i as int));
        match steps[i] {
            StepKind::Win => {
                wins = wins + 1;
            },
            StepKind::Loss => {
                losses = losses + 1;
            },
            StepKind::Flat => {},
        }
        i = i + 1;
    }
    assert(steps@.take(i as int) =~= steps@);
    (wins, losses)
}

/// The figures of the steps of a curve: the part of wins among wins and losses, what was
/// won and lost, and the quotient of both.
#[derive(Clone, Copy, Debug, PartialEq, Eq, Structural)]
pub struct StepNumbers {
    pub win_part: Scalar,
    pub gross_profit: Scalar,
    pub gross_loss: Scalar,
    pub quotient: Scalar,
}

/// The part of wins, where there is a win or a loss.
pub open spec fn win_rate_of(wins: nat, losses: nat, n: StepNumbers) -> Option<Scalar> {
    if wins + losses > 0 {
        Some(n.win_part)
    } else {
        None
    }
}

/// What was won by what was lost; 999 where nothing was lost.
pub open spec fn profit_factor_of(n: StepNumbers) -> Option<Scalar> {
    if Scalar::Rank(0).spec_lt(n.gross_profit) && n.gross_loss.spec_le(Scalar::Rank(0)) {
        Some(Scalar::Rank(R_999))
    } else if Scalar::Rank(0).spec_lt(n.gross_profit) && Scalar::Rank(0).spec_lt(n.gross_loss) {
        Some(n.quotient)
    } else {
        None
    }
}

/// The part of wins and the profit factor of a curve.
pub open spec fn score_of(steps: Seq<StepKind>, n: StepNumbers) -> (Option<Scalar>, Option<Scalar>) {
    if steps.len() == 0 {
        (None, None)
    } else {
        (
            win_rate_of(
                step_count(steps, StepKind::Win),
                step_count(steps, StepKind::Loss),
                n,
            ),
            profit_factor_of(n),
        )
    }
}

pub fn compute_curve_win_rate_profit_factor(steps: &Vec<StepKind>, n: &StepNumbers) -> (r: (
    Option<Scalar>,
    Option<Scalar>,
))
    ensures
        r == score_of(steps@, *n),
{
    if steps.len() == 0 {
        return (None, None);
    }
    let (wins, losses) = count_steps(steps);
    let win_rate = if wins > 0 || losses > 0 {
        Some(n.win_part)
    } else {
        None
    };
    let zero = Scalar::Rank(0);
    let profit_factor = if zero.lt(n.gross_profit) && n.gross_loss.le(zero) {
        Some(Scalar::Rank(R_999))
    } else if zero.lt(n.gross_profit) && zero.lt(n.gross_loss) {
        Some(n.quotient)
    } else {
        None
    };
    (win_rate, profit_factor)
}

/// A copied curve with what it cost and how often it traded.
#[derive(Debug)]
pub struct CopyMtmResult {
    pub curve: Vec<EquityPoint>,
    pub total_friction_usd: Scalar,
    pub trade_count: u64,
    pub buy_count: u64,
}

/// Whether the replay is needed: where it is asked for, or where the scaled curve cannot be
/// drawn.
pub fn mtm_needed(model: CopyCurveModel, scaled_points: usize) -> (r: bool)
    ensures
        r == (model == CopyCurveModel::Mtm || scaled_points < 2),
{
    model == CopyCurveModel::Mtm || scaled_points < 2
}

/// The copied curve of a model: the scaled one where it has two points; else the replayed
/// one. Where the replayed one is asked for, that where it has two points.
pub open spec fn chosen_of(model: CopyCurveModel, scaled: CopyMtmResult, mtm: Option<CopyMtmResult>) -> CopyMtmResult {
    match model {
        CopyCurveModel::Scaled => if scaled.curve.len() >= 2 {
            scaled
        } else {
            match mtm {
                Some(r) => r,
                None => scaled,
            }
        },
        CopyCurveModel::Mtm => match mtm {
            Some(r) => if r.curve.len() >= 2 {
                r
            } else {
                scaled
            },
            None => scaled,
        },
    }
}

/// Chooses the copied curve, and makes it one that can be drawn.
pub fn choose_copy_curve(
    model: CopyCurveModel,
    scaled: CopyMtmResult,
    mtm: Option<CopyMtmResult>,
    start_time: i64,
    now: i64,
) -> (r: CopyMtmResult)
    ensures
        ({
            let c = chosen_of(model, scaled, mtm);
            &&& r.curve@ == if c.curve.len() == 0 {
                flat_curve(start_time, now, Scalar::Rank(0))
            } else {
                c.curve@
            }
            &&& r.total_friction_usd == c.total_friction_usd
            &&& r.trade_count == c.trade_count
            &&& r.buy_count == c.buy_count
        }),
        r.curve.len() > 0,
{
    let chosen = match model {
        CopyCurveModel::Scaled => if scaled.curve.len() >= 2 {
            scaled
        } else {
            match mtm {
                Some(r) => r,
                None => scaled,
            }
        },
        CopyCurveModel::Mtm => match mtm {
            Some(r) => if r.curve.len() >= 2 {
                r
            } else {
                scaled
            },
            None => scaled,
        },
    };
    CopyMtmResult {
        curve: drawable(chosen.curve, start_time, now, Scalar::Rank(0)),
        total_friction_usd: chosen.total_friction_usd,
        trade_count: chosen.trade_count,
        buy_count: chosen.buy_count,
    }
}

/// What a follower put in: `product` is the fixed amount as often as it bought.
pub open spec fn put_in(buys: u64, fixed: Scalar, product: Scalar) -> Option<Scalar> {
    if buys > 0 && Scalar::Rank(0).spec_lt(fixed) {
        Some(product)
    } else {
        None
    }
}

/// The spread of the days of a stretch, and the ratio of their mean and their spread over a
/// year.
#[derive(Clone, Copy, Debug, PartialEq, Eq, Structural)]
pub struct SharpeNumbers {
    pub std: Scalar,
    pub ratio: Scalar,
}

/// The figures of the curves: what each gained, what was put in, the returns, the
/// differences of each value and the one before, the figures of these, and those of the
/// days of each stretch.
#[derive(Debug)]
pub struct AnalyticsNumbers {
    pub wallet_difference: Scalar,
    pub copy_difference: Scalar,
    pub wallet_sum: Scalar,
    pub wallet_percent: Scalar,
    pub copy_product: Scalar,
    pub copy_percent: Scalar,
    pub wallet_deltas: Vec<Scalar>,
    pub wallet_step_numbers: StepNumbers,
    pub copy_deltas: Vec<Scalar>,
    pub copy_step_numbers: StepNumbers,
    pub sharpe_7d: SharpeNumbers,
    pub sharpe_14d: SharpeNumbers,
    pub sharpe_30d: SharpeNumbers,
    pub sharpe_90d: SharpeNumbers,
}

/// How a wallet and its follower have done, from their curves and the figures of those.
pub fn compute_wallet_analytics(
    wallet: &str,
    now: i64,
    params: &WalletAnalyticsParams,
    wallet_curve: Vec<EquityPoint>,
    copy: CopyMtmResult,
    n: &AnalyticsNumbers,
) -> (r: WalletAnalytics)
    requires
        now - 90 * 86_400 >= i64::MIN,
        wallet_curve.len() == 0 || n.wallet_deltas.len() == wallet_curve.len() - 1,
        copy.curve.len() == 0 || n.copy_deltas.len() == copy.curve.len() - 1,
    ensures
        r.wallet_address@ == wallet@,
        r.updated_at == now,
        r.lookback_days == params.lookback_days,
        r.fixed_buy_notional_usd == params.fixed_buy_notional_usd,
        r.wallet_realized_curve == wallet_curve,
        r.copy_trade_curve == copy.curve,
        r.wallet_total_pnl == total_of(wallet_curve.len() as nat, n.wallet_difference),
        r.wallet_roe_denom_usd == if Scalar::Rank(0).spec_lt(n.wallet_sum) {
            Some(n.wallet_sum)
        } else {
            None
        },
        r.wallet_roe_pct == roe_of(r.wallet_total_pnl, r.wallet_roe_denom_usd, n.wallet_percent),
        (r.wallet_win_rate, r.wallet_profit_factor) == score_of(
            steps_of(wallet_curve@, n.wallet_deltas@),
            n.wallet_step_numbers,
        ),
        r.copy_total_pnl == total_of(copy.curve.len() as nat, n.copy_difference),
        r.copy_roe_denom_usd == put_in(
            copy.buy_count,
            params.fixed_buy_notional_usd,
            n.copy_product,
        ),
        r.copy_roe_pct == roe_of(r.copy_total_pnl, r.copy_roe_denom_usd, n.copy_percent),
        (r.copy_win_rate, r.copy_profit_factor) == score_of(
            steps_of(copy.curve@, n.copy_deltas@),
            n.copy_step_numbers,
        ),
        r.copy_sharpe_7d == sharpe_over(copy.curve.len() as nat, now as int, 7, n.sharpe_7d),
        r.copy_sharpe_14d == sharpe_over(copy.curve.len() as nat, now as int, 14, n.sharpe_14d),
        r.copy_sharpe_30d == sharpe_over(copy.curve.len() as nat, now as int, 30, n.sharpe_30d),
        r.copy_sharpe_90d == sharpe_over(copy.curve.len() as nat, now as int, 90, n.sharpe_90d),
        r.copy_friction_mode matches Some(m) && m@ == params.friction_mode.spelled(),
        r.copy_friction_pct_per_trade == Some(params.friction_mode.percent()),
        r.copy_total_friction_usd == Some(copy.total_friction_usd),
        r.copy_trade_count == Some(copy.trade_count),
{
    let wallet_total_pnl = curve_total_pnl(&wallet_curve, n.wallet_difference);
    let copy_total_pnl = curve_total_pnl(&copy.curve, n.copy_difference);
    let wallet_roe_denom_usd = compute_wallet_roe_denom_usd(n.wallet_sum);
    let wallet_roe_pct = compute_roe_pct(wallet_total_pnl, wallet_roe_denom_usd, n.wallet_percent);
    let wallet_steps = curve_steps(&wallet_curve, &n.wallet_deltas);
    let copy_steps = curve_steps(&copy.curve, &n.copy_deltas);
    let points = copy.curve.len();
    let sharpe_7d = windowed_sharpe(points, now, 7, &n.sharpe_7d);
    let sharpe_14d = windowed_sharpe(points, now, 14, &n.sharpe_14d);
    let sharpe_30d = windowed_sharpe(points, now, 30, &n.sharpe_30d);
    let sharpe_90d = windowed_sharpe(points, now, 90, &n.sharpe_90d);
    let (wallet_win_rate, wallet_profit_factor) = compute_curve_win_rate_profit_factor(
        &wallet_steps,
        &n.wallet_step_numbers,
    );
    let copy_roe_denom_usd = if copy.buy_count > 0 && Scalar::Rank(0).lt(
        params.fixed_buy_notional_usd,
    ) {
        Some(n.copy_product)
    } else {
        None
    };
    let copy_roe_pct = compute_roe_pct(copy_total_pnl, copy_roe_denom_usd, n.copy_percent);
    let (copy_win_rate, copy_profit_factor) = compute_curve_win_rate_profit_factor(
        &copy_steps,
        &n.copy_step_numbers,
    );
    WalletAnalytics {
        wallet_address: wallet.to_owned(),
        updated_at: now,
        lookback_days: params.lookback_days,
        fixed_buy_notional_usd: params.fixed_buy_notional_usd,
        wallet_realized_curve: wallet_curve,
        copy_trade_curve: copy.curve,
        wallet_total_pnl,
        wallet_roe_pct,
        wallet_roe_denom_usd,
        wallet_win_rate,
        wallet_profit_factor,
        copy_total_pnl,
        copy_roe_pct,
        copy_roe_denom_usd,
        copy_win_rate,
        copy_profit_factor,
        copy_sharpe_7d: sharpe_7d,
        copy_sharpe_14d: sharpe_14d,
        copy_sharpe_30d: sharpe_30d,
        copy_sharpe_90d: sharpe_90d,
        copy_friction_mode: Some(params.friction_mode.name()),
        copy_friction_pct_per_trade: Some(params.friction_mode.total_friction_pct()),
        copy_total_friction_usd: Some(copy.total_friction_usd),
        copy_trade_count: Some(copy.trade_count),
    }
}

/// The days of a ratio of mean and spread: the day so many days ago, and today.
#[derive(Clone, Copy, Debug, PartialEq, Eq, Structural)]
pub struct SharpeSpan {
    pub start_day: i64,
    pub end_day: i64,
}

/// The days over which a curve of three points at least is judged.
pub fn sharpe_span(points: usize, now: i64, window_days: u32) -> (r: Option<SharpeSpan>)
    requires
        now - window_days * 86_400 >= i64::MIN,
    ensures
        r == if points < 3 {
            None
        } else {
            Some(
                SharpeSpan {
                    start_day: bucket_of(now - window_days * 86_400) as i64,
                    end_day: bucket_of(now as int) as i64,
                },
            )
        },
        r matches Some(s) ==> s.start_day <= s.end_day && s.start_day % 86_400 == 0,
{
    if points < 3 {
        return None;
    }
    let start_day: i64 = day_bucket(now - window_days as i64 * 86_400);
    let end_day: i64 = day_bucket(now);
    Some(SharpeSpan { start_day, end_day })
}

/// The finite differences of the steps that end within the days, by the day they end on.
pub open spec fn delta_terms(
    curve: Seq<EquityPoint>,
    deltas: Seq<Scalar>,
    span: SharpeSpan,
) -> Seq<DayAmount>
    decreases deltas.len(),
{
    if deltas.len() == 0 {
        Seq::empty()
    } else {
        let i = deltas.len() - 1;
        let day = bucket_of(curve[i + 1].timestamp as int);
        let before = delta_terms(curve, deltas.drop_last(), span);
        if span.start_day <= day <= span.end_day && deltas[i].spec_is_finite() {
            before.push(DayAmount { day: day as i64, amount: deltas[i] })
        } else {
            before
        }
    }
}

pub fn daily_deltas(curve: &Vec<EquityPoint>, deltas: &Vec<Scalar>, span: &SharpeSpan) -> (r: Vec<DayAmount>)
    requires
        deltas.len() + 1 == curve.len(),
    ensures
        r@ == delta_terms(curve@, deltas@, *span),
{
    let mut r: Vec<DayAmount> = Vec::new();
    let mut i: usize = 0;
    while i < deltas.len()
        invariant
            i <= deltas.len(),
            deltas.len() + 1 == curve.len(),
            r@ == delta_terms(curve@, deltas@.take(i as int), *span),
        decreases deltas.len() - i,
    {
        assert(deltas@.take(i as int + 1).drop_last() =~= deltas@.take(i as int));
        let day: i64 = day_bucket(curve[i + 1].timestamp);
        if span.start_day <= day && day <= span.end_day && deltas[i].is_finite() {
            r.push(DayAmount { day, amount: deltas[i] });
        }
        i = i + 1;
    }
    assert(deltas@.take(i as int) =~= deltas@);
    r
}

/// Whether a number is the sum of a day: that of its group, zero where it has none.
pub open spec fn is_sum_on(days: Seq<DayGroup>, sums: Seq<Scalar>, day: int, x: Scalar) -> bool {
    &&& forall|g: int| #![trigger days[g]] 0 <= g < days.len() && days[g].day == day ==> x == sums[g]
    &&& (forall|g: int| #![trigger days[g]] 0 <= g < days.len() ==> days[g].day != day) ==> x == Scalar::Rank(0)
}

fn find_sum(days: &Vec<DayGroup>, sums: &Vec<Scalar>, day: i64) -> (r: Scalar)
    requires
        sums.len() == days.len(),
        groups_rise(days@),
    ensures
        is_sum_on(days@, sums@, day as int, r),
{
    let mut i: usize = 0;
    while i < days.len()
        invariant
            i <= days.len(),
            sums.len() == days.len(),
            groups_rise(days@),
            forall|g: int| #![trigger days[g]] 0 <= g < i ==> days[g].day != day,
        decreases days.len() - i,
    {
        if days[i].day == day {
            assert forall|g: int| #![trigger days[g]] 0 <= g < days.len() && days[g].day == day implies g == i by {
                assert(days[i as int].day == day);
            }
            return sums[i];
        }
        i = i + 1;
    }
    Scalar::Rank(0)
}

/// One value for each day of a stretch; `sums` are what the amounts of each day come to.
pub fn fill_days(days: &Vec<DayGroup>, sums: &Vec<Scalar>, span: &SharpeSpan) -> (r: Vec<Scalar>)
    requires
        sums.len() == days.len(),
        groups_rise(days@),
        span.start_day <= span.end_day,
    ensures
        r.len() == (span.end_day - span.start_day) / 86_400 + 1,
        forall|i: int|
            #![trigger r[i]]
            0 <= i < r.len() ==> is_sum_on(days@, sums@, span.start_day + i * 86_400, r[i]),
{
    let mut r: Vec<Scalar> = Vec::new();
    let mut day: i64 = span.start_day;
    let mut over = false;
    while !over
        invariant
            sums.len() == days.len(),
            groups_rise(days@),
            span.start_day <= span.end_day,
            day <= span.end_day,
            !over ==> day == span.start_day + r.len() * 86_400,
            over ==> day + 86_400 > span.end_day && r.len() > 0 && day == span.start_day + (r.len() - 1)
                * 86_400,
            forall|i: int|
                #![trigger r[i]]
                0 <= i < r.len() ==> is_sum_on(days@, sums@, span.start_day + i * 86_400, r[i]),
        decreases (if over { 0int } else { 1 + span.end_day - day }),
    {
        r.push(find_sum(days, sums, day));
        if (span.end_day as i128) - (day as i128) < 86_400 {
            over = true;
        } else {
            day = day + 86_400;
        }
    }
    r
}

/// No step within the days of a curve is lost: where each step is in the group of its day,
/// the day of the group is one of the days of the stretch, whose value is the sum of the
/// group.
pub proof fn law_every_step_is_counted(
    curve: Seq<EquityPoint>,
    deltas: Seq<Scalar>,
    span: SharpeSpan,
    days: Seq<DayGroup>,
    sums: Seq<Scalar>,
    values: Seq<Scalar>,
    k: int,
)
    requires
        deltas.len() + 1 == curve.len(),
        span.start_day % 86_400 == 0,
        span.start_day <= span.end_day,
        are_groups(delta_terms(curve, deltas, span), days),
        values.len() == (span.end_day - span.start_day) / 86_400 + 1,
        forall|i: int|
            #![trigger values[i]]
            0 <= i < values.len() ==> is_sum_on(days, sums, span.start_day + i * 86_400, values[i]),
        0 <= k < deltas.len(),
        deltas[k].spec_is_finite(),
        span.start_day <= bucket_of(curve[k + 1].timestamp as int) <= span.end_day,
    ensures
        exists|g: int, i: int|
            #![trigger days[g], values[i]]
            0 <= g < days.len() && 0 <= i < values.len() && days[g].day == bucket_of(
                curve[k + 1].timestamp as int,
            ) && days[g].day == span.start_day + i * 86_400 && values[i] == sums[g],
{
    let terms = delta_terms(curve, deltas, span);
    let day = bucket_of(curve[k + 1].timestamp as int);
    lemma_term_of_a_step(curve, deltas, span, k);
    let t = choose|t: int| 0 <= t < terms.len() && (#[trigger] terms[t]).day == day;
    assert(has_day(days, terms[t].day));
    let g = choose|g: int| 0 <= g < days.len() && (#[trigger] days[g]).day == day;
    let i = (day - span.start_day) / 86_400;
    assert(day == span.start_day + i * 86_400);
    assert(0 <= i < values.len());
    assert(is_sum_on(days, sums, span.start_day + i * 86_400, values[i]));
    assert(days[g].day == day && values[i] == sums[g]);
}

/// A finite step that ends within the days is among the terms.
proof fn lemma_term_of_a_step(curve: Seq<EquityPoint>, deltas: Seq<Scalar>, span: SharpeSpan, k: int)
    requires
        deltas.len() + 1 <= curve.len(),
        0 <= k < deltas.len(),
        deltas[k].spec_is_finite(),
        span.start_day <= bucket_of(curve[k + 1].timestamp as int) <= span.end_day,
    ensures
        exists|t: int|
            0 <= t < delta_terms(curve, deltas, span).len() && (#[trigger] delta_terms(curve, deltas, span)[t]).day
                == bucket_of(curve[k + 1].timestamp as int),
    decreases deltas.len(),
{
    let n = deltas.len() - 1;
    let all = delta_terms(curve, deltas, span);
    let before = delta_terms(curve, deltas.drop_last(), span);
    if k == n {
        assert(all[before.len() as int].day == bucket_of(curve[k + 1].timestamp as int));
    } else {
        lemma_term_of_a_step(curve, deltas.drop_last(), span, k);
        let t = choose|t: int|
            0 <= t < before.len() && (#[trigger] before[t]).day == bucket_of(curve[k + 1].timestamp as int);
        assert(all[t] == before[t]);
    }
}

/// The ratio of mean and spread of a curve over a year, from three days at least and a
/// spread that is finite and not zero.
pub fn compute_curve_sharpe(days: u64, std: Scalar, ratio: Scalar) -> (r: Option<Scalar>)
    ensures
        r == if days < 3 || !std.spec_is_finite() || std == Scalar::Rank(0) {
            None
        } else {
            Some(ratio)
        },
{
    if days < 3 {
        None
    } else {
        compute_sharpe(std, ratio)
    }
}

/// The ratio of mean and spread of a curve with so many points over the last days: it has
/// three points at least, the stretch has three days at least, and the spread of the days
/// is finite and not zero.
pub open spec fn sharpe_over(points: nat, now: int, window_days: int, n: SharpeNumbers) -> Option<Scalar> {
    let days = (bucket_of(now) - bucket_of(now - window_days * 86_400)) / 86_400 + 1;
    if points < 3 || days < 3 || !n.std.spec_is_finite() || n.std == Scalar::Rank(0) {
        None
    } else {
        Some(n.ratio)
    }
}

/// The ratio of mean and spread of a curve over the last days.
pub fn windowed_sharpe(points: usize, now: i64, window_days: u32, n: &SharpeNumbers) -> (r: Option<Scalar>)
    requires
        now - window_days * 86_400 >= i64::MIN,
    ensures
        r == sharpe_over(points as nat, now as int, window_days as int, *n),
{
    match sharpe_span(points, now, window_days) {
        Some(span) => {
            let days: u64 = ((span.end_day as i128 - span.start_day as i128) / 86_400 + 1) as u64;
            compute_curve_sharpe(days, n.std, n.ratio)
        },
        None => None,
    }
}

/// The finite ones.
pub open spec fn finite_ranks(values: Seq<Scalar>) -> Seq<i64>
    decreases values.len(),
{
    if values.len() == 0 {
        Seq::empty()
    } else {
        match values.last() {
            Scalar::Rank(a) => if values.last().spec_is_finite() {
                finite_ranks(values.drop_last()).push(a)
            } else {
                finite_ranks(values.drop_last())
            },
            Scalar::Undefined => finite_ranks(values.drop_last()),
        }
    }
}

fn take_finite(values: &Vec<Scalar>) -> (r: Vec<i64>)
    ensures
        r@ == finite_ranks(values@),
{
    let mut r: Vec<i64> = Vec::new();
    let mut i: usize = 0;
    while i < values.len()
        invariant
            i <= values.len(),
            r@ == finite_ranks(values@.take(i as int)),
        decreases values.len() - i,
    {
        assert(values@.take(i as int + 1).drop_last() =~= values@.take(i as int));
        match values[i] {
            Scalar::Rank(a) => {
                if values[i].is_finite() {
                    r.push(a);
                }
            },
            Scalar::Undefined => {},
        }
        i = i + 1;
    }
    assert(values@.take(i as int) =~= values@);
    r
}

/// How many values are finite.
pub fn finite_count(values: &Vec<Scalar>) -> (r: usize)
    ensures
        r == finite_ranks(values@).len(),
{
    take_finite(values).len()
}

/// A finite value held between two others.
pub open spec fn held(v: Scalar, lo: i64, hi: i64) -> Scalar {
    match v {
        Scalar::Rank(a) => if !v.spec_is_finite() {
            v
        } else if a < lo {
            Scalar::Rank(lo)
        } else if a > hi {
            Scalar::Rank(hi)
        } else {
            v
        },
        Scalar::Undefined => v,
    }
}

/// The place in an order of so many, the last one where it is beyond them.
pub open spec fn within(i: usize, n: nat) -> int {
    if i < n {
        i as int
    } else {
        n - 1
    }
}

/// Values without outliers: with ten finite ones at least, each finite one is held between
/// those at two places of their order, where these differ.
pub open spec fn is_winsorized(values: Seq<Scalar>, lo_idx: usize, hi_idx: usize, r: Seq<Scalar>) -> bool {
    let ranks = finite_ranks(values);
    if ranks.len() < 10 {
        r == values
    } else {
        exists|perm: Seq<usize>| #[trigger]
            is_stable_order(ranks, perm) && r == winsorized(
                values,
                ranks[perm[within(lo_idx, ranks.len())] as int],
                ranks[perm[within(hi_idx, ranks.len())] as int],
            )
    }
}

/// Values held between two others, where these differ.
pub open spec fn winsorized(values: Seq<Scalar>, lo: i64, hi: i64) -> Seq<Scalar> {
    if lo >= hi {
        values
    } else {
        values.map_values(|v: Scalar| held(v, lo, hi))
    }
}

/// Holds outliers to the values at two places of the order of the finite ones.
pub fn winsorize_in_place(values: &mut Vec<Scalar>, lo_idx: usize, hi_idx: usize)
    ensures
        is_winsorized(old(values)@, lo_idx, hi_idx, final(values)@),
{
    let ranks = take_finite(values);
    let n: usize = ranks.len();
    if n < 10 {
        return;
    }
    let perm = stable_order(&ranks);
    let lo_at: usize = if lo_idx < n {
        lo_idx
    } else {
        n - 1
    };
    let hi_at: usize = if hi_idx < n {
        hi_idx
    } else {
        n - 1
    };
    assert(perm[lo_at as int] < ranks.len() && perm[hi_at as int] < ranks.len());
    let lo: i64 = ranks[perm[lo_at]];
    let hi: i64 = ranks[perm[hi_at]];
    let ghost before = values@;
    if lo >= hi {
        return;
    }
    let mut r: Vec<Scalar> = Vec::new();
    let mut i: usize = 0;
    while i < values.len()
        invariant
            i <= values.len(),
            values@ == before,
            r@ == before.map_values(|v: Scalar| held(v, lo, hi)).take(i as int),
        decreases values.len() - i,
    {
        let v = values[i];
        let h = match v {
            Scalar::Rank(a) => if !v.is_finite() {
                v
            } else if a < lo {
                Scalar::Rank(lo)
            } else if a > hi {
                Scalar::Rank(hi)
            } else {
                v
            },
            Scalar::Undefined => v,
        };
        r.push(h);
        assert(r@ =~= before.map_values(|v: Scalar| held(v, lo, hi)).take(i as int + 1));
        i = i + 1;
    }
    assert(r@ =~= winsorized(before, lo, hi));
    *values = r;
}

/// Where the costs are in the order of their days, a point bears exactly those up to its
/// day.
pub proof fn law_costs_reach_their_day(costs: Seq<DayAmount>, from: nat, day: int)
    requires
        from <= costs.len(),
        forall|i: int, j: int|
            #![trigger costs[i], costs[j]]
            0 <= i <= j < costs.len() ==> costs[i].day <= costs[j].day,
        forall|i: int| #![trigger costs[i]] 0 <= i < from ==> costs[i].day <= day,
    ensures
        forall|i: int|
            #![trigger costs[i]]
            0 <= i < costs.len() ==> (i < reach(costs, from, day) <==> costs[i].day <= day),
        from <= reach(costs, from, day) <= costs.len(),
    decreases costs.len() - from,
{
    if from < costs.len() && costs[from as int].day <= day {
        law_costs_reach_their_day(costs, from + 1, day);
    }
}

/// Costs of days that rise are of days that rise.
pub proof fn law_costs_rise(daily: Seq<DayAmount>, pct: Scalar, costs: Seq<Scalar>)
    requires
        days_rise(daily),
    ensures
        days_rise(costs_of(daily, pct, costs)),
        forall|i: int|
            #![trigger costs_of(daily, pct, costs)[i]]
            0 <= i < costs_of(daily, pct, costs).len() ==> daily.len() > 0 && costs_of(daily, pct, costs)[i].day
                <= daily.last().day,
    decreases daily.len(),
{
    if daily.len() > 0 && tradable(pct) {
        let n = daily.len() - 1;
        let rest = daily.drop_last();
        let before = costs_of(rest, pct, costs);
        let all = costs_of(daily, pct, costs);
        assert forall|i: int, j: int| #![trigger rest[i], rest[j]] 0 <= i < j < rest.len() implies rest[i].day
            < rest[j].day by {
            assert(daily[i].day < daily[j].day);
        }
        law_costs_rise(rest, pct, costs);
        assert forall|i: int| #![trigger before[i]] 0 <= i < before.len() implies before[i].day < daily[n].day by {
            assert(rest.last() == daily[n - 1]);
            assert(daily[n - 1].day < daily[n].day);
        }
        assert forall|i: int| #![trigger all[i]] 0 <= i < all.len() implies all[i].day <= daily[n].day by {
            if i < before.len() {
                assert(all[i] == before[i]);
            }
        }
        assert forall|i: int, j: int| #![trigger all[i], all[j]] 0 <= i < j < all.len() implies all[i].day
            < all[j].day by {
            assert(all[i] == before[i]);
            if j < before.len() {
                assert(all[j] == before[j]);
            }
        }
    }
}

/// Where the costs are of days that rise, each point of a curve bears exactly the costs up
/// to its day.
pub proof fn law_points_bear_their_costs(
    curve: Seq<EquityPoint>,
    points: Seq<EquityPoint>,
    costs: Seq<DayAmount>,
)
    requires
        is_sorted_curve(curve, points),
        days_rise(costs),
    ensures
        forall|i: int, k: int|
            #![trigger points[i], costs[k]]
            0 <= i < points.len() && 0 <= k < costs.len() ==> (k < charges(points.take(i + 1), costs)
                <==> costs[k].day <= bucket_of(points[i].timestamp as int)),
{
    let times = point_times(curve);
    let perm = choose|perm: Seq<usize>| #[trigger] is_stable_order(times, perm) && points == picked(curve, perm);
    assert forall|a: int, b: int| #![trigger points[a], points[b]] 0 <= a <= b < points.len() implies points[a].timestamp
        <= points[b].timestamp by {
        assert(points[a].timestamp == times[perm[a] as int]);
        assert(points[b].timestamp == times[perm[b] as int]);
    }
    assert forall|i: int, k: int|
        #![trigger points[i], costs[k]]
        0 <= i < points.len() && 0 <= k < costs.len() implies (k < charges(points.take(i + 1), costs)
        <==> costs[k].day <= bucket_of(points[i].timestamp as int)) by {
        lemma_charged(points, costs, i + 1);
    }
}

/// The costs that the first points bear are those up to the day of the last of them.
proof fn lemma_charged(points: Seq<EquityPoint>, costs: Seq<DayAmount>, n: int)
    requires
        0 <= n <= points.len(),
        days_rise(costs),
        forall|a: int, b: int|
            #![trigger points[a], points[b]]
            0 <= a <= b < points.len() ==> points[a].timestamp <= points[b].timestamp,
    ensures
        charges(points.take(n), costs) <= costs.len(),
        n > 0 ==> forall|k: int|
            #![trigger costs[k]]
            0 <= k < costs.len() ==> (k < charges(points.take(n), costs) <==> costs[k].day <= bucket_of(
                points[n - 1].timestamp as int,
            )),
        n == 0 ==> charges(points.take(n), costs) == 0,
    decreases n,
{
    if n > 0 {
        lemma_charged(points, costs, n - 1);
        assert(points.take(n).drop_last() =~= points.take(n - 1));
        assert(points.take(n).last() == points[n - 1]);
        let day = bucket_of(points[n - 1].timestamp as int);
        if n > 1 {
            assert(points[n - 2].timestamp <= points[n - 1].timestamp);
            law_days_keep_the_order(points[n - 2].timestamp as int, points[n - 1].timestamp as int);
        }
        law_costs_reach_their_day(costs, charges(points.take(n - 1), costs), day);
    }
}

/// Two requests have one key if and only if they are for one wallet, whose letters may
/// differ in size, in one mode and one model.
pub proof fn law_keys_tell_requests_apart(
    w: Seq<char>,
    v: Seq<char>,
    a: FrictionMode,
    b: FrictionMode,
    x: CopyCurveModel,
    y: CopyCurveModel,
)
    ensures
        key_of(lowercase(w), a, x) == key_of(lowercase(v), b, y) <==> lowercase(w) == lowercase(v) && a == b
            && x == y,
{
    let k = key_of(lowercase(w), a, x);
    let l = key_of(lowercase(v), b, y);
    if k == l {
        reveal_strlit("opt");
        reveal_strlit("base");
        reveal_strlit("pess");
        reveal_strlit("scaled");
        reveal_strlit("mtm");
        reveal_strlit(":");
        reveal_strlit("wallet_analytics_v5:");
        let n = k.len() as int;
        assert(k[n - 1] == x.tag()[x.tag().len() - 1]);
        assert(l[n - 1] == y.tag()[y.tag().len() - 1]);
        assert("scaled"@[5] == 'd' && "mtm"@[2] == 'm');
        assert(x == y);
        let m = n - x.tag().len() - 1;
        assert(k[m - 1] == a.tag()[a.tag().len() - 1]);
        assert(l[m - 1] == b.tag()[b.tag().len() - 1]);
        assert("opt"@[2] == 't' && "base"@[3] == 'e' && "pess"@[3] == 's');
        assert(a == b);
        let h = "wallet_analytics_v5:"@.len() as int;
        assert(lowercase(w) =~= k.subrange(h, m - a.tag().len() - 1));
        assert(lowercase(v) =~= l.subrange(h, m - a.tag().len() - 1));
    }
}

/// Without outliers every finite value lies between the two that hold it.
pub proof fn law_outliers_are_held(values: Seq<Scalar>, lo: i64, hi: i64, i: int)
    requires
        lo < hi,
        0 <= i < values.len(),
        values[i].spec_is_finite(),
    ensures
        Scalar::Rank(lo).spec_le(winsorized(values, lo, hi)[i]),
        winsorized(values, lo, hi)[i].spec_le(Scalar::Rank(hi)),
{
}

/// A trade costs the more the less hopeful the mode is, and a mode and a model are known by
/// their names; any other name stands for the base mode and the scaled model.
pub proof fn law_modes_are_known_by_name(
    lower: &str,
    mode: FrictionMode,
    model: CopyCurveModel,
    cost: Scalar,
    name: String,
)
    requires
        call_ensures(FrictionMode::of_lower, (lower,), mode),
        call_ensures(CopyCurveModel::of_lower, (lower,), model),
        call_ensures(FrictionMode::total_friction_pct, (&mode,), cost),
        call_ensures(FrictionMode::name, (mode,), name),
    ensures
        lower@ == "optimistic"@ ==> cost == Scalar::Rank(R_0_35) && name@ == lower@,
        lower@ == "base"@ ==> cost == Scalar::Rank(ONE_RANK) && name@ == lower@,
        lower@ == "pessimistic"@ ==> cost == Scalar::Rank(R_2) && name@ == lower@,
        lower@ != "optimistic"@ && lower@ != "pessimistic"@ ==> mode == FrictionMode::Base,
        lower@ == "mtm"@ <==> model == CopyCurveModel::Mtm,
{
    reveal_strlit("optimistic");
    reveal_strlit("pessimistic");
    reveal_strlit("base");
    assert("optimistic"@.len() != "pessimistic"@.len());
    assert("base"@.len() != "pessimistic"@.len());
    assert("base"@.len() != "optimistic"@.len());
}

/// A key names the wallet in small letters, the mode and the model.
pub proof fn law_key_names_its_request(lower: &str, mode: FrictionMode, model: CopyCurveModel, r: String)
    requires
        call_ensures(cache_key_under, (lower, mode, model), r),
    ensures
        mode is Optimistic && model is Scaled ==> r@ == "wallet_analytics_v5:"@ + lower@ + ":"@ + "opt"@ + ":"@ + "scaled"@,
        mode is Base && model is Scaled ==> r@ == "wallet_analytics_v5:"@ + lower@ + ":"@ + "base"@ + ":"@ + "scaled"@,
        mode is Pessimistic && model is Scaled ==> r@ == "wallet_analytics_v5:"@ + lower@ + ":"@ + "pess"@ + ":"@
            + "scaled"@,
        mode is Optimistic && model is Mtm ==> r@ == "wallet_analytics_v5:"@ + lower@ + ":"@ + "opt"@ + ":"@ + "mtm"@,
        mode is Base && model is Mtm ==> r@ == "wallet_analytics_v5:"@ + lower@ + ":"@ + "base"@ + ":"@ + "mtm"@,
        mode is Pessimistic && model is Mtm ==> r@ == "wallet_analytics_v5:"@ + lower@ + ":"@ + "pess"@ + ":"@ + "mtm"@,
{
}

/// What is remembered is served for a quarter of an hour unless new figures are asked for,
/// and stands in for new figures that could not be found.
pub proof fn law_memory_serves_a_quarter_of_an_hour(v: WalletAnalytics, at: i64, force: bool, now: i64, r: CacheStep)
    requires
        call_ensures(on_cache, (Some((Some(v), at)), force, now), r),
    ensures
        r is Serve <==> !force && now <= at + 15 * 60,
        r is Serve ==> r->Serve_0 == v,
        r is Compute ==> r->Compute_0 == Some(v),
{
}

/// New figures go before remembered ones; a failure is answered with what was remembered.
/// Only new figures with a curve are remembered.
pub proof fn law_new_figures_go_first<E>(
    computed: Result<WalletAnalytics, E>,
    stale: Option<WalletAnalytics>,
    r: ServedAnalytics<E>,
)
    requires
        call_ensures(on_computed::<E>, (computed, stale), r),
    ensures
        computed is Ok ==> r.answer == computed,
        computed is Err && stale is Some ==> r.answer is Ok && r.answer->Ok_0 == stale->0,
        computed is Err && stale is None ==> r.answer == computed,
        computed is Err ==> !r.remember,
        computed is Ok ==> (r.remember <==> computed->Ok_0.copy_trade_curve.len() > 0
            || computed->Ok_0.wallet_realized_curve.len() > 0),
{
}

/// Orders are asked for from the warm-up on, which lies before the stretch that counts.
pub proof fn law_warm_up_comes_first(now: i64, p: WalletAnalyticsParams, r: AnalyticsSpan)
    requires
        now - (p.lookback_days + p.warmup_days) * 86_400 >= i64::MIN,
        call_ensures(analytics_span, (now, &p), r),
    ensures
        now - r.start_time == p.lookback_days * 86_400,
        r.start_time - r.fetch_start_time == p.warmup_days * 86_400,
{
}

proof fn lemma_buys_in(orders: Seq<WalletOrder>, kinds: Seq<SideKind>, start_time: i64, k: int)
    requires
        orders.len() <= usize::MAX,
    ensures
        0 <= k < orders.len() ==> (buys_in(orders, kinds, start_time).contains(k as usize) <==> orders[k].timestamp
            >= start_time && kinds[k] == SideKind::Buy && tradable(orders[k].price) && tradable(
            orders[k].shares_normalized,
        )),
        forall|i: int|
            0 <= i < buys_in(orders, kinds, start_time).len() ==> (#[trigger] buys_in(orders, kinds, start_time)[i])
                < orders.len(),
    decreases orders.len(),
{
    if orders.len() > 0 {
        let front = orders.drop_last();
        let before = buys_in(front, kinds, start_time);
        let all = buys_in(orders, kinds, start_time);
        lemma_buys_in(front, kinds, start_time, k);
        if 0 <= k < front.len() {
            assert(front[k] == orders[k]);
            if before.contains(k as usize) {
                let i = choose|i: int| 0 <= i < before.len() && before[i] == k as usize;
                assert(all[i] == k as usize);
            }
            if all.contains(k as usize) {
                let i = choose|i: int| 0 <= i < all.len() && all[i] == k as usize;
                assert(i < before.len());
                assert(before[i] == k as usize);
            }
        } else if k == front.len() {
            if sized_buy(orders[k], kinds[k], start_time) {
                assert(all[before.len() as int] == k as usize);
            } else if all.contains(k as usize) {
                let i = choose|i: int| 0 <= i < all.len() && all[i] == k as usize;
                assert(before[i] < front.len());
            }
        }
    }
}

/// A purchase counts for the size of the wallet's orders where it lies in the stretch and
/// has a price and shares, and nothing else does.
pub proof fn law_purchases_in_the_stretch_count(
    orders: Vec<WalletOrder>,
    kinds: Vec<SideKind>,
    start_time: i64,
    r: Vec<usize>,
    k: usize,
)
    requires
        kinds.len() == orders.len(),
        call_ensures(counted_buys, (&orders, &kinds, start_time), r),
        k < orders.len(),
    ensures
        r@.contains(k) <==> orders[k as int].timestamp >= start_time && kinds[k as int] == SideKind::Buy
            && orders[k as int].price.spec_is_finite() && Scalar::Rank(0).spec_lt(orders[k as int].price)
            && orders[k as int].shares_normalized.spec_is_finite() && Scalar::Rank(0).spec_lt(
            orders[k as int].shares_normalized,
        ),
{
    assert(orders@.len() == orders.len());
    lemma_buys_in(orders@, kinds@, start_time, k as int);
}

/// One purchase more in the stretch is one more that the follower pays for; any other order
/// changes nothing.
pub proof fn law_follower_pays_for_each_purchase(
    orders: Vec<WalletOrder>,
    kinds: Vec<SideKind>,
    fewer: Vec<WalletOrder>,
    fewer_kinds: Vec<SideKind>,
    start_time: i64,
    fixed: Scalar,
    r: Option<u64>,
    s: Option<u64>,
)
    requires
        orders.len() > 0,
        kinds.len() == orders.len(),
        fewer@ == orders@.drop_last(),
        fewer_kinds@ == kinds@.drop_last(),
        call_ensures(compute_copy_roe_denom_usd, (&orders, &kinds, start_time, fixed), r),
        call_ensures(compute_copy_roe_denom_usd, (&fewer, &fewer_kinds, start_time, fixed), s),
    ensures
        ({
            let one = orders@.last().timestamp >= start_time && kinds@.last() == SideKind::Buy;
            let pays = fixed.spec_is_finite() && Scalar::Rank(0).spec_lt(fixed);
            &&& !pays ==> r is None
            &&& pays && one ==> r is Some
            &&& pays && one && s is Some ==> r->0 == s->0 + 1
            &&& pays && one && s is None ==> r->0 == 1
            &&& !one ==> r == s
        }),
{
    lemma_buy_total(fewer@, kinds@, fewer_kinds@, start_time);
}

proof fn lemma_buy_total(orders: Seq<WalletOrder>, a: Seq<SideKind>, b: Seq<SideKind>, start_time: i64)
    requires
        orders.len() <= a.len(),
        orders.len() <= b.len(),
        forall|i: int| 0 <= i < orders.len() ==> #[trigger] a[i] == b[i],
    ensures
        buy_total(orders, a, start_time) == buy_total(orders, b, start_time),
    decreases orders.len(),
{
    if orders.len() > 0 {
        lemma_buy_total(orders.drop_last(), a, b, start_time);
        assert(a[orders.len() - 1] == b[orders.len() - 1]);
    }
}

/// What the wallet put in is told where it is above zero; the average is a millionth at
/// least; and nothing is scaled without a fixed amount or a purchase.
pub proof fn law_scale_needs_an_amount_and_a_purchase(
    sum: Scalar,
    denom: Option<Scalar>,
    average: Scalar,
    least: Scalar,
    fixed: Scalar,
    buys: usize,
    ratio: Scalar,
    scale: Scalar,
)
    requires
        call_ensures(compute_wallet_roe_denom_usd, (sum,), denom),
        call_ensures(least_average, (average,), least),
        call_ensures(compute_copy_scale_factor, (fixed, buys, ratio), scale),
    ensures
        denom is Some <==> Scalar::Rank(0).spec_lt(sum),
        denom is Some ==> denom->0 == sum,
        Scalar::Rank(R_1E_MINUS_06).spec_le(least),
        Scalar::Rank(R_1E_MINUS_06).spec_le(average) ==> least == average,
        fixed.spec_is_finite() && Scalar::Rank(0).spec_lt(fixed) && buys > 0 ==> scale == ratio,
        !fixed.spec_is_finite() || fixed.spec_le(Scalar::Rank(0)) || buys == 0 ==> scale == Scalar::Rank(ONE_RANK),
{
}

/// A day costs something where its trades and their cost are both above zero; without a
/// percentage nothing costs anything.
pub proof fn law_traded_days_cost(
    daily: Vec<DayAmount>,
    pct: Scalar,
    costs: Vec<Scalar>,
    r: Vec<DayAmount>,
    i: int,
)
    requires
        costs.len() == daily.len(),
        call_ensures(trade_notional_to_friction_costs, (&daily, pct, &costs), r),
        0 <= i < daily.len(),
    ensures
        tradable(pct) && tradable(daily[i].amount) && tradable(costs[i]) ==> r@.contains(
            DayAmount { day: daily[i].day, amount: costs[i] },
        ),
        !tradable(pct) ==> r.len() == 0,
        r.len() <= daily.len(),
        forall|k: int| 0 <= k < r.len() ==> tradable((#[trigger] r[k]).amount),
{
    lemma_costs_of(daily@, pct, costs@, i);
}

proof fn lemma_costs_of(daily: Seq<DayAmount>, pct: Scalar, costs: Seq<Scalar>, i: int)
    ensures
        0 <= i < daily.len() && tradable(pct) && tradable(daily[i].amount) && tradable(costs[i]) ==> costs_of(
            daily,
            pct,
            costs,
        ).contains(DayAmount { day: daily[i].day, amount: costs[i] }),
        costs_of(daily, pct, costs).len() <= daily.len(),
        forall|k: int|
            0 <= k < costs_of(daily, pct, costs).len() ==> tradable((#[trigger] costs_of(daily, pct, costs)[k]).amount),
    decreases daily.len(),
{
    if daily.len() > 0 && tradable(pct) {
        let front = daily.drop_last();
        let before = costs_of(front, pct, costs);
        let all = costs_of(daily, pct, costs);
        lemma_costs_of(front, pct, costs, i);
        if 0 <= i < daily.len() && tradable(daily[i].amount) && tradable(costs[i]) {
            let d = DayAmount { day: daily[i].day, amount: costs[i] };
            if i < front.len() {
                assert(front[i] == daily[i]);
                let k = choose|k: int| 0 <= k < before.len() && before[k] == d;
                assert(all[k] == d);
            } else {
                assert(all[before.len() as int] == d);
            }
        }
    }
}

/// What a curve gained is told of two points at least, and the return on it where what was
/// put in is above zero.
pub proof fn law_return_needs_a_gain_and_a_stake(
    curve: Vec<EquityPoint>,
    difference: Scalar,
    total: Option<Scalar>,
    denom: Option<Scalar>,
    percent: Scalar,
    roe: Option<Scalar>,
)
    requires
        call_ensures(curve_total_pnl, (&curve, difference), total),
        call_ensures(compute_roe_pct, (total, denom, percent), roe),
    ensures
        total is Some <==> curve.len() >= 2,
        total is Some ==> total->0 == difference,
        roe is Some <==> total is Some && denom is Some && total->0.spec_is_finite() && denom->0.spec_is_finite()
            && Scalar::Rank(0).spec_lt(denom->0),
        roe is Some ==> roe->0 == percent,
{
}

/// A step between finite values wins where its difference is above zero and loses where it
/// is below; one below a billionth is neither.
pub proof fn law_step_wins_where_it_rises(
    curve: Vec<EquityPoint>,
    deltas: Vec<Scalar>,
    r: Vec<StepKind>,
    i: int,
)
    requires
        deltas.len() == curve.len() - 1,
        call_ensures(curve_steps, (&curve, &deltas), r),
        0 <= i < deltas.len(),
        deltas[i].wf(),
        deltas[i] is Rank,
    ensures
        r.len() == deltas.len(),
        ({
            let finite = curve[i].value.spec_is_finite() && curve[i + 1].value.spec_is_finite();
            let least = Scalar::Rank(R_1E_MINUS_09);
            &&& r[i] == StepKind::Win <==> finite && least.spec_le(deltas[i])
            &&& r[i] == StepKind::Loss <==> finite && deltas[i].spec_lt(Scalar::Rank(0)) && least.spec_le(
                deltas[i].spec_abs(),
            )
        }),
{
    assert(r@[i] == steps_of(curve@, deltas@)[i]);
}

proof fn lemma_step_count_is_a_count(steps: Seq<StepKind>, kind: StepKind)
    ensures
        step_count(steps, kind) == steps.filter(|s: StepKind| s == kind).len(),
        step_count(steps, kind) > 0 <==> steps.contains(kind),
    decreases steps.len(),
{
    reveal(Seq::filter);
    if steps.len() > 0 {
        let front = steps.drop_last();
        lemma_step_count_is_a_count(front, kind);
        if front.contains(kind) {
            let i = choose|i: int| 0 <= i < front.len() && front[i] == kind;
            assert(steps[i] == kind);
        }
        if steps.last() == kind {
            assert(steps[steps.len() - 1] == kind);
        } else if steps.contains(kind) {
            let i = choose|i: int| 0 <= i < steps.len() && steps[i] == kind;
            assert(front[i] == kind);
        }
    }
}

/// The part of wins is told where a step won or lost; the profit factor where something was
/// won, and it is 999 where nothing was lost.
pub proof fn law_score_needs_wins_and_losses(
    steps: Vec<StepKind>,
    n: StepNumbers,
    r: (Option<Scalar>, Option<Scalar>),
    counts: (u64, u64),
)
    requires
        call_ensures(compute_curve_win_rate_profit_factor, (&steps, &n), r),
        call_ensures(count_steps, (&steps,), counts),
        n.gross_loss is Rank,
    ensures
        (r.0) is Some <==> steps@.contains(StepKind::Win) || steps@.contains(StepKind::Loss),
        (r.0) is Some ==> (r.0)->0 == n.win_part,
        (r.1) is Some <==> steps.len() > 0 && Scalar::Rank(0).spec_lt(n.gross_profit),
        (r.1) is Some && Scalar::Rank(0).spec_lt(n.gross_loss) ==> (r.1)->0 == n.quotient,
        (r.1) is Some && n.gross_loss.spec_le(Scalar::Rank(0)) ==> (r.1)->0 == Scalar::Rank(R_999),
        counts.0 > 0 <==> steps@.contains(StepKind::Win),
        counts.1 > 0 <==> steps@.contains(StepKind::Loss),
{
    lemma_step_count_is_a_count(steps@, StepKind::Win);
    lemma_step_count_is_a_count(steps@, StepKind::Loss);
}

/// Each win and each loss counts once.
pub proof fn law_each_step_counts_once(
    steps: Vec<StepKind>,
    fewer: Vec<StepKind>,
    r: (u64, u64),
    s: (u64, u64),
)
    requires
        steps.len() > 0,
        fewer@ == steps@.drop_last(),
        call_ensures(count_steps, (&steps,), r),
        call_ensures(count_steps, (&fewer,), s),
    ensures
        steps@.last() == StepKind::Win ==> r.0 == s.0 + 1 && r.1 == s.1,
        steps@.last() == StepKind::Loss ==> r.0 == s.0 && r.1 == s.1 + 1,
        steps@.last() == StepKind::Flat ==> r == s,
{
}

/// The model that is asked for is taken where its curve can be drawn, and the other one
/// elsewhere; what is drawn is never empty and has the costs and counts of its curve.
pub proof fn law_drawable_model_is_taken(
    model: CopyCurveModel,
    scaled: CopyMtmResult,
    replayed: CopyMtmResult,
    start_time: i64,
    now: i64,
    r: CopyMtmResult,
    needed: bool,
)
    requires
        call_ensures(choose_copy_curve, (model, scaled, Some(replayed), start_time, now), r),
        call_ensures(mtm_needed, (model, scaled.curve.len()), needed),
    ensures
        ({
            let takes_scaled = (model is Scaled && scaled.curve.len() >= 2) || (model is Mtm && replayed.curve.len() < 2);
            &&& takes_scaled ==> r.total_friction_usd == scaled.total_friction_usd && r.trade_count == scaled.trade_count
                && r.buy_count == scaled.buy_count && (scaled.curve.len() > 0 ==> r.curve@ == scaled.curve@)
            &&& !takes_scaled ==> r.total_friction_usd == replayed.total_friction_usd && r.trade_count
                == replayed.trade_count && r.buy_count == replayed.buy_count && (replayed.curve.len() > 0 ==> r.curve@
                == replayed.curve@)
            &&& r.curve.len() > 0
            &&& !takes_scaled ==> needed
            &&& needed <==> model is Mtm || scaled.curve.len() < 2
        }),
{
}

/// The figures of the wallet come from its own curve and those of the follower from the
/// copied one; what the follower put in is told where it bought.
pub proof fn law_each_curve_has_its_own_figures(
    wallet: &str,
    now: i64,
    p: WalletAnalyticsParams,
    wallet_curve: Vec<EquityPoint>,
    copy: CopyMtmResult,
    n: AnalyticsNumbers,
    r: WalletAnalytics,
)
    requires
        call_ensures(compute_wallet_analytics, (wallet, now, &p, wallet_curve, copy, &n), r),
    ensures
        r.wallet_address@ == wallet@ && r.updated_at == now,
        r.wallet_realized_curve == wallet_curve && r.copy_trade_curve == copy.curve,
        wallet_curve.len() >= 2 ==> r.wallet_total_pnl == Some(n.wallet_difference),
        wallet_curve.len() < 2 ==> r.wallet_total_pnl is None,
        copy.curve.len() >= 2 ==> r.copy_total_pnl == Some(n.copy_difference),
        copy.curve.len() < 2 ==> r.copy_total_pnl is None,
        r.wallet_roe_denom_usd is Some <==> Scalar::Rank(0).spec_lt(n.wallet_sum),
        r.wallet_roe_pct is Some ==> r.wallet_roe_pct->0 == n.wallet_percent && r.wallet_total_pnl is Some,
        r.copy_roe_denom_usd is Some <==> copy.buy_count > 0 && Scalar::Rank(0).spec_lt(p.fixed_buy_notional_usd),
        r.copy_roe_denom_usd is Some ==> r.copy_roe_denom_usd->0 == n.copy_product,
        r.copy_roe_pct is Some ==> r.copy_roe_pct->0 == n.copy_percent && r.copy_total_pnl is Some,
        r.wallet_win_rate is Some ==> r.wallet_win_rate->0 == n.wallet_step_numbers.win_part,
        r.copy_win_rate is Some ==> r.copy_win_rate->0 == n.copy_step_numbers.win_part,
        r.copy_sharpe_7d is Some ==> r.copy_sharpe_7d->0 == n.sharpe_7d.ratio && n.sharpe_7d.std.spec_is_finite(),
        r.copy_sharpe_14d is Some ==> r.copy_sharpe_14d->0 == n.sharpe_14d.ratio && n.sharpe_14d.std.spec_is_finite(),
        r.copy_sharpe_30d is Some ==> r.copy_sharpe_30d->0 == n.sharpe_30d.ratio && n.sharpe_30d.std.spec_is_finite(),
        r.copy_sharpe_90d is Some ==> r.copy_sharpe_90d->0 == n.sharpe_90d.ratio && n.sharpe_90d.std.spec_is_finite(),
        copy.curve.len() < 3 ==> r.copy_sharpe_7d is None && r.copy_sharpe_14d is None && r.copy_sharpe_30d is None
            && r.copy_sharpe_90d is None,
        r.copy_total_friction_usd == Some(copy.total_friction_usd),
        r.copy_trade_count == Some(copy.trade_count),
        p.friction_mode is Optimistic ==> r.copy_friction_pct_per_trade == Some(Scalar::Rank(R_0_35)),
        p.friction_mode is Base ==> r.copy_friction_pct_per_trade == Some(Scalar::Rank(ONE_RANK)),
        p.friction_mode is Pessimistic ==> r.copy_friction_pct_per_trade == Some(Scalar::Rank(R_2)),
{
}

/// A curve is judged from the day so many days ago to today, and one of fewer than three
/// points is not judged.
pub proof fn law_curve_is_judged_up_to_today(
    points: usize,
    now: i64,
    window_days: u32,
    r: Option<SharpeSpan>,
    n: SharpeNumbers,
    told: Option<Scalar>,
)
    requires
        now >= window_days * 86_400,
        call_ensures(sharpe_span, (points, now, window_days), r),
        call_ensures(windowed_sharpe, (points, now, window_days, &n), told),
    ensures
        r is Some <==> points >= 3,
        r is Some ==> r->0.end_day % 86_400 == 0 && r->0.end_day <= now < r->0.end_day + 86_400 && r->0.end_day
            - r->0.start_day == window_days * 86_400,
        told is Some <==> points >= 3 && window_days >= 2 && n.std.spec_is_finite() && n.std != Scalar::Rank(0),
        told is Some ==> told->0 == n.ratio,
{
}

proof fn lemma_delta_terms(curve: Seq<EquityPoint>, deltas: Seq<Scalar>, span: SharpeSpan, k: int)
    requires
        0 <= k < delta_terms(curve, deltas, span).len(),
    ensures
        span.start_day <= delta_terms(curve, deltas, span)[k].day <= span.end_day,
        delta_terms(curve, deltas, span)[k].amount.spec_is_finite(),
        exists|i: int|
            0 <= i < deltas.len() && (#[trigger] deltas[i]) == delta_terms(curve, deltas, span)[k].amount && bucket_of(
                curve[i + 1].timestamp as int,
            ) == delta_terms(curve, deltas, span)[k].day,
    decreases deltas.len(),
{
    if deltas.len() > 0 {
        let front = deltas.drop_last();
        let before = delta_terms(curve, front, span);
        if k < before.len() {
            lemma_delta_terms(curve, front, span, k);
            let i = choose|i: int|
                0 <= i < front.len() && (#[trigger] front[i]) == before[k].amount && bucket_of(
                    curve[i + 1].timestamp as int,
                ) == before[k].day;
            assert(deltas[i] == front[i]);
        } else {
            assert(deltas[deltas.len() - 1] == deltas.last());
        }
    }
}

/// The differences of the days are those of steps that end within the days, each on the day
/// on which its step ends.
pub proof fn law_differences_stand_on_their_days(
    curve: Vec<EquityPoint>,
    deltas: Vec<Scalar>,
    span: SharpeSpan,
    r: Vec<DayAmount>,
    k: int,
)
    requires
        deltas.len() + 1 == curve.len(),
        call_ensures(daily_deltas, (&curve, &deltas, &span), r),
        0 <= k < r.len(),
    ensures
        span.start_day <= r[k].day <= span.end_day,
        r[k].amount.spec_is_finite(),
        exists|i: int|
            0 <= i < deltas.len() && (#[trigger] deltas[i]) == r[k].amount && (curve[i + 1].timestamp >= 0
                ==> r[k].day <= curve[i + 1].timestamp < r[k].day + 86_400),
{
    lemma_delta_terms(curve@, deltas@, span, k);
    let i = choose|i: int|
        0 <= i < deltas@.len() && (#[trigger] deltas@[i]) == r@[k].amount && bucket_of(
            curve@[i + 1].timestamp as int,
        ) == r@[k].day;
    assert(deltas[i] == r[k].amount);
}

/// A ratio over days needs three of them and a spread.
pub proof fn law_ratio_needs_three_days(days: u64, std: Scalar, ratio: Scalar, r: Option<Scalar>)
    requires
        call_ensures(compute_curve_sharpe, (days, std, ratio), r),
    ensures
        r is Some <==> days >= 3 && std.spec_is_finite() && std != Scalar::Rank(0),
        r is Some ==> r->0 == ratio,
{
}

/// The figures that are asked for where nothing else is said.
pub proof fn law_analytics_look_back_ninety_days(r: WalletAnalyticsParams)
    requires
        call_ensures(WalletAnalyticsParams::default, (), r),
    ensures
        r.lookback_days == 90 && r.warmup_days == 30 && r.max_orders == 2000,
        r.fixed_buy_notional_usd == Scalar::Rank(ONE_RANK),
        r.friction_mode is Base && r.copy_model is Scaled,
{
}

proof fn lemma_finite_ranks(values: Seq<Scalar>)
    ensures
        forall|i: int|
            0 <= i < values.len() && (#[trigger] values[i]).spec_is_finite() ==> finite_ranks(values).contains(
                values[i]->Rank_0,
            ),
    decreases values.len(),
{
    if values.len() > 0 {
        let front = values.drop_last();
        let before = finite_ranks(front);
        let all = finite_ranks(values);
        lemma_finite_ranks(front);
        assert forall|i: int| 0 <= i < values.len() && (#[trigger] values[i]).spec_is_finite() implies all.contains(
            values[i]->Rank_0,
        ) by {
            if i < front.len() {
                assert(front[i] == values[i]);
                let k = choose|k: int| 0 <= k < before.len() && before[k] == values[i]->Rank_0;
                assert(all[k] == values[i]->Rank_0);
            } else {
                assert(all[before.len() as int] == values[i]->Rank_0);
            }
        }
    }
}

/// Holding outliers keeps the number of values, the order of any two and every value that is
/// not finite; with the outermost places it changes nothing.
pub proof fn law_holding_outliers_keeps_the_order(values: &mut Vec<Scalar>, lo_idx: usize, hi_idx: usize, i: int, j: int)
    requires
        call_ensures(winsorize_in_place, (values, lo_idx, hi_idx), ()),
        0 <= i < old(values).len(),
        0 <= j < old(values).len(),
    ensures
        final(values).len() == old(values).len(),
        old(values)[i].spec_is_finite() && old(values)[j].spec_is_finite() && old(values)[i].spec_le(old(values)[j])
            ==> final(values)[i].spec_le(final(values)[j]),
        !old(values)[i].spec_is_finite() ==> final(values)[i] == old(values)[i],
        old(values).len() < 10 ==> final(values)@ == old(values)@,
        lo_idx == 0 && hi_idx >= old(values).len() - 1 ==> final(values)[i] == old(values)[i],
{
    let v = old(values)@;
    let ranks = finite_ranks(v);
    lemma_finite_len(v);
    if ranks.len() >= 10 {
        let perm = choose|perm: Seq<usize>| #[trigger]
            is_stable_order(ranks, perm) && final(values)@ == winsorized(
                v,
                ranks[perm[within(lo_idx, ranks.len())] as int],
                ranks[perm[within(hi_idx, ranks.len())] as int],
            );
        if lo_idx == 0 && hi_idx >= v.len() - 1 && v[i].spec_is_finite() {
            lemma_finite_ranks(v);
            law_stable_order_is_a_permutation(ranks, perm);
            let a = v[i]->Rank_0;
            assert(ranks.contains(a));
            let k = choose|k: int| 0 <= k < ranks.len() && ranks[k] == a;
            assert(v.len() <= usize::MAX);
            assert((k as usize) as int == k);
            assert(perm.contains(k as usize));
            let w = choose|w: int| 0 <= w < perm.len() && perm[w] == k as usize;
            if w > 0 {
                assert(stands_before(ranks, perm[0] as int, perm[w] as int));
            }
            if w < perm.len() - 1 {
                assert(stands_before(ranks, perm[w] as int, perm[perm.len() - 1] as int));
            }
        }
    }
}

proof fn lemma_finite_len(values: Seq<Scalar>)
    ensures
        finite_ranks(values).len() <= values.len(),
    decreases values.len(),
{
    if values.len() > 0 {
        lemma_finite_len(values.drop_last());
    }
}

/// Names are read in any case of their letters, as their small letters are.
pub proof fn law_names_are_read_in_any_case(
    s: &str,
    lower: &str,
    a: FrictionMode,
    b: FrictionMode,
    c: CopyCurveModel,
    d: CopyCurveModel,
    mode: FrictionMode,
    model: CopyCurveModel,
    k: String,
    l: String,
)
    requires
        lower@ == lowercase(s@),
        call_ensures(FrictionMode::from_str, (s,), a),
        call_ensures(FrictionMode::of_lower, (lower,), b),
        call_ensures(CopyCurveModel::from_str, (s,), c),
        call_ensures(CopyCurveModel::of_lower, (lower,), d),
        call_ensures(wallet_analytics_cache_key, (s, mode, model), k),
        call_ensures(cache_key_under, (lower, mode, model), l),
    ensures
        a == b,
        c == d,
        k@ == l@,
{
}

/// An order counts for a sample of sizes where its price and its shares are above zero.
pub proof fn law_sampled_orders_have_price_and_shares(o: WalletOrder, r: bool)
    requires
        call_ensures(counts_for_sample, (&o,), r),
    ensures
        r <==> o.price.spec_is_finite() && Scalar::Rank(0).spec_lt(o.price) && o.shares_normalized.spec_is_finite()
            && Scalar::Rank(0).spec_lt(o.shares_normalized),
{
}

/// A point bears the costs up to its day and no later ones; the points come in order of time.
pub proof fn law_charged_points_come_in_order(
    curve: Vec<EquityPoint>,
    costs: Vec<DayAmount>,
    r: Vec<ChargedPoint>,
    i: int,
    j: int,
    k: int,
)
    requires
        call_ensures(apply_daily_costs_to_curve, (&curve, &costs), r),
        days_rise(costs@),
        0 <= i < j < r.len(),
        0 <= k < costs.len(),
        r[i].point.timestamp >= 0,
    ensures
        r.len() == curve.len(),
        r[i].point.timestamp <= r[j].point.timestamp,
        k < r[i].charged <==> costs[k].day <= r[i].point.timestamp - r[i].point.timestamp % 86_400,
{
    let points = choose|points: Seq<EquityPoint>| #[trigger]
        is_sorted_curve(curve@, points) && r.len() == points.len() && forall|i: int|
            #![trigger r[i]]
            0 <= i < points.len() ==> r[i].point == points[i] && r[i].charged == charges(
                points.take(i + 1),
                costs@,
            );
    let times = point_times(curve@);
    let perm = choose|perm: Seq<usize>| #[trigger] is_stable_order(times, perm) && points == picked(curve@, perm);
    assert(stands_before(times, perm[i] as int, perm[j] as int));
    assert(points[i] == curve@[perm[i] as int]);
    assert(points[j] == curve@[perm[j] as int]);
    assert(r[i].point == points[i] && r[j].point == points[j]);
    assert(costs[k] == costs@[k]);
}

/// A curve that is counted from its start keeps its points in order of time, and each finite
/// value is the shifted one.
pub proof fn law_curve_is_counted_from_its_start(curve: Vec<EquityPoint>, shifted: Vec<Scalar>, r: Vec<EquityPoint>, i: int, j: int)
    requires
        shifted.len() == curve.len(),
        call_ensures(normalize_curve_to_zero, (curve, &shifted), r),
        curve.len() >= 2,
        0 <= i < j < r.len(),
    ensures
        r.len() == curve.len(),
        r[i].timestamp <= r[j].timestamp,
        (forall|k: int| 0 <= k < curve.len() ==> (#[trigger] curve[k]).value.spec_is_finite()) ==> r[i].value == shifted[i],
        (forall|k: int| 0 <= k < curve.len() ==> !(#[trigger] curve[k]).value.spec_is_finite()) ==> curve@.contains(r[i]),
{
    let points = choose|points: Seq<EquityPoint>| #[trigger]
        is_sorted_curve(curve@, points) && points.len() == r.len() && forall|i: int|
            #![trigger r[i]]
            0 <= i < points.len() ==> r[i] == if points[0].value.spec_is_finite() && points[i].value.spec_is_finite() {
                EquityPoint { timestamp: points[i].timestamp, value: shifted[i] }
            } else {
                points[i]
            };
    let times = point_times(curve@);
    let perm = choose|perm: Seq<usize>| #[trigger] is_stable_order(times, perm) && points == picked(curve@, perm);
    assert(stands_before(times, perm[i] as int, perm[j] as int));
    assert(points[i] == curve@[perm[i] as int]);
    assert(points[j] == curve@[perm[j] as int]);
    assert(points[0] == curve@[perm[0] as int]);
    assert(curve[perm[i] as int] == points[i]);
    assert(curve[perm[0] as int] == points[0]);
    let a = r[i];
    let b = r[j];
}

/// Each day of a stretch has the sum of its group, and nothing where it has none.
pub proof fn law_days_are_filled(days: Vec<DayGroup>, sums: Vec<Scalar>, span: SharpeSpan, r: Vec<Scalar>, i: int, g: int)
    requires
        sums.len() == days.len(),
        groups_rise(days@),
        span.start_day <= span.end_day,
        call_ensures(fill_days, (&days, &sums, &span), r),
        0 <= i < r.len(),
        0 <= g < days.len(),
    ensures
        r.len() == (span.end_day - span.start_day) / 86_400 + 1,
        days[g].day == span.start_day + i * 86_400 ==> r[i] == sums[g],
        (forall|h: int| 0 <= h < days.len() ==> (#[trigger] days[h]).day != span.start_day + i * 86_400) ==> r[i]
            == Scalar::Rank(0),
{
    assert(is_sum_on(days@, sums@, span.start_day + i * 86_400, r[i]));
    assert(days@[g] == days[g]);
    if forall|h: int| 0 <= h < days.len() ==> (#[trigger] days[h]).day != span.start_day + i * 86_400 {
        assert forall|h: int| 0 <= h < days@.len() implies (#[trigger] days@[h]).day != span.start_day + i * 86_400 by {
            assert(days@[h] == days[h]);
        }
    }
}

} // verus!
