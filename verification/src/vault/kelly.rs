//! How much to stake on an edge.
use crate::base::ranks::{R_0_1, R_0_25, R_0_75, R_2};
use crate::base::scalar::{Scalar, ONE_RANK};
use vstd::prelude::*;

verus! {

/// The rank of 1000.0.
pub const DEFAULT_BANKROLL: i64 = 0x408F_4000_0000_0000;

/// The rank of 0.25.
pub const QUARTER: i64 = 0x3FD0_0000_0000_0000;

/// The rank of 0.1.
pub const TENTH: i64 = 0x3FB9_9999_9999_999A;

/// The rank of 2.0.
pub const TWO: i64 = 0x4000_0000_0000_0000;

/// The bounds of a stake.
#[derive(Clone, Copy, Debug, PartialEq, Eq, Structural)]
pub struct KellyParams {
    pub bankroll: Scalar,
    pub kelly_fraction: Scalar,
    pub max_position_pct: Scalar,
    pub min_position_usd: Scalar,
}

impl Default for KellyParams {
    fn default() -> (r: KellyParams)
        ensures
            r == (KellyParams {
                bankroll: Scalar::Rank(DEFAULT_BANKROLL),
                kelly_fraction: Scalar::Rank(QUARTER),
                max_position_pct: Scalar::Rank(TENTH),
                min_position_usd: Scalar::Rank(ONE_RANK),
            }),
    {
        KellyParams {
            bankroll: Scalar::Rank(DEFAULT_BANKROLL),
            kelly_fraction: Scalar::Rank(QUARTER),
            max_position_pct: Scalar::Rank(TENTH),
            min_position_usd: Scalar::Rank(ONE_RANK),
        }
    }
}

/// Why nothing is staked.
#[derive(Clone, Copy, Debug, PartialEq, Eq, Structural)]
pub enum KellySkip {
    InvalidConfidence,
    InvalidPrice,
    NoEdge { confidence: Scalar, market_price: Scalar },
    BelowMinimum { position_usd: Scalar, min_position_usd: Scalar },
    /// Below the minimum once the volatility counts.
    BelowMinimumForVolatility { position_usd: Scalar, multiplier: Scalar },
}

/// A stake.
#[derive(Clone, Copy, Debug, PartialEq, Eq, Structural)]
pub struct KellyResult {
    pub position_size_usd: Scalar,
    pub full_kelly_fraction: Scalar,
    pub actual_fraction: Scalar,
    pub edge: Scalar,
    pub should_trade: bool,
    pub skip_reason: Option<KellySkip>,
}

/// The figures behind a stake: the confidence less the price; the full fraction; the
/// fraction that is used; and the bankroll times that fraction.
#[derive(Clone, Copy, Debug, PartialEq, Eq, Structural)]
pub struct KellyNumbers {
    pub edge: Scalar,
    pub full_kelly: Scalar,
    pub capped_fraction: Scalar,
    pub position_usd: Scalar,
}

/// The full fraction, held between zero and one.
pub fn full_fraction(raw: Scalar) -> (r: Scalar)
    ensures
        r == raw.spec_max(Scalar::Rank(0)).spec_min(Scalar::Rank(ONE_RANK)),
{
    raw.max(Scalar::Rank(0)).min(Scalar::Rank(ONE_RANK))
}

/// The fraction that is used, at most the greatest share of the bankroll.
pub fn capped_fraction(actual: Scalar, params: &KellyParams) -> (r: Scalar)
    ensures
        r == actual.spec_min(params.max_position_pct),
{
    actual.min(params.max_position_pct)
}

/// Strictly between zero and one, as far as it can be compared.
pub open spec fn outside_unit(x: Scalar) -> bool {
    x.spec_le(Scalar::Rank(0)) || Scalar::Rank(ONE_RANK).spec_le(x)
}

fn is_outside_unit(x: Scalar) -> (r: bool)
    ensures
        r == outside_unit(x),
{
    x.le(Scalar::Rank(0)) || Scalar::Rank(ONE_RANK).le(x)
}

/// Nothing is staked, for a reason that leaves no figures but the edge.
pub open spec fn no_stake(edge: Scalar, why: KellySkip) -> KellyResult {
    KellyResult {
        position_size_usd: Scalar::Rank(0),
        full_kelly_fraction: Scalar::Rank(0),
        actual_fraction: Scalar::Rank(0),
        edge,
        should_trade: false,
        skip_reason: Some(why),
    }
}

/// The stake on an outcome.
pub open spec fn stake(confidence: Scalar, market_price: Scalar, n: KellyNumbers, params: KellyParams) -> KellyResult {
    if outside_unit(confidence) {
        no_stake(Scalar::Rank(0), KellySkip::InvalidConfidence)
    } else if outside_unit(market_price) {
        no_stake(Scalar::Rank(0), KellySkip::InvalidPrice)
    } else if n.edge.spec_le(Scalar::Rank(0)) {
        no_stake(n.edge, KellySkip::NoEdge { confidence, market_price })
    } else {
        let below = n.position_usd.spec_lt(params.min_position_usd);
        KellyResult {
            position_size_usd: if below {
                Scalar::Rank(0)
            } else {
                n.position_usd
            },
            full_kelly_fraction: n.full_kelly,
            actual_fraction: n.capped_fraction,
            edge: n.edge,
            should_trade: !below,
            skip_reason: if below {
                Some(
                    KellySkip::BelowMinimum {
                        position_usd: n.position_usd,
                        min_position_usd: params.min_position_usd,
                    },
                )
            } else {
                None
            },
        }
    }
}

/// Decides on the stake for an outcome.
pub fn calculate_kelly_position(
    confidence: Scalar,
    market_price: Scalar,
    n: &KellyNumbers,
    params: &KellyParams,
) -> (r: KellyResult)
    ensures
        r == stake(confidence, market_price, *n, *params),
{
    let mut r = KellyResult {
        position_size_usd: Scalar::Rank(0),
        full_kelly_fraction: Scalar::Rank(0),
        actual_fraction: Scalar::Rank(0),
        edge: Scalar::Rank(0),
        should_trade: false,
        skip_reason: None,
    };
    if is_outside_unit(confidence) {
        r.skip_reason = Some(KellySkip::InvalidConfidence);
        return r;
    }
    if is_outside_unit(market_price) {
        r.skip_reason = Some(KellySkip::InvalidPrice);
        return r;
    }
    r.edge = n.edge;
    if n.edge.le(Scalar::Rank(0)) {
        r.skip_reason = Some(KellySkip::NoEdge { confidence, market_price });
        return r;
    }
    r.full_kelly_fraction = n.full_kelly;
    r.actual_fraction = n.capped_fraction;
    if n.position_usd.lt(params.min_position_usd) {
        r.skip_reason = Some(
            KellySkip::BelowMinimum {
                position_usd: n.position_usd,
                min_position_usd: params.min_position_usd,
            },
        );
        return r;
    }
    r.position_size_usd = n.position_usd;
    r.should_trade = true;
    r
}

/// The bounds of a stake on a signal.
pub fn signal_params(user_bankroll: Scalar, kelly_fraction: Scalar) -> (r: KellyParams)
    ensures
        r == (KellyParams {
            bankroll: user_bankroll,
            kelly_fraction,
            max_position_pct: Scalar::Rank(TENTH),
            min_position_usd: Scalar::Rank(ONE_RANK),
        }),
{
    KellyParams {
        bankroll: user_bankroll,
        kelly_fraction,
        max_position_pct: Scalar::Rank(TENTH),
        min_position_usd: Scalar::Rank(ONE_RANK),
    }
}

/// Decides on the stake for a signal.
pub fn kelly_for_signal(
    signal_confidence: Scalar,
    signal_price: Scalar,
    n: &KellyNumbers,
    user_bankroll: Scalar,
    kelly_fraction: Scalar,
) -> (r: KellyResult)
    ensures
        r == stake(
            signal_confidence,
            signal_price,
            *n,
            KellyParams {
                bankroll: user_bankroll,
                kelly_fraction,
                max_position_pct: Scalar::Rank(TENTH),
                min_position_usd: Scalar::Rank(ONE_RANK),
            },
        ),
{
    let params = signal_params(user_bankroll, kelly_fraction);
    calculate_kelly_position(signal_confidence, signal_price, n, &params)
}

/// What a stake is multiplied by when the edge is `ratio` times the expected move of
/// the price: little while the move is greater, and never more than where both are equal;
/// all once the edge is twice the move; and `between` in between.
pub open spec fn volatility_factor(ratio: Scalar, between: Scalar) -> Scalar {
    if ratio.spec_lt(Scalar::Rank(ONE_RANK)) {
        ratio.spec_min(Scalar::Rank(R_0_75)).spec_max(Scalar::Rank(TENTH))
    } else if ratio.spec_lt(Scalar::Rank(TWO)) {
        between
    } else {
        Scalar::Rank(ONE_RANK)
    }
}

pub fn vol_multiplier(ratio: Scalar, between: Scalar) -> (r: Scalar)
    ensures
        r == volatility_factor(ratio, between),
{
    if ratio.lt(Scalar::Rank(ONE_RANK)) {
        ratio.min(Scalar::Rank(R_0_75)).max(Scalar::Rank(TENTH))
    } else if ratio.lt(Scalar::Rank(TWO)) {
        between
    } else {
        Scalar::Rank(ONE_RANK)
    }
}

/// The stake once the volatility counts; the scaled figures are those of the stake
/// times the factor.
pub open spec fn adjusted(
    base: KellyResult,
    multiplier: Scalar,
    scaled_position: Scalar,
    scaled_fraction: Scalar,
    params: KellyParams,
) -> KellyResult {
    if !base.should_trade {
        base
    } else {
        let below = scaled_position.spec_lt(params.min_position_usd);
        KellyResult {
            position_size_usd: scaled_position,
            actual_fraction: scaled_fraction,
            should_trade: !below,
            skip_reason: if below {
                Some(
                    KellySkip::BelowMinimumForVolatility { position_usd: scaled_position, multiplier },
                )
            } else {
                base.skip_reason
            },
            ..base
        }
    }
}

/// Adjusts a stake to the volatility of beliefs.
pub fn kelly_with_belief_vol(
    base: KellyResult,
    multiplier: Scalar,
    scaled_position: Scalar,
    scaled_fraction: Scalar,
    params: &KellyParams,
) -> (r: KellyResult)
    ensures
        r == adjusted(base, multiplier, scaled_position, scaled_fraction, *params),
{
    let mut r = base;
    if !r.should_trade {
        return r;
    }
    r.position_size_usd = scaled_position;
    r.actual_fraction = scaled_fraction;
    if r.position_size_usd.lt(params.min_position_usd) {
        r.should_trade = false;
        r.skip_reason = Some(
            KellySkip::BelowMinimumForVolatility { position_usd: scaled_position, multiplier },
        );
    }
    r
}

/// A trade is taken if and only if there is no reason to skip it. A trade has a
/// confidence and a price that are not outside the unit interval, an edge that is not
/// at or below zero, and a stake that is not below the minimum; what is skipped
/// stakes nothing.
pub proof fn law_stake_needs_edge(confidence: Scalar, market_price: Scalar, n: KellyNumbers, params: KellyParams)
    ensures
        ({
            let r = stake(confidence, market_price, n, params);
            &&& r.should_trade <==> r.skip_reason is None
            &&& r.should_trade ==> !outside_unit(confidence) && !outside_unit(market_price)
                && !r.edge.spec_le(Scalar::Rank(0)) && !r.position_size_usd.spec_lt(
                params.min_position_usd,
            )
            &&& !r.should_trade ==> r.position_size_usd == Scalar::Rank(0)
        }),
{
}

/// The volatility never turns a refusal into a trade, and leaves the edge alone.
pub proof fn law_volatility_adds_no_trade(
    base: KellyResult,
    multiplier: Scalar,
    scaled_position: Scalar,
    scaled_fraction: Scalar,
    params: KellyParams,
)
    ensures
        ({
            let r = adjusted(base, multiplier, scaled_position, scaled_fraction, params);
            &&& r.should_trade ==> base.should_trade
            &&& !base.should_trade ==> r == base
            &&& r.edge == base.edge
        }),
{
}

/// Whether a factor may stand for ratios from one to two: from three quarters to one.
pub open spec fn is_between(b: Scalar) -> bool {
    Scalar::Rank(R_0_75).spec_le(b) && b.spec_le(Scalar::Rank(ONE_RANK))
}

/// The factor never falls as the edge grows against the expected move, and it lies between
/// one tenth and one.
pub proof fn law_factor_grows_with_safety(low: Scalar, high: Scalar, between_low: Scalar, between_high: Scalar)
    requires
        low.spec_le(high),
        is_between(between_low),
        is_between(between_high),
        between_low.spec_le(between_high),
    ensures
        volatility_factor(low, between_low).spec_le(volatility_factor(high, between_high)),
        Scalar::Rank(TENTH).spec_le(volatility_factor(low, between_low)),
        volatility_factor(high, between_high).spec_le(Scalar::Rank(ONE_RANK)),
{
}

/// More volatility never makes a stake larger: of two stakes that are scaled from one base,
/// the one whose edge is smaller against the expected move is no larger, and neither is
/// larger than the base. Scaling keeps the order: a greater factor scales to no less, and a
/// factor of at most one to no more than the base.
pub proof fn law_volatility_stakes_no_more(
    base: KellyResult,
    low: Scalar,
    high: Scalar,
    between_low: Scalar,
    between_high: Scalar,
    scaled_low: Scalar,
    scaled_high: Scalar,
    fraction_low: Scalar,
    fraction_high: Scalar,
    params: KellyParams,
)
    requires
        base.position_size_usd is Rank,
        low.spec_le(high),
        is_between(between_low),
        is_between(between_high),
        between_low.spec_le(between_high),
        volatility_factor(low, between_low).spec_le(volatility_factor(high, between_high))
            ==> scaled_low.spec_le(scaled_high),
        volatility_factor(high, between_high).spec_le(Scalar::Rank(ONE_RANK)) ==> scaled_high.spec_le(
            base.position_size_usd,
        ),
    ensures
        ({
            let less = volatility_factor(low, between_low);
            let more = volatility_factor(high, between_high);
            let a = adjusted(base, less, scaled_low, fraction_low, params);
            let b = adjusted(base, more, scaled_high, fraction_high, params);
            &&& a.position_size_usd.spec_le(b.position_size_usd)
            &&& b.position_size_usd.spec_le(base.position_size_usd)
            &&& a.should_trade ==> b.should_trade
        }),
{
    law_factor_grows_with_safety(low, high, between_low, between_high);
}

/// A stake needs a confidence and a price between zero and one, an edge above zero and the
/// least amount; what is staked is the amount that was worked out, and what is not staked
/// says why.
pub proof fn law_stake_says_why_not(
    confidence: Scalar,
    price: Scalar,
    n: KellyNumbers,
    params: KellyParams,
    r: KellyResult,
)
    requires
        call_ensures(calculate_kelly_position, (confidence, price, &n, &params), r),
        confidence is Rank && price is Rank && n.edge is Rank && n.position_usd is Rank && params.min_position_usd is Rank,
    ensures
        ({
            let nought = Scalar::Rank(0);
            let one = Scalar::Rank(ONE_RANK);
            let sure = nought.spec_lt(confidence) && confidence.spec_lt(one);
            let priced = nought.spec_lt(price) && price.spec_lt(one);
            let edged = nought.spec_lt(n.edge);
            let enough = params.min_position_usd.spec_le(n.position_usd);
            &&& r.should_trade <==> sure && priced && edged && enough
            &&& r.should_trade ==> r.position_size_usd == n.position_usd && r.skip_reason is None && r.edge == n.edge
                && r.full_kelly_fraction == n.full_kelly && r.actual_fraction == n.capped_fraction
            &&& !r.should_trade ==> r.position_size_usd == nought && r.skip_reason is Some
            &&& !sure ==> r.skip_reason == Some(KellySkip::InvalidConfidence)
            &&& sure && !priced ==> r.skip_reason == Some(KellySkip::InvalidPrice)
            &&& sure && priced && !edged ==> r.skip_reason == Some(
                KellySkip::NoEdge { confidence, market_price: price },
            ) && r.edge == n.edge
            &&& sure && priced && edged && !enough ==> r.skip_reason == Some(
                KellySkip::BelowMinimum { position_usd: n.position_usd, min_position_usd: params.min_position_usd },
            ) && r.edge == n.edge
        }),
{
}

/// The full fraction lies between zero and one, and what is used of it is at most the
/// greatest share.
pub proof fn law_fractions_have_their_bounds(
    raw: Scalar,
    full: Scalar,
    actual: Scalar,
    params: KellyParams,
    capped: Scalar,
)
    requires
        call_ensures(full_fraction, (raw,), full),
        call_ensures(capped_fraction, (actual, &params), capped),
        raw is Rank && actual is Rank && params.max_position_pct is Rank,
    ensures
        Scalar::Rank(0).spec_le(full) && full.spec_le(Scalar::Rank(ONE_RANK)),
        Scalar::Rank(0).spec_le(raw) && raw.spec_le(Scalar::Rank(ONE_RANK)) ==> full == raw,
        capped.spec_le(actual) && capped.spec_le(params.max_position_pct),
        capped == actual || capped == params.max_position_pct,
{
}

/// A signal is staked on with a tenth of the bankroll at most and a dollar at least; the
/// bounds that hold where nothing is set are the same, on a thousand dollars and a quarter.
pub proof fn law_signal_stakes_a_tenth_at_most(bankroll: Scalar, fraction: Scalar, p: KellyParams, d: KellyParams)
    requires
        call_ensures(signal_params, (bankroll, fraction), p),
        call_ensures(KellyParams::default, (), d),
    ensures
        p.bankroll == bankroll && p.kelly_fraction == fraction,
        p.max_position_pct == Scalar::Rank(R_0_1) && p.min_position_usd == Scalar::Rank(ONE_RANK),
        d.max_position_pct == Scalar::Rank(R_0_1) && d.min_position_usd == Scalar::Rank(ONE_RANK),
        d.kelly_fraction == Scalar::Rank(R_0_25),
{
}

/// A stake on a signal is the stake with the bounds of a signal.
pub proof fn law_signal_is_staked_on_like_any_outcome(
    confidence: Scalar,
    price: Scalar,
    n: KellyNumbers,
    bankroll: Scalar,
    fraction: Scalar,
    p: KellyParams,
    r: KellyResult,
    s: KellyResult,
)
    requires
        call_ensures(signal_params, (bankroll, fraction), p),
        call_ensures(kelly_for_signal, (confidence, price, &n, bankroll, fraction), r),
        call_ensures(calculate_kelly_position, (confidence, price, &n, &p), s),
    ensures
        r == s,
{
}

/// The factor is all where the edge is twice the move or more, what was worked out where it
/// lies between one and two, and from one tenth to three quarters below.
pub proof fn law_factor_goes_by_the_ratio(ratio: Scalar, between: Scalar, r: Scalar)
    requires
        call_ensures(vol_multiplier, (ratio, between), r),
        ratio is Rank,
    ensures
        Scalar::Rank(R_2).spec_le(ratio) ==> r == Scalar::Rank(ONE_RANK),
        Scalar::Rank(ONE_RANK).spec_le(ratio) && ratio.spec_lt(Scalar::Rank(R_2)) ==> r == between,
        ratio.spec_lt(Scalar::Rank(ONE_RANK)) ==> Scalar::Rank(R_0_1).spec_le(r) && r.spec_le(Scalar::Rank(R_0_75)),
        Scalar::Rank(R_0_1).spec_le(ratio) && ratio.spec_le(Scalar::Rank(R_0_75)) ==> r == ratio,
{
}

/// Volatility scales a trade and may refuse it, saying so; a refusal stays as it is.
pub proof fn law_volatility_scales_a_trade(
    base: KellyResult,
    multiplier: Scalar,
    position: Scalar,
    fraction: Scalar,
    params: KellyParams,
    r: KellyResult,
)
    requires
        call_ensures(kelly_with_belief_vol, (base, multiplier, position, fraction, &params), r),
        position is Rank && params.min_position_usd is Rank,
    ensures
        !base.should_trade ==> r == base,
        base.should_trade ==> r.position_size_usd == position && r.actual_fraction == fraction && r.edge == base.edge
            && r.full_kelly_fraction == base.full_kelly_fraction,
        base.should_trade ==> (r.should_trade <==> params.min_position_usd.spec_le(position)),
        base.should_trade && !r.should_trade ==> r.skip_reason == Some(
            KellySkip::BelowMinimumForVolatility { position_usd: position, multiplier },
        ),
        base.should_trade && r.should_trade ==> r.skip_reason == base.skip_reason,
{
}

/// Each rank here is that of the binary64 number nearest to the one it is called after.
pub proof fn law_kelly_ranks_are_nearest()
    ensures
        0x4080_0000_0000_0000 <= DEFAULT_BANKROLL < 0x4090_0000_0000_0000,
        -1 <= 2 * (1 * (DEFAULT_BANKROLL - 0x4070000000000000) - 1000 * 0x80000000000int) <= 1,
        0x3FD0_0000_0000_0000 <= QUARTER < 0x3FE0_0000_0000_0000,
        -4 <= 2 * (4 * (QUARTER - 0x3FC0000000000000) - 1 * 0x40000000000000int) <= 4,
        0x3FB0_0000_0000_0000 <= TENTH < 0x3FC0_0000_0000_0000,
        -10 <= 2 * (10 * (TENTH - 0x3FA0000000000000) - 1 * 0x100000000000000int) <= 10,
        0x4000_0000_0000_0000 <= TWO < 0x4010_0000_0000_0000,
        -1 <= 2 * (1 * (TWO - 0x3FF0000000000000) - 2 * 0x8000000000000int) <= 1,
{
}

} // verus!
