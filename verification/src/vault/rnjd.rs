//! Pricing of quarter-hour markets with jumps.
use super::belief_vol::BeliefVolTracker;
use super::latency_arb::{held_between, hold_between};
use crate::base::clock::less_than_apart;
use crate::base::ranks::{R_0_001, R_0_01, R_0_1, R_0_95, R_0_999, R_10, R_50};
use crate::base::scalar::{Scalar, HALF_RANK, ONE_RANK};
use vstd::prelude::*;

verus! {

/// The rank of 2.0.
pub const DEFAULT_SIGMA_B: i64 = 0x4000_0000_0000_0000;

/// The rank of 0.1.
pub const DEFAULT_SIGMA_J: i64 = 0x3FB9_9999_9999_999A;

/// The rank of 10.0.
pub const JUMP_LAMBDA: i64 = 0x4024_0000_0000_0000;

/// The rank of 3.0.
pub const JUMP_Z: i64 = 0x4008_0000_0000_0000;

/// The rank of 0.01.
pub const LEAST_SENSITIVITY: i64 = 0x3F84_7AE1_47AE_147B;

/// The rank of 50.0.
pub const GREATEST_SIGMA_B: i64 = 0x4049_0000_0000_0000;

/// The window in which jumps are counted in seconds, and how many make a regime.
pub const JUMP_WINDOW_SECS: i64 = 300;

pub const JUMP_LIMIT: usize = 2;

/// The parameters of the model.
#[derive(Clone, Copy, Debug, PartialEq, Eq, Structural)]
pub struct RnjdParams {
    pub sigma_b: Scalar,
    pub lambda: Scalar,
    pub mu_j: Scalar,
    pub sigma_j: Scalar,
}

impl Default for RnjdParams {
    fn default() -> (r: RnjdParams)
        ensures
            r == (RnjdParams {
                sigma_b: Scalar::Rank(DEFAULT_SIGMA_B),
                lambda: Scalar::Rank(0),
                mu_j: Scalar::Rank(0),
                sigma_j: Scalar::Rank(DEFAULT_SIGMA_J),
            }),
    {
        RnjdParams {
            sigma_b: Scalar::Rank(DEFAULT_SIGMA_B),
            lambda: Scalar::Rank(0),
            mu_j: Scalar::Rank(0),
            sigma_j: Scalar::Rank(DEFAULT_SIGMA_J),
        }
    }
}

/// The chance of a rise.
#[derive(Clone, Copy, Debug, PartialEq, Eq, Structural)]
pub struct RnjdEstimate {
    pub p_up: Scalar,
    pub drift_correction: Scalar,
    pub p_up_raw: Scalar,
    pub confidence: Scalar,
    pub jump_regime: bool,
}

/// A finite number above zero.
pub open spec fn above_zero(x: Scalar) -> bool {
    Scalar::Rank(0).spec_lt(x) && x.spec_is_finite()
}

/// Whether prices, a volatility and a time can be priced.
pub open spec fn can_price(p_start: Scalar, p_now: Scalar, sigma_price: Scalar, t_rem_secs: Scalar) -> bool {
    &&& Scalar::Rank(0).spec_lt(p_start)
    &&& Scalar::Rank(0).spec_lt(p_now)
    &&& above_zero(sigma_price)
    &&& above_zero(t_rem_secs)
}

/// A chance held between one in a thousand and all but one; an undefined one stays so.
pub open spec fn as_chance(x: Scalar) -> Scalar {
    held_between(x, Scalar::Rank(R_0_001), Scalar::Rank(R_0_999))
}

pub fn hold_chance(x: Scalar) -> (r: Scalar)
    ensures
        r == as_chance(x),
{
    hold_between(x, Scalar::Rank(R_0_001), Scalar::Rank(R_0_999))
}

/// A confidence held between its bounds; an undefined one stays so.
pub open spec fn as_confidence(x: Scalar) -> Scalar {
    held_between(x, Scalar::Rank(R_0_1), Scalar::Rank(R_0_95))
}

/// The estimate from what the formulas give: nothing where the inputs cannot be
/// priced or the spread of returns is not above zero. The chances and the confidence are
/// held between their bounds.
pub fn estimate_p_up_rnjd(
    p_start: Scalar,
    p_now: Scalar,
    sigma_price: Scalar,
    t_rem_secs: Scalar,
    std_dev: Scalar,
    computed: RnjdEstimate,
) -> (r: Option<RnjdEstimate>)
    ensures
        r == if can_price(p_start, p_now, sigma_price, t_rem_secs) && !std_dev.spec_le(Scalar::Rank(0)) {
            Some(
                RnjdEstimate {
                    p_up: as_chance(computed.p_up),
                    p_up_raw: as_chance(computed.p_up_raw),
                    confidence: as_confidence(computed.confidence),
                    drift_correction: computed.drift_correction,
                    jump_regime: false,
                },
            )
        } else {
            None
        },
{
    if !(Scalar::Rank(0).lt(p_start) && Scalar::Rank(0).lt(p_now)) {
        return None;
    }
    if !(Scalar::Rank(0).lt(sigma_price) && sigma_price.is_finite()) {
        return None;
    }
    if !(Scalar::Rank(0).lt(t_rem_secs) && t_rem_secs.is_finite()) {
        return None;
    }
    if std_dev.le(Scalar::Rank(0)) {
        return None;
    }
    Some(
        RnjdEstimate {
            p_up: hold_chance(computed.p_up),
            p_up_raw: hold_chance(computed.p_up_raw),
            confidence: hold_between(computed.confidence, Scalar::Rank(R_0_1), Scalar::Rank(R_0_95)),
            drift_correction: computed.drift_correction,
            jump_regime: false,
        },
    )
}

/// Chances that are numbers lie between one in a thousand and all but one, and a confidence
/// between one tenth and ninety-five hundredths, whatever the formulas give.
pub proof fn law_estimates_are_bounded(computed: RnjdEstimate)
    requires
        computed.p_up is Rank,
        computed.p_up_raw is Rank,
        computed.confidence is Rank,
    ensures
        Scalar::Rank(R_0_001).spec_le(as_chance(computed.p_up)),
        as_chance(computed.p_up).spec_le(Scalar::Rank(R_0_999)),
        Scalar::Rank(R_0_001).spec_le(as_chance(computed.p_up_raw)),
        as_chance(computed.p_up_raw).spec_le(Scalar::Rank(R_0_999)),
        Scalar::Rank(R_0_1).spec_le(as_confidence(computed.confidence)),
        as_confidence(computed.confidence).spec_le(Scalar::Rank(R_0_95)),
{
}

/// The belief volatility that a price volatility stands for: ten times as much where
/// the price is hardly sensitive, else the quotient, at most a bound.
pub fn price_vol_to_belief_vol(sensitivity: Scalar, tenfold: Scalar, quotient: Scalar) -> (r: Scalar)
    ensures
        r == if sensitivity.spec_lt(Scalar::Rank(LEAST_SENSITIVITY)) {
            tenfold
        } else {
            quotient.spec_min(Scalar::Rank(GREATEST_SIGMA_B))
        },
{
    if sensitivity.lt(Scalar::Rank(LEAST_SENSITIVITY)) {
        tenfold
    } else {
        quotient.min(Scalar::Rank(GREATEST_SIGMA_B))
    }
}

/// The blend with a known volatility, where there is one; else the other one.
pub fn blend_sigma_b(known: bool, blended: Scalar, price_sigma_b: Scalar) -> (r: Scalar)
    ensures
        r == if known {
            blended
        } else {
            price_sigma_b
        },
{
    if known {
        blended
    } else {
        price_sigma_b
    }
}

/// When jumps make a regime.
#[derive(Clone, Copy, Debug, PartialEq, Eq, Structural)]
pub struct JumpRegimeDetector {
    pub jump_count_threshold: usize,
    pub window_secs: i64,
    pub z_threshold: Scalar,
    pub cooldown_secs: i64,
}

impl Default for JumpRegimeDetector {
    fn default() -> (r: JumpRegimeDetector)
        ensures
            r == (JumpRegimeDetector {
                jump_count_threshold: 2,
                window_secs: 300,
                z_threshold: Scalar::Rank(JUMP_Z),
                cooldown_secs: 60,
            }),
    {
        JumpRegimeDetector {
            jump_count_threshold: 2,
            window_secs: 300,
            z_threshold: Scalar::Rank(JUMP_Z),
            cooldown_secs: 60,
        }
    }
}

impl JumpRegimeDetector {
    /// Many jumps, or one not long ago.
    pub open spec fn in_regime(self, recent: usize, last: Option<i64>, now: i64) -> bool {
        recent >= self.jump_count_threshold || (last matches Some(ts) && now - ts < self.cooldown_secs)
    }

    pub fn is_jump_regime(&self, recent_jump_count: usize, last_jump_ts: Option<i64>, now_ts: i64) -> (r:
        bool)
        ensures
            r == self.in_regime(recent_jump_count, last_jump_ts, now_ts),
    {
        if recent_jump_count >= self.jump_count_threshold {
            return true;
        }
        match last_jump_ts {
            Some(ts) => less_than_apart(now_ts, ts, self.cooldown_secs),
            None => false,
        }
    }

    /// What an edge counts for: half in a regime of jumps.
    pub fn edge_multiplier(&self, in_jump_regime: bool) -> (r: Scalar)
        ensures
            r == Scalar::Rank(
                if in_jump_regime {
                    HALF_RANK
                } else {
                    ONE_RANK
                },
            ),
    {
        if in_jump_regime {
            Scalar::Rank(HALF_RANK)
        } else {
            Scalar::Rank(ONE_RANK)
        }
    }
}

/// More jumps, or the same ones seen earlier, never end a regime.
pub proof fn law_regime_is_monotone(
    d: JumpRegimeDetector,
    a: usize,
    b: usize,
    last: Option<i64>,
    early: i64,
    late: i64,
)
    requires
        a <= b,
        early <= late,
        d.in_regime(a, last, late),
    ensures
        d.in_regime(b, last, early),
{
}

/// What the model is told about a market: its volatility, and whether it jumps.
pub open spec fn enhanced_params(reliable: bool, blended: Scalar, derived: Scalar, jumps: usize) -> (
    RnjdParams,
    bool,
) {
    let regime = jumps >= JUMP_LIMIT;
    (
        RnjdParams {
            sigma_b: if reliable {
                blended
            } else {
                derived
            },
            lambda: Scalar::Rank(
                if regime {
                    JUMP_LAMBDA
                } else {
                    0
                },
            ),
            mu_j: Scalar::Rank(0),
            sigma_j: Scalar::Rank(DEFAULT_SIGMA_J),
        },
        regime,
    )
}

/// Sets the model up for a market: a volatility that is tracked reliably is blended
/// in, and two jumps in the window make a regime. The jumps are counted by the
/// caller over the tracker's recent moves.
pub fn enhanced_model(
    tracker: Option<&BeliefVolTracker>,
    market_slug: &str,
    blended: Scalar,
    derived: Scalar,
    jumps: usize,
) -> (r: (RnjdParams, bool))
    ensures
        r == match tracker {
            Some(t) => enhanced_params(
                t.known().contains_key(market_slug@) && t.relies_on(t.known()[market_slug@]),
                blended,
                derived,
                jumps,
            ),
            None => enhanced_params(false, blended, derived, 0),
        },
{
    let reliable = match tracker {
        Some(t) => t.has_reliable_estimate(market_slug),
        None => false,
    };
    let regime = match tracker {
        Some(_) => jumps >= JUMP_LIMIT,
        None => false,
    };
    let mut params = RnjdParams::default();
    params.sigma_b = blend_sigma_b(reliable, blended, derived);
    if regime {
        params.lambda = Scalar::Rank(JUMP_LAMBDA);
    }
    (params, regime)
}

/// The estimate with what is known of jumps: in a regime the reduced confidence
/// counts.
pub fn estimate_p_up_enhanced(
    base: Option<RnjdEstimate>,
    jump_regime: bool,
    reduced_confidence: Scalar,
) -> (r: Option<RnjdEstimate>)
    ensures
        r == match base {
            Some(e) => Some(
                RnjdEstimate {
                    jump_regime,
                    confidence: if jump_regime {
                        reduced_confidence
                    } else {
                        e.confidence
                    },
                    ..e
                },
            ),
            None => None,
        },
{
    match base {
        Some(e) => {
            let mut e = e;
            e.jump_regime = jump_regime;
            if jump_regime {
                e.confidence = reduced_confidence;
            }
            Some(e)
        },
        None => None,
    }
}

/// A rise has a chance where the prices, the volatility, the time and the spread are all
/// above zero; chances stay between one in a thousand and all but one, confidences between a
/// tenth and ninety-five hundredths.
pub proof fn law_rise_has_a_chance_where_it_can_be_priced(
    p_start: Scalar,
    p_now: Scalar,
    sigma: Scalar,
    t_rem: Scalar,
    std_dev: Scalar,
    c: RnjdEstimate,
    r: Option<RnjdEstimate>,
)
    requires
        call_ensures(estimate_p_up_rnjd, (p_start, p_now, sigma, t_rem, std_dev, c), r),
        std_dev is Rank && c.p_up is Rank && c.p_up_raw is Rank && c.confidence is Rank,
    ensures
        ({
            let nought = Scalar::Rank(0);
            let low = Scalar::Rank(R_0_001);
            let high = Scalar::Rank(R_0_999);
            let unsure = Scalar::Rank(R_0_1);
            let sure = Scalar::Rank(R_0_95);
            let e = r->0;
            &&& r is Some <==> nought.spec_lt(p_start) && nought.spec_lt(p_now) && nought.spec_lt(sigma)
                && sigma.spec_is_finite() && nought.spec_lt(t_rem) && t_rem.spec_is_finite() && nought.spec_lt(std_dev)
            &&& r is Some ==> low.spec_le(e.p_up) && e.p_up.spec_le(high) && low.spec_le(e.p_up_raw) && e.p_up_raw.spec_le(
                high,
            ) && unsure.spec_le(e.confidence) && e.confidence.spec_le(sure) && !e.jump_regime && e.drift_correction
                == c.drift_correction
            &&& r is Some && low.spec_le(c.p_up) && c.p_up.spec_le(high) ==> e.p_up == c.p_up
            &&& r is Some && low.spec_le(c.p_up_raw) && c.p_up_raw.spec_le(high) ==> e.p_up_raw == c.p_up_raw
            &&& r is Some && unsure.spec_le(c.confidence) && c.confidence.spec_le(sure) ==> e.confidence == c.confidence
        }),
{
}

/// A chance is held between one in a thousand and all but one.
pub proof fn law_chance_is_held(x: Scalar, r: Scalar)
    requires
        call_ensures(hold_chance, (x,), r),
        x is Rank,
    ensures
        Scalar::Rank(R_0_001).spec_le(r) && r.spec_le(Scalar::Rank(R_0_999)),
        x.spec_lt(Scalar::Rank(R_0_001)) ==> r == Scalar::Rank(R_0_001),
        Scalar::Rank(R_0_999).spec_lt(x) ==> r == Scalar::Rank(R_0_999),
        Scalar::Rank(R_0_001).spec_le(x) && x.spec_le(Scalar::Rank(R_0_999)) ==> r == x,
{
}

/// A volatility that is derived is at most fifty where the price is sensitive, and the known
/// one is blended in where there is one.
pub proof fn law_derived_volatility_is_bounded(
    sensitivity: Scalar,
    tenfold: Scalar,
    quotient: Scalar,
    r: Scalar,
    known: bool,
    blended: Scalar,
    s: Scalar,
)
    requires
        call_ensures(price_vol_to_belief_vol, (sensitivity, tenfold, quotient), r),
        call_ensures(blend_sigma_b, (known, blended, r), s),
        quotient is Rank,
        sensitivity is Rank,
    ensures
        sensitivity.spec_lt(Scalar::Rank(R_0_01)) ==> r == tenfold,
        Scalar::Rank(R_0_01).spec_le(sensitivity) ==> r.spec_le(Scalar::Rank(R_50)) && r.spec_le(quotient),
        Scalar::Rank(R_0_01).spec_le(sensitivity) && quotient.spec_le(Scalar::Rank(R_50)) ==> r == quotient,
        known ==> s == blended,
        !known ==> s == r,
{
}

/// Jumps make a regime where there are enough of them or the last one is not long ago; in a
/// regime an edge counts for half.
pub proof fn law_jumps_make_a_regime(
    d: JumpRegimeDetector,
    recent: usize,
    last: Option<i64>,
    now: i64,
    r: bool,
    factor: Scalar,
)
    requires
        call_ensures(JumpRegimeDetector::is_jump_regime, (&d, recent, last, now), r),
        call_ensures(JumpRegimeDetector::edge_multiplier, (&d, r), factor),
    ensures
        recent >= d.jump_count_threshold ==> r,
        last is Some && now < last->0 + d.cooldown_secs ==> r,
        recent < d.jump_count_threshold && (last is None || now >= last->0 + d.cooldown_secs) ==> !r,
        r ==> factor == Scalar::Rank(HALF_RANK),
        !r ==> factor == Scalar::Rank(ONE_RANK),
{
}

/// Two jumps make a regime with ten jumps a year, fewer none; a market without a tracker has
/// no jumps and its derived volatility.
pub proof fn law_two_jumps_make_a_regime(
    t: BeliefVolTracker,
    slug: &str,
    blended: Scalar,
    derived: Scalar,
    jumps: usize,
    r: (RnjdParams, bool),
    s: (RnjdParams, bool),
)
    requires
        call_ensures(enhanced_model, (Some(&t), slug, blended, derived, jumps), r),
        call_ensures(enhanced_model, (None, slug, blended, derived, jumps), s),
    ensures
        r.1 <==> jumps >= 2,
        r.1 ==> r.0.lambda == Scalar::Rank(R_10),
        !r.1 ==> r.0.lambda == Scalar::Rank(0),
        r.0.mu_j == Scalar::Rank(0) && r.0.sigma_j == Scalar::Rank(R_0_1),
        !t.known().contains_key(slug@) ==> r.0.sigma_b == derived,
        t.known().contains_key(slug@) && t.relies_on(t.known()[slug@]) ==> r.0.sigma_b == blended,
        t.known().contains_key(slug@) && !t.relies_on(t.known()[slug@]) ==> r.0.sigma_b == derived,
        !s.1 && s.0.sigma_b == derived && s.0.lambda == Scalar::Rank(0),
{
}

/// In a regime the reduced confidence counts, and nothing else of an estimate changes.
pub proof fn law_regime_reduces_the_confidence(
    e: RnjdEstimate,
    regime: bool,
    reduced: Scalar,
    r: Option<RnjdEstimate>,
    none: Option<RnjdEstimate>,
)
    requires
        call_ensures(estimate_p_up_enhanced, (Some(e), regime, reduced), r),
        call_ensures(estimate_p_up_enhanced, (None, regime, reduced), none),
    ensures
        none is None,
        r is Some && r->0.jump_regime == regime,
        r->0.p_up == e.p_up && r->0.p_up_raw == e.p_up_raw && r->0.drift_correction == e.drift_correction,
        regime ==> r->0.confidence == reduced,
        !regime ==> r->0.confidence == e.confidence,
{
}

/// Each rank here is that of the binary64 number nearest to the one it is called after.
pub proof fn law_rnjd_ranks_are_nearest()
    ensures
        0x4000_0000_0000_0000 <= DEFAULT_SIGMA_B < 0x4010_0000_0000_0000,
        -1 <= 2 * (1 * (DEFAULT_SIGMA_B - 0x3FF0000000000000) - 2 * 0x8000000000000int) <= 1,
        0x3FB0_0000_0000_0000 <= DEFAULT_SIGMA_J < 0x3FC0_0000_0000_0000,
        -10 <= 2 * (10 * (DEFAULT_SIGMA_J - 0x3FA0000000000000) - 1 * 0x100000000000000int) <= 10,
        0x4020_0000_0000_0000 <= JUMP_LAMBDA < 0x4030_0000_0000_0000,
        -1 <= 2 * (1 * (JUMP_LAMBDA - 0x4010000000000000) - 10 * 0x2000000000000int) <= 1,
        0x4000_0000_0000_0000 <= JUMP_Z < 0x4010_0000_0000_0000,
        -1 <= 2 * (1 * (JUMP_Z - 0x3FF0000000000000) - 3 * 0x8000000000000int) <= 1,
        0x3F80_0000_0000_0000 <= LEAST_SENSITIVITY < 0x3F90_0000_0000_0000,
        -100 <= 2 * (100 * (LEAST_SENSITIVITY - 0x3F70000000000000) - 1 * 0x800000000000000int) <= 100,
        0x4040_0000_0000_0000 <= GREATEST_SIGMA_B < 0x4050_0000_0000_0000,
        -1 <= 2 * (1 * (GREATEST_SIGMA_B - 0x4030000000000000) - 50 * 0x800000000000int) <= 1,
{
}

} // verus!
