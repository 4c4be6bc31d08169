//! The way from a tick to an order on a quarter-hour market. Each step takes in what was
//! asked for last, and says what is asked for next.
use super::engine::{
    choose_updown,
    is_updown_order,
    market_at,
    market_mid,
    updown_choice,
    updown_estimate,
    updown_inputs,
    updown_order,
    updown_params,
    updown_time_left,
    UpDownLoop,
    UpDownReading,
    UpDownTokens,
    VaultEngineConfig,
};
use super::execution::{OrderRequest, OrderSide};
use super::fast15m_reactive::{Pick, Quotes};
use super::hft_paper_strategy::MarketMid;
use super::kelly::{KellyParams, KellyResult};
use super::rnjd::RnjdEstimate;
use super::updown15m::{slug_of, window_start_of, UpDown15mMarket, UpDownAsset};
use crate::base::scalar::{Scalar, HALF_RANK, ONE_RANK};
use vstd::prelude::*;

verus! {

/// A market of a tick.
#[derive(Debug)]
pub struct UpDownMarket {
    pub market: UpDown15mMarket,
    pub slug: String,
    /// When the tick began.
    pub tick: i64,
}

impl UpDownMarket {
    /// The market on an asset whose window holds the instant of its tick.
    pub open spec fn is_on(self, asset: UpDownAsset) -> bool {
        &&& self.market == (UpDown15mMarket {
            asset,
            start_ts: window_start_of(self.tick as int) as i64,
            end_ts: (window_start_of(self.tick as int) + 900) as i64,
        })
        &&& self.slug@ == slug_of(asset.name(), window_start_of(self.tick as int))
    }
}

/// A market with the tokens of both outcomes.
#[derive(Debug)]
pub struct UpDownPair {
    pub of: UpDownMarket,
    pub token_up: String,
    pub token_down: String,
}

/// What follows for a market of a tick.
#[derive(Debug)]
pub enum Opened {
    /// The market was traded too lately.
    Cooling,
    /// The tokens of both outcomes are asked for.
    Lookup(UpDownMarket),
    Known(UpDownPair),
}

/// Opens the market on an asset in a tick that trades.
pub fn open_updown(state: &UpDownLoop, asset: UpDownAsset, now: i64, cfg: &VaultEngineConfig) -> (r: Opened)
    requires
        !state.halted,
        now <= i64::MAX - 900,
    ensures
        ({
            let slug = slug_of(asset.name(), window_start_of(now as int));
            if state.cools_down(slug, now as int, cfg.updown_cooldown_sec as int) {
                r is Cooling
            } else if state.token_cache@.contains_key(slug) {
                &&& r matches Opened::Known(p)
                &&& p.of.is_on(asset)
                &&& p.of.tick == now
                &&& p.token_up@ == state.token_cache@[slug].0@
                &&& p.token_down@ == state.token_cache@[slug].1@
            } else {
                r matches Opened::Lookup(m) && m.is_on(asset) && m.tick == now
            }
        }),
{
    let (market, slug) = market_at(asset, now);
    match state.tokens_of(slug.as_str(), now, cfg.updown_cooldown_sec) {
        UpDownTokens::Cooling => Opened::Cooling,
        UpDownTokens::Known(token_up, token_down) => Opened::Known(
            UpDownPair { of: UpDownMarket { market, slug, tick: now }, token_up, token_down },
        ),
        UpDownTokens::Lookup => Opened::Lookup(UpDownMarket { market, slug, tick: now }),
    }
}

impl UpDownMarket {
    /// Takes the tokens in, empty where there is none: the market goes on where both are
    /// there, and they are remembered.
    pub fn on_tokens(self, state: &mut UpDownLoop, token_up: String, token_down: String) -> (r: Option<UpDownPair>)
        ensures
            r is Some <==> token_up@.len() > 0 && token_down@.len() > 0,
            r matches Some(p) ==> p == (UpDownPair { of: self, token_up, token_down }),
            final(state).halted == old(state).halted,
            final(state).last_trade_ts == old(state).last_trade_ts,
            r is None ==> final(state).token_cache == old(state).token_cache,
            r is Some ==> {
                let kept = final(state).token_cache@[self.slug@];
                &&& final(state).token_cache@ == old(state).token_cache@.insert(self.slug@, kept)
                &&& kept.0@ == token_up@
                &&& kept.1@ == token_down@
            },
    {
        if state.learn_tokens(self.slug.as_str(), token_up.as_str(), token_down.as_str()) {
            Some(UpDownPair { of: self, token_up, token_down })
        } else {
            None
        }
    }
}

/// A market of which the feeds are asked.
#[derive(Debug)]
pub struct UpDownFeeding {
    pub pair: UpDownPair,
    /// The seconds that are left.
    pub t_rem: i64,
}

impl UpDownPair {
    /// Goes on at an instant, where enough time is left.
    pub fn at(self, now: i64) -> (r: Option<UpDownFeeding>)
        ensures
            r is Some <==> self.of.market.end_ts - now >= 15,
            r matches Some(f) ==> f.pair == self && f.t_rem == if self.of.market.end_ts - now > i64::MAX {
                i64::MAX as int
            } else {
                self.of.market.end_ts - now
            },
    {
        match updown_time_left(&self.of.market, now) {
            Some(t_rem) => Some(UpDownFeeding { pair: self, t_rem }),
            None => None,
        }
    }
}

/// A market of which the asks are asked for.
#[derive(Debug)]
pub struct UpDownPricing {
    pub pair: UpDownPair,
    pub t_rem: i64,
    pub p_now: Scalar,
    pub p_start: Scalar,
    pub sigma: Scalar,
}

impl UpDownFeeding {
    /// Takes in what the feeds know: the market goes on where they know all and the oracle
    /// keeps up.
    pub fn on_reading(self, reading: &UpDownReading) -> (r: Option<UpDownPricing>)
        ensures
            r is Some <==> reading.p_now is Some && reading.p_start is Some && reading.sigma is Some
                && !reading.oracle_lags,
            r matches Some(p) ==> p == (UpDownPricing {
                pair: self.pair,
                t_rem: self.t_rem,
                p_now: reading.p_now->0,
                p_start: reading.p_start->0,
                sigma: reading.sigma->0,
            }),
    {
        match updown_inputs(reading) {
            Some((p_now, p_start, sigma)) => Some(
                UpDownPricing { pair: self.pair, t_rem: self.t_rem, p_now, p_start, sigma },
            ),
            None => None,
        }
    }
}

/// A market of which an estimate is asked for.
#[derive(Debug)]
pub struct UpDownJudging {
    pub pair: UpDownPair,
    pub ask_up: Option<Scalar>,
    pub ask_down: Option<Scalar>,
    /// What its middle is worked out from.
    pub mid: MarketMid,
}

impl UpDownPricing {
    /// Takes the asks in.
    pub fn on_asks(self, ask_up: Option<Scalar>, ask_down: Option<Scalar>) -> (r: UpDownJudging)
        ensures
            r == (UpDownJudging {
                pair: self.pair,
                ask_up,
                ask_down,
                mid: match (ask_up, ask_down) {
                    (Some(up), Some(down)) => MarketMid::Between { up, down },
                    (Some(up), None) => MarketMid::Up(up),
                    (None, Some(down)) => MarketMid::OneLess(down),
                    (None, None) => MarketMid::Up(Scalar::Rank(HALF_RANK)),
                },
            }),
    {
        UpDownJudging { pair: self.pair, ask_up, ask_down, mid: market_mid(ask_up, ask_down) }
    }
}

/// A market with an estimate, of which the chances and the edges are asked for.
#[derive(Debug)]
pub struct UpDownQuoting {
    pub pair: UpDownPair,
    pub ask_up: Option<Scalar>,
    pub ask_down: Option<Scalar>,
    pub estimate: RnjdEstimate,
}

impl UpDownJudging {
    /// Takes the estimates in: that of the model, else that of the plain model with half
    /// the confidence.
    pub fn on_estimates(self, model: Option<RnjdEstimate>, plain: Option<Scalar>) -> (r: Option<UpDownQuoting>)
        ensures
            r is Some <==> model is Some || plain is Some,
            r matches Some(q) ==> q == (UpDownQuoting {
                pair: self.pair,
                ask_up: self.ask_up,
                ask_down: self.ask_down,
                estimate: match model {
                    Some(e) => e,
                    None => RnjdEstimate {
                        p_up: plain->0,
                        drift_correction: Scalar::Rank(0),
                        p_up_raw: plain->0,
                        confidence: Scalar::Rank(HALF_RANK),
                        jump_regime: false,
                    },
                },
            }),
    {
        match updown_estimate(model, plain) {
            Some(estimate) => Some(
                UpDownQuoting { pair: self.pair, ask_up: self.ask_up, ask_down: self.ask_down, estimate },
            ),
            None => None,
        }
    }
}

/// The chances of both outcomes, and what they have over their asks.
#[derive(Clone, Copy, Debug, PartialEq, Eq, Structural)]
pub struct UpDownEdges {
    pub p_up: Scalar,
    pub p_down: Scalar,
    pub edge_up: Scalar,
    pub edge_down: Scalar,
    /// Twice the least edge.
    pub doubled_min_edge: Scalar,
}

/// The outcome that is chosen at the asks.
pub open spec fn choice_at(q: UpDownQuoting, e: UpDownEdges, cfg: VaultEngineConfig) -> Option<Pick> {
    updown_choice(
        Quotes {
            ask_up: q.ask_up,
            ask_down: q.ask_down,
            edge_up: e.edge_up,
            edge_down: e.edge_down,
            p_up: e.p_up,
            p_down: e.p_down,
        },
        q.estimate.jump_regime,
        cfg.updown_min_edge,
        e.doubled_min_edge,
    )
}

/// A market with an outcome that was chosen, for which a stake is asked.
#[derive(Debug)]
pub struct UpDownStaking {
    pub pair: UpDownPair,
    pub pick: Pick,
    /// Whether beliefs jump, so that twice the edge was asked for.
    pub jump_regime: bool,
    /// The bounds of the stake.
    pub params: KellyParams,
}

impl UpDownQuoting {
    /// Takes the edges in: an outcome is chosen where its edge is wide enough, and a stake
    /// is asked for where there is money.
    pub fn on_edges(self, e: &UpDownEdges, bankroll: Scalar, cfg: &VaultEngineConfig) -> (r: Option<UpDownStaking>)
        ensures
            r is Some <==> choice_at(self, *e, *cfg) is Some && !bankroll.spec_le(Scalar::Rank(0)),
            r matches Some(s) ==> s == (UpDownStaking {
                pair: self.pair,
                pick: choice_at(self, *e, *cfg)->0,
                jump_regime: self.estimate.jump_regime,
                params: KellyParams {
                    bankroll,
                    kelly_fraction: cfg.updown_kelly_fraction,
                    max_position_pct: cfg.updown_max_position_pct,
                    min_position_usd: Scalar::Rank(ONE_RANK),
                },
            }) && s.wf(e.doubled_min_edge, *cfg),
    {
        let quotes = Quotes {
            ask_up: self.ask_up,
            ask_down: self.ask_down,
            edge_up: e.edge_up,
            edge_down: e.edge_down,
            p_up: e.p_up,
            p_down: e.p_down,
        };
        let jump_regime = self.estimate.jump_regime;
        match choose_updown(&quotes, jump_regime, cfg.updown_min_edge, e.doubled_min_edge) {
            Some(pick) => match updown_params(cfg, bankroll) {
                Some(params) => Some(UpDownStaking { pair: self.pair, pick, jump_regime, params }),
                None => None,
            },
            None => None,
        }
    }
}

/// A market whose order is placed.
#[derive(Debug)]
pub struct UpDownEntering {
    pub pair: UpDownPair,
    pub pick: Pick,
    pub jump_regime: bool,
    pub order: OrderRequest,
}

impl UpDownStaking {
    /// The edge is as wide as it has to be, with twice the least one while beliefs jump.
    pub open spec fn wf(self, doubled_min_edge: Scalar, cfg: VaultEngineConfig) -> bool {
        !self.pick.edge.spec_lt(
            if self.jump_regime {
                doubled_min_edge
            } else {
                cfg.updown_min_edge
            },
        )
    }

    /// What a stake leads to: an order where it is worth it.
    pub open spec fn enters(self, kelly: KellyResult, e: UpDownEntering) -> bool {
        &&& kelly.should_trade
        &&& e.pair == self.pair
        &&& e.pick == self.pick
        &&& e.jump_regime == self.jump_regime
        &&& is_updown_order(
            e.order,
            self.pick,
            kelly.position_size_usd,
            self.pair.of.slug@,
            self.pair.token_up@,
            self.pair.token_down@,
        )
    }

    /// Takes the stake in: the order for the outcome has a fresh identifier.
    pub fn on_stake(self, kelly: &KellyResult) -> (r: Option<UpDownEntering>)
        ensures
            r is Some <==> kelly.should_trade,
            r matches Some(e) ==> self.enters(*kelly, e) && e.order.client_order_id@.len() == 36,
    {
        match updown_order(
            &self.pick,
            kelly,
            self.pair.of.slug.as_str(),
            self.pair.token_up.as_str(),
            self.pair.token_down.as_str(),
        ) {
            Some(order) => Some(
                UpDownEntering { pair: self.pair, pick: self.pick, jump_regime: self.jump_regime, order },
            ),
            None => None,
        }
    }
}

impl UpDownEntering {
    /// Takes in that the order was executed: the market cools down from the instant of its
    /// tick on.
    pub fn on_filled(&self, state: &mut UpDownLoop)
        ensures
            final(state).last_trade_ts@ == old(state).last_trade_ts@.insert(
                self.pair.of.slug@,
                self.pair.of.tick,
            ),
            final(state).token_cache == old(state).token_cache,
            final(state).halted == old(state).halted,
    {
        state.on_traded(self.pair.of.slug.as_str(), self.pair.of.tick);
    }
}

/// An order is earned: it buys the token of the outcome that was chosen at its ask, whose
/// edge is as wide as it has to be, with twice the least one while beliefs jump.
pub proof fn law_updown_order_is_earned(
    s: UpDownStaking,
    kelly: KellyResult,
    e: UpDownEntering,
    doubled_min_edge: Scalar,
    cfg: VaultEngineConfig,
)
    requires
        s.wf(doubled_min_edge, cfg),
        s.enters(kelly, e),
    ensures
        e.order.side == OrderSide::Buy,
        e.order.price == e.pick.price,
        e.order.notional_usdc == kelly.position_size_usd,
        e.order.token_id@ == if e.pick.up {
            e.pair.token_up@
        } else {
            e.pair.token_down@
        },
        !e.pick.edge.spec_lt(
            if e.jump_regime {
                doubled_min_edge
            } else {
                cfg.updown_min_edge
            },
        ),
{
}

/// A market that was traded is not opened again while it cools down.
pub proof fn law_traded_market_cools_down(
    before: UpDownLoop,
    after: UpDownLoop,
    e: UpDownEntering,
    now: int,
    cfg: VaultEngineConfig,
)
    requires
        after.last_trade_ts@ == before.last_trade_ts@.insert(e.pair.of.slug@, e.pair.of.tick),
    ensures
        after.cools_down(e.pair.of.slug@, now, cfg.updown_cooldown_sec as int) <==> now - e.pair.of.tick
            < cfg.updown_cooldown_sec,
{
}

/// A tick opens the market of the window that holds it, with the tokens that are known of it;
/// one that was traded too lately is left.
pub proof fn law_tick_opens_its_window(
    s: UpDownLoop,
    a: UpDownAsset,
    now: i64,
    cfg: VaultEngineConfig,
    r: Opened,
    m: (UpDown15mMarket, String),
)
    requires
        0 <= now <= i64::MAX - 900,
        call_ensures(open_updown, (&s, a, now, &cfg), r),
        call_ensures(market_at, (a, now), m),
    ensures
        ({
            let slug = m.1@;
            let rests = s.last_trade_ts@.contains_key(slug) && now < s.last_trade_ts@[slug] + cfg.updown_cooldown_sec;
            let known = s.token_cache@.contains_key(slug);
            &&& r is Cooling <==> rests
            &&& r is Known <==> !rests && known
            &&& r is Lookup <==> !rests && !known
            &&& r is Known ==> r->Known_0.token_up@ == s.token_cache@[slug].0@ && r->Known_0.token_down@
                == s.token_cache@[slug].1@ && r->Known_0.of.market == m.0 && r->Known_0.of.slug@ == slug
                && r->Known_0.of.tick == now
            &&& r is Lookup ==> r->Lookup_0.market == m.0 && r->Lookup_0.slug@ == slug && r->Lookup_0.tick == now
        }),
{
}

/// A market goes on with both tokens, which are then known for it.
pub proof fn law_market_goes_on_with_both_tokens(
    m: UpDownMarket,
    s: &mut UpDownLoop,
    up: String,
    down: String,
    r: Option<UpDownPair>,
    other: Seq<char>,
)
    requires
        call_ensures(UpDownMarket::on_tokens, (m, s, up, down), r),
        other != m.slug@,
    ensures
        r is Some <==> up@.len() > 0 && down@.len() > 0,
        r is Some ==> r->0.token_up == up && r->0.token_down == down && r->0.of == m,
        r is Some ==> final(s).token_cache@.contains_key(m.slug@) && final(s).token_cache@[m.slug@].0@ == up@ && final(s).token_cache@[m.slug@].1@ == down@,
        final(s).token_cache@.contains_key(other) <==> old(s).token_cache@.contains_key(other),
        final(s).last_trade_ts == old(s).last_trade_ts && final(s).halted == old(s).halted,
{
}

/// A market goes on while fifteen seconds are left, and where the feeds know all and the
/// oracle keeps up.
pub proof fn law_market_goes_on_in_time(
    p: UpDownPair,
    now: i64,
    f: Option<UpDownFeeding>,
    feeding: UpDownFeeding,
    x: UpDownReading,
    r: Option<UpDownPricing>,
)
    requires
        call_ensures(UpDownPair::at, (p, now), f),
        call_ensures(UpDownFeeding::on_reading, (feeding, &x), r),
    ensures
        f is Some <==> now + 15 <= p.of.market.end_ts,
        f is Some ==> f->0.pair == p,
        f is Some && p.of.market.end_ts - now <= i64::MAX ==> now + f->0.t_rem == p.of.market.end_ts,
        r is Some <==> x.p_now is Some && x.p_start is Some && x.sigma is Some && !x.oracle_lags,
        r is Some ==> r->0.p_now == x.p_now->0 && r->0.p_start == x.p_start->0 && r->0.sigma == x.sigma->0 && r->0.t_rem
            == feeding.t_rem && r->0.pair == feeding.pair,
{
}

/// The asks are kept as they are, and an estimate is that of the model before the plain one.
pub proof fn law_asks_and_estimates_are_kept(
    p: UpDownPricing,
    up: Option<Scalar>,
    down: Option<Scalar>,
    j: UpDownJudging,
    model: Option<RnjdEstimate>,
    plain: Option<Scalar>,
    q: Option<UpDownQuoting>,
)
    requires
        call_ensures(UpDownPricing::on_asks, (p, up, down), j),
        call_ensures(UpDownJudging::on_estimates, (j, model, plain), q),
    ensures
        j.ask_up == up && j.ask_down == down && j.pair == p.pair,
        up is Some && down is Some ==> j.mid == (MarketMid::Between { up: up->0, down: down->0 }),
        up is None && down is Some ==> j.mid == MarketMid::OneLess(down->0),
        q is Some <==> model is Some || plain is Some,
        q is Some ==> q->0.ask_up == up && q->0.ask_down == down && q->0.pair == p.pair,
        model is Some ==> q->0.estimate == model->0,
        model is None && plain is Some ==> q->0.estimate.p_up == plain->0 && q->0.estimate.confidence == Scalar::Rank(
            HALF_RANK,
        ),
{
}

/// A stake is asked for the outcome with the greater edge, up where they are equal, if the
/// edge is wide enough, twice as wide while beliefs jump, and there is money.
pub proof fn law_stake_is_asked_for_the_wider_outcome(
    q: UpDownQuoting,
    e: UpDownEdges,
    bankroll: Scalar,
    cfg: VaultEngineConfig,
    r: Option<UpDownStaking>,
)
    requires
        call_ensures(UpDownQuoting::on_edges, (q, &e, bankroll, &cfg), r),
        e.edge_up is Rank && e.edge_down is Rank && bankroll is Rank,
    ensures
        ({
            let bound = if q.estimate.jump_regime {
                e.doubled_min_edge
            } else {
                cfg.updown_min_edge
            };
            let up = q.ask_up is Some && (q.ask_down is None || e.edge_down.spec_le(e.edge_up));
            let down = q.ask_down is Some && (q.ask_up is None || e.edge_up.spec_lt(e.edge_down));
            let wide = (up && !e.edge_up.spec_lt(bound)) || (down && !e.edge_down.spec_lt(bound));
            &&& r is Some <==> wide && Scalar::Rank(0).spec_lt(bankroll)
            &&& r is Some && up ==> r->0.pick.up && r->0.pick.price == q.ask_up->0 && r->0.pick.confidence == e.p_up
                && r->0.pick.edge == e.edge_up
            &&& r is Some && down ==> !r->0.pick.up && r->0.pick.price == q.ask_down->0 && r->0.pick.confidence
                == e.p_down && r->0.pick.edge == e.edge_down
            &&& r is Some ==> r->0.pair == q.pair && r->0.jump_regime == q.estimate.jump_regime && r->0.params.bankroll
                == bankroll && r->0.params.kelly_fraction == cfg.updown_kelly_fraction && r->0.params.max_position_pct
                == cfg.updown_max_position_pct
        }),
{
}

/// A stake that is worth it becomes an order for the token of the chosen outcome.
pub proof fn law_worthy_stake_becomes_an_order(s: UpDownStaking, k: KellyResult, r: Option<UpDownEntering>)
    requires
        call_ensures(UpDownStaking::on_stake, (s, &k), r),
    ensures
        r is Some <==> k.should_trade,
        r is Some ==> {
            let o = r->0.order;
            &&& s.pick.up ==> o.token_id@ == s.pair.token_up@ && o.outcome is Some && o.outcome->0@ == "Up"@
            &&& !s.pick.up ==> o.token_id@ == s.pair.token_down@ && o.outcome is Some && o.outcome->0@ == "Down"@
            &&& o.price == s.pick.price && o.notional_usdc == k.position_size_usd && o.side is Buy
            &&& o.market_slug is Some && o.market_slug->0@ == s.pair.of.slug@
            &&& r->0.pair == s.pair && r->0.pick == s.pick
        },
{
}

/// A filled order rests its market from the instant of its tick, and no other.
pub proof fn law_filled_order_rests_its_market(e: UpDownEntering, s: &mut UpDownLoop, other: Seq<char>)
    requires
        call_ensures(UpDownEntering::on_filled, (&e, s), ()),
        other != e.pair.of.slug@,
    ensures
        final(s).last_trade_ts@.contains_key(e.pair.of.slug@) && final(s).last_trade_ts@[e.pair.of.slug@] == e.pair.of.tick,
        final(s).last_trade_ts@.contains_key(other) <==> old(s).last_trade_ts@.contains_key(other),
        final(s).token_cache == old(s).token_cache && final(s).halted == old(s).halted,
{
}

} // verus!
