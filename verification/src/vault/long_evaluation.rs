//! The way from a signal to an order on a market far from its end. Each step takes in what
//! was asked for last, and says what is asked for next.
use super::engine::VaultEngineConfig;
use super::execution::{OrderAck, OrderRequest, OrderSide};
use super::kelly::{KellyParams, KellyResult};
use super::llm::{DecisionAction, LlmCallOutput, ParsedDecisionDsl};
use super::long_decision::{
    agreed_chance,
    agreed_size,
    agreeing,
    bounded_price,
    can_buy,
    chances,
    effective_price,
    entry_amount,
    entry_name,
    entry_order,
    gate_quote,
    has_figures,
    has_no_figures,
    in_unit,
    is_case,
    is_entry,
    is_record_of,
    law_winner_has_the_majority,
    model_names,
    on_entry_filled,
    on_scout,
    on_scout_edge,
    on_votes,
    panel_models,
    panel_of,
    sizes,
    stake_params,
    tally,
    tokens_of_call,
    vote_count,
    winner,
    within_horizon,
    Agreement,
    LlmDecisionRecord,
    LongCase,
    ModelAnswer,
    PricedBelief,
    Scouted,
    TopQuote,
    Voted,
    PANEL,
    VOTES_NEEDED,
};
use super::long_engine::{utc_day_start, LongEngineState};
use super::records::{is_trade_record, text_view, VaultActivityRecord};
use crate::base::ids::url_id;
use crate::base::scalar::{Scalar, HALF_RANK};
use crate::base::text::{join_views, lowercase, views};
use vstd::prelude::*;

verus! {

/// Whether the budgets of the day at `now` leave room for calls on a market.
pub fn long_can_spend_calls(
    state: &mut LongEngineState,
    market_slug: &str,
    needed_calls: u32,
    cfg: &VaultEngineConfig,
    now: i64,
) -> (r: bool)
    ensures
        old(state).day_reset(*final(state), now as int),
        r == final(state).has_budget(lowercase(market_slug@), needed_calls, *cfg),
{
    state.reset_day_if_needed(now);
    state.can_spend_calls(market_slug, needed_calls, cfg)
}

/// Whether a call was taken out of the budgets of the day at `now`.
pub open spec fn spent_today(
    before: LongEngineState,
    after: LongEngineState,
    key: Seq<char>,
    tokens: u64,
    cfg: VaultEngineConfig,
    now: int,
) -> bool {
    exists|today: LongEngineState| #[trigger]
        before.day_reset(today, now) && today.call_spent(after, key, tokens, cfg)
}

/// The tokens that a call used, none where that is not known.
pub open spec fn used_tokens(call: Option<LlmCallOutput>) -> u64 {
    match call {
        Some(c) => match c.usage.total_tokens {
            Some(t) => t,
            None => 0,
        },
        None => 0,
    }
}

/// Takes a call out of the budgets of the day at `now`.
pub fn long_spend_after_call(
    state: &mut LongEngineState,
    market_slug: &str,
    call: &Option<LlmCallOutput>,
    cfg: &VaultEngineConfig,
    now: i64,
)
    ensures
        spent_today(
            *old(state),
            *final(state),
            lowercase(market_slug@),
            used_tokens(*call),
            *cfg,
            now as int,
        ),
{
    state.reset_day_if_needed(now);
    let ghost today = *state;
    state.spend_call(market_slug, tokens_of_call(call), cfg);
    assert(old(state).day_reset(today, now as int));
}

/// A decision for which the scout is asked.
#[derive(Debug)]
pub struct Scouting {
    pub case: LongCase,
    pub scout_model: String,
}

/// Starts on a market: the scout is asked where the market ends soon enough and the budgets
/// leave room for one call. `tte_days` are the days until it ends.
pub fn begin_evaluation(
    case: LongCase,
    tte_days: Scalar,
    state: &mut LongEngineState,
    cfg: &VaultEngineConfig,
    now: i64,
) -> (r: Option<Scouting>)
    requires
        cfg.long_models.len() > 0,
    ensures
        if cfg.long_max_tte_days.spec_lt(tte_days) {
            r is None && *final(state) == *old(state)
        } else {
            &&& old(state).day_reset(*final(state), now as int)
            &&& r is Some <==> final(state).has_budget(lowercase(case.market_slug@), 1, *cfg)
        },
        r matches Some(s) ==> s.case == case && s.scout_model@ == cfg.long_models[0]@,
{
    if !within_horizon(cfg, tte_days) {
        return None;
    }
    if !long_can_spend_calls(state, case.market_slug.as_str(), 1, cfg, now) {
        return None;
    }
    Some(Scouting { case, scout_model: cfg.long_models[0].clone() })
}

/// Whether an answer says to buy an outcome, and with which probability.
pub open spec fn calls_for(d: ParsedDecisionDsl, case: LongCase, outcome_i: usize, p_true: Scalar) -> bool {
    &&& d.action == DecisionAction::Buy
    &&& d.outcome_in(views(case.outcomes@)) == Some(outcome_i)
    &&& d.p_true == Some(p_true)
}

/// A decision for which the price of the outcome is asked that the scout named.
#[derive(Debug)]
pub struct Pricing {
    pub case: LongCase,
    pub scout_model: String,
    pub scout: ParsedDecisionDsl,
    pub outcome_i: usize,
    pub p_true: Scalar,
}

/// What follows the answer of the scout.
#[derive(Debug)]
pub enum AfterScout {
    Stop,
    Hold(LlmDecisionRecord),
    Price(Pricing),
}

impl Scouting {
    /// Takes the answer of the scout in.
    pub fn on_answer(self, answer: Option<ParsedDecisionDsl>) -> (r: AfterScout)
        requires
            is_case(self.case),
        ensures
            match answer {
                None => r is Stop,
                Some(d) => if d.action != DecisionAction::Buy {
                    &&& r matches AfterScout::Hold(rec)
                    &&& is_record_of(
                        rec,
                        self.case,
                        "HOLD"@,
                        Some(self.scout_model@),
                        None,
                        text_view(d.rationale_hash),
                    )
                    &&& has_no_figures(rec)
                } else {
                    match (d.outcome_in(views(self.case.outcomes@)), d.p_true) {
                        (Some(i), Some(p)) => {
                            &&& r matches AfterScout::Price(q)
                            &&& q.wf()
                            &&& q == (Pricing {
                                case: self.case,
                                scout_model: self.scout_model,
                                scout: d,
                                outcome_i: i,
                                p_true: p,
                            })
                        },
                        _ => r is Stop,
                    }
                },
            },
    {
        match on_scout(&self.case, self.scout_model.as_str(), &answer) {
            Scouted::Nothing => AfterScout::Stop,
            Scouted::Hold(rec) => AfterScout::Hold(rec),
            Scouted::Price { outcome_i, p_true, token_id: _ } => match answer {
                Some(scout) => AfterScout::Price(
                    Pricing { case: self.case, scout_model: self.scout_model, scout, outcome_i, p_true },
                ),
                None => AfterScout::Stop,
            },
        }
    }
}

/// What a price comes to: the ask with the fees and the slippage, and what a probability
/// has over the price with all costs.
#[derive(Clone, Copy, Debug, PartialEq, Eq, Structural)]
pub struct PriceFigures {
    pub costs: Scalar,
    pub edge: Scalar,
}

/// A belief at a quote.
pub open spec fn belief_at(p_true: Scalar, bid: Option<Scalar>, q: TopQuote, f: PriceFigures) -> PricedBelief {
    PricedBelief { p_true, bid, ask: q.ask->0, p_eff: bounded_price(f.costs), edge: f.edge }
}

/// A decision for which the other models are asked.
#[derive(Debug)]
pub struct Polling {
    pub case: LongCase,
    pub outcome_i: usize,
    pub belief: PricedBelief,
    /// The models that are asked beside the scout.
    pub panel: Vec<String>,
    /// The answers so far; the first is that of the scout.
    pub answers: Vec<ModelAnswer>,
}

/// What follows the price of the outcome that the scout named.
#[derive(Debug)]
pub enum AfterPrice {
    Stop,
    Hold(LlmDecisionRecord),
    Ask(Polling),
}

impl Pricing {
    pub open spec fn wf(self) -> bool {
        &&& is_case(self.case)
        &&& self.outcome_i < 2
        &&& calls_for(self.scout, self.case, self.outcome_i, self.p_true)
    }

    /// The token whose price is asked for.
    pub fn token(&self) -> (r: &String)
        requires
            self.wf(),
        ensures
            r@ == self.case.clob_token_ids[self.outcome_i as int]@,
    {
        &self.case.clob_token_ids[self.outcome_i]
    }

    /// Takes the price in: the other models are asked where the outcome can be bought, the
    /// edge is wide enough, and the budgets leave room for all of them.
    pub fn on_quote(
        self,
        quote: &TopQuote,
        f: &PriceFigures,
        state: &mut LongEngineState,
        cfg: &VaultEngineConfig,
        now: i64,
    ) -> (r: AfterPrice)
        requires
            self.wf(),
        ensures
            ({
                let b = belief_at(self.p_true, quote.bid, *quote, *f);
                if !can_buy(*quote, *cfg) {
                    r is Stop && *final(state) == *old(state)
                } else if f.edge.spec_lt(cfg.long_min_edge) {
                    &&& *final(state) == *old(state)
                    &&& r matches AfterPrice::Hold(rec)
                    &&& is_record_of(
                        rec,
                        self.case,
                        "HOLD"@,
                        Some(self.scout_model@),
                        None,
                        text_view(self.scout.rationale_hash),
                    )
                    &&& has_figures(rec, self.case, self.outcome_i as int, b, self.scout.size_mult)
                } else {
                    &&& old(state).day_reset(*final(state), now as int)
                    &&& if final(state).has_budget(lowercase(self.case.market_slug@), PANEL as u32, *cfg) {
                        &&& r matches AfterPrice::Ask(p)
                        &&& p.wf(*cfg)
                        &&& p.case == self.case
                        &&& p.outcome_i == self.outcome_i
                        &&& p.belief == b
                        &&& p.answers@ == seq![
                            ModelAnswer { model: self.scout_model, answer: Some(self.scout) },
                        ]
                    } else {
                        r is Stop
                    }
                }
            }),
    {
        let (ask, _spread) = match gate_quote(quote, cfg) {
            Some(q) => q,
            None => {
                return AfterPrice::Stop;
            },
        };
        let belief = PricedBelief {
            p_true: self.p_true,
            bid: quote.bid,
            ask,
            p_eff: effective_price(f.costs),
            edge: f.edge,
        };
        match on_scout_edge(
            &self.case,
            self.scout_model.as_str(),
            &self.scout,
            self.outcome_i,
            &belief,
            cfg,
        ) {
            Some(rec) => {
                return AfterPrice::Hold(rec);
            },
            None => {},
        }
        if !long_can_spend_calls(state, self.case.market_slug.as_str(), PANEL as u32, cfg, now) {
            return AfterPrice::Stop;
        }
        let mut answers: Vec<ModelAnswer> = Vec::new();
        answers.push(ModelAnswer { model: self.scout_model, answer: Some(self.scout) });
        AfterPrice::Ask(
            Polling {
                case: self.case,
                outcome_i: self.outcome_i,
                belief,
                panel: panel_models(cfg),
                answers,
            },
        )
    }
}

/// What the scout said.
pub open spec fn scout_of(answers: Seq<ModelAnswer>) -> ParsedDecisionDsl {
    answers[0].answer->0
}

/// Whether the first answer is that of a scout who says to buy an outcome.
pub open spec fn starts_with_scout(
    answers: Seq<ModelAnswer>,
    case: LongCase,
    outcome_i: usize,
    p_true: Scalar,
) -> bool {
    &&& answers.len() > 0
    &&& answers[0].answer is Some
    &&& calls_for(scout_of(answers), case, outcome_i, p_true)
}

/// A decision for which the price of the outcome is asked that won.
#[derive(Debug)]
pub struct Weighing {
    pub case: LongCase,
    pub outcome_i: usize,
    pub p_true: Scalar,
    pub answers: Vec<ModelAnswer>,
    pub agreed: Agreement,
}

/// What follows the answers of all models.
#[derive(Debug)]
pub enum AfterVotes {
    Hold(LlmDecisionRecord),
    Price(Weighing),
}

/// Whether enough models agree, and on what.
pub open spec fn is_agreement(g: Agreement, answers: Seq<ModelAnswer>, case: LongCase) -> bool {
    let o = views(case.outcomes@);
    let (w, n) = winner(vote_count(answers, o, 0), vote_count(answers, o, 1));
    let a = agreeing(answers, o, w);
    &&& n >= VOTES_NEEDED
    &&& g.win_i == w
    &&& g.win_votes == n
    &&& views(g.models@) == model_names(a)
    &&& g.p_list@ == chances(a)
    &&& g.size_mults@ == sizes(a)
}

/// How many votes the outcome has that has the most.
pub open spec fn most_votes(answers: Seq<ModelAnswer>, case: LongCase) -> nat {
    let o = views(case.outcomes@);
    winner(vote_count(answers, o, 0), vote_count(answers, o, 1)).1
}

impl Polling {
    pub open spec fn wf(self, cfg: VaultEngineConfig) -> bool {
        &&& is_case(self.case)
        &&& self.outcome_i < 2
        &&& starts_with_scout(self.answers@, self.case, self.outcome_i, self.belief.p_true)
        &&& !self.belief.edge.spec_lt(cfg.long_min_edge)
        &&& views(self.panel@) == panel_of(views(cfg.long_models@))
        &&& self.answers.len() <= self.panel.len() + 1
        &&& forall|i: int|
            1 <= i < self.answers.len() ==> (#[trigger] self.answers[i]).model@ == self.panel[i - 1]@
    }

    /// Whether all models have answered.
    pub open spec fn is_over(self) -> bool {
        self.answers.len() == self.panel.len() + 1
    }

    /// The model that is asked next, if any is left.
    pub fn next_model(&self, cfg: &VaultEngineConfig) -> (r: Option<&String>)
        requires
            self.wf(*cfg),
        ensures
            r is None <==> self.is_over(),
            r matches Some(m) ==> m@ == self.panel[self.answers.len() - 1]@,
    {
        if self.answers.len() <= self.panel.len() {
            Some(&self.panel[self.answers.len() - 1])
        } else {
            None
        }
    }

    /// Takes the answer of the next model in.
    pub fn on_answer(&mut self, answer: Option<ParsedDecisionDsl>, cfg: &VaultEngineConfig)
        requires
            old(self).wf(*cfg),
            !old(self).is_over(),
        ensures
            final(self).wf(*cfg),
            *final(self) == (Polling { answers: final(self).answers, ..*old(self) }),
            final(self).answers@.drop_last() == old(self).answers@,
            final(self).answers.len() == old(self).answers.len() + 1,
            final(self).answers@.last().answer == answer,
    {
        let model = self.panel[self.answers.len() - 1].clone();
        self.answers.push(ModelAnswer { model, answer });
        assert(self.answers@.drop_last() =~= old(self).answers@);
        assert(self.answers@[0] == old(self).answers@[0]);
    }

    /// Takes the votes in: the price of the outcome that won is asked for, with three votes
    /// or more.
    pub fn on_votes(self, cfg: &VaultEngineConfig) -> (r: AfterVotes)
        requires
            self.wf(*cfg),
            self.is_over(),
        ensures
            if most_votes(self.answers@, self.case) < VOTES_NEEDED {
                let scout = scout_of(self.answers@);
                &&& r matches AfterVotes::Hold(rec)
                &&& is_record_of(
                    rec,
                    self.case,
                    "HOLD"@,
                    None,
                    Some(join_views(views(scout.flags@), ","@)),
                    text_view(scout.rationale_hash),
                )
                &&& has_figures(rec, self.case, self.outcome_i as int, self.belief, scout.size_mult)
            } else {
                &&& r matches AfterVotes::Price(w)
                &&& w.wf()
                &&& w.case == self.case
                &&& w.outcome_i == self.outcome_i
                &&& w.p_true == self.belief.p_true
                &&& w.answers == self.answers
            },
    {
        assert(self.panel.len() == views(self.panel@).len());
        let voted = on_votes(
            &self.case,
            self.answers[0].answer.as_ref().unwrap(),
            self.outcome_i,
            &self.belief,
            &self.answers,
        );
        match voted {
            Voted::Hold(rec) => AfterVotes::Hold(rec),
            Voted::Agreed(agreed) => AfterVotes::Price(
                Weighing {
                    case: self.case,
                    outcome_i: self.outcome_i,
                    p_true: self.belief.p_true,
                    answers: self.answers,
                    agreed,
                },
            ),
        }
    }
}

/// The mean probability and the mean size of the models that agree.
#[derive(Clone, Copy, Debug, PartialEq, Eq, Structural)]
pub struct PanelMeans {
    pub chance: Scalar,
    pub size: Scalar,
}

/// A decision for which a stake is worked out.
#[derive(Debug)]
pub struct Staking {
    pub case: LongCase,
    pub answers: Vec<ModelAnswer>,
    pub agreed: Agreement,
    pub belief: PricedBelief,
    pub size_mult: Scalar,
    /// The bounds of the stake.
    pub params: KellyParams,
}

impl Weighing {
    pub open spec fn wf(self) -> bool {
        &&& is_case(self.case)
        &&& starts_with_scout(self.answers@, self.case, self.outcome_i, self.p_true)
        &&& self.answers.len() <= PANEL + 1
        &&& is_agreement(self.agreed, self.answers@, self.case)
    }

    /// The token whose price is asked for.
    pub fn token(&self) -> (r: &String)
        requires
            self.wf(),
        ensures
            r@ == self.case.clob_token_ids[self.agreed.win_i as int]@,
    {
        &self.case.clob_token_ids[self.agreed.win_i]
    }

    /// The probability of the models that agree, or the one of the scout where none has
    /// one.
    pub open spec fn agreed_p(self, means: PanelMeans) -> Scalar {
        if self.agreed.p_list.len() > 0 {
            means.chance
        } else {
            self.p_true
        }
    }

    pub fn chance(&self, means: &PanelMeans) -> (r: Scalar)
        ensures
            r == self.agreed_p(*means),
    {
        agreed_chance(&self.agreed, means.chance, self.p_true)
    }

    /// The size of the models that agree, or the one of the scout where none has one, or
    /// one half; between zero and one.
    pub open spec fn size_of(self, means: PanelMeans) -> Scalar {
        in_unit(
            if self.agreed.size_mults.len() > 0 {
                means.size
            } else {
                match scout_of(self.answers@).size_mult {
                    Some(s) => s,
                    None => Scalar::Rank(HALF_RANK),
                }
            },
        )
    }

    /// Takes the price in: a stake is worked out where the outcome can be bought, the edge
    /// is wide enough, and there is money. `f` is told for the probability of the models
    /// that agree.
    pub fn on_quote(
        self,
        means: &PanelMeans,
        quote: &TopQuote,
        f: &PriceFigures,
        bankroll: Scalar,
        cfg: &VaultEngineConfig,
    ) -> (r: Option<Staking>)
        requires
            self.wf(),
        ensures
            r is Some <==> can_buy(*quote, *cfg) && !f.edge.spec_lt(cfg.long_min_edge)
                && !bankroll.spec_le(Scalar::Rank(0)),
            r matches Some(s) ==> {
                &&& s.wf(*cfg)
                &&& s.case == self.case
                &&& s.answers == self.answers
                &&& s.agreed == self.agreed
                &&& s.belief == belief_at(self.agreed_p(*means), None, *quote, *f)
                &&& s.size_mult == self.size_of(*means)
                &&& s.params == (KellyParams {
                    bankroll,
                    kelly_fraction: cfg.long_kelly_fraction,
                    max_position_pct: cfg.long_max_position_pct,
                    min_position_usd: cfg.long_min_trade_usd,
                })
            },
    {
        let (ask, _spread) = match gate_quote(quote, cfg) {
            Some(q) => q,
            None => {
                return None;
            },
        };
        let params = match stake_params(cfg, f.edge, bankroll) {
            Some(p) => p,
            None => {
                return None;
            },
        };
        let size_mult = agreed_size(
            &self.agreed,
            means.size,
            self.answers[0].answer.as_ref().unwrap().size_mult,
        );
        let belief = PricedBelief {
            p_true: self.chance(means),
            bid: None,
            ask,
            p_eff: effective_price(f.costs),
            edge: f.edge,
        };
        Some(
            Staking { case: self.case, answers: self.answers, agreed: self.agreed, belief, size_mult, params },
        )
    }
}

/// A decision whose order is placed.
#[derive(Debug)]
pub struct Entering {
    pub case: LongCase,
    pub answers: Vec<ModelAnswer>,
    pub agreed: Agreement,
    pub belief: PricedBelief,
    pub size_mult: Scalar,
    pub order: OrderRequest,
}

impl Staking {
    pub open spec fn wf(self, cfg: VaultEngineConfig) -> bool {
        &&& is_case(self.case)
        &&& 0 < self.answers.len() <= PANEL + 1
        &&& self.answers[0].answer is Some
        &&& scout_of(self.answers@).action == DecisionAction::Buy
        &&& is_agreement(self.agreed, self.answers@, self.case)
        &&& !self.belief.edge.spec_lt(cfg.long_min_edge)
    }

    /// Takes the stake in: an order is placed where the stake is worth it. `scaled` is the
    /// stake times the size and what the dispersion leaves.
    pub fn on_stake(self, kelly: &KellyResult, scaled: Scalar, cfg: &VaultEngineConfig) -> (r: Option<Entering>)
        requires
            self.wf(*cfg),
        ensures
            ({
                let amount = entry_amount(scaled, self.params.bankroll, *cfg);
                &&& r is Some <==> kelly.should_trade && !amount.spec_lt(cfg.long_min_trade_usd)
                &&& r matches Some(e) ==> {
                    &&& e.wf(*cfg)
                    &&& e == (Entering {
                        case: self.case,
                        answers: self.answers,
                        agreed: self.agreed,
                        belief: self.belief,
                        size_mult: self.size_mult,
                        order: e.order,
                    })
                    &&& e.order.notional_usdc == amount
                }
            }),
    {
        match entry_order(
            &self.case,
            self.agreed.win_i,
            self.belief.ask,
            kelly,
            scaled,
            self.params.bankroll,
            cfg,
        ) {
            Some(order) => Some(
                Entering {
                    case: self.case,
                    answers: self.answers,
                    agreed: self.agreed,
                    belief: self.belief,
                    size_mult: self.size_mult,
                    order,
                },
            ),
            None => None,
        }
    }
}

impl Entering {
    pub open spec fn wf(self, cfg: VaultEngineConfig) -> bool {
        let win_i = self.agreed.win_i as int;
        &&& is_case(self.case)
        &&& 0 < self.answers.len() <= PANEL + 1
        &&& self.answers[0].answer is Some
        &&& scout_of(self.answers@).action == DecisionAction::Buy
        &&& is_agreement(self.agreed, self.answers@, self.case)
        &&& !self.belief.edge.spec_lt(cfg.long_min_edge)
        &&& !self.order.notional_usdc.spec_lt(cfg.long_min_trade_usd)
        &&& is_entry(
            self.order,
            self.case,
            win_i,
            self.belief.ask,
            self.order.notional_usdc,
            url_id(entry_name(self.case.decision_id@, self.case.clob_token_ids[win_i]@, self.case.now as int)),
        )
    }

    /// Takes in that the order was executed: what is written to the log and of the
    /// decision. The market then cools down.
    pub fn on_filled(
        self,
        ack: &OrderAck,
        shares: Scalar,
        state: &mut LongEngineState,
        cfg: &VaultEngineConfig,
    ) -> (r: (VaultActivityRecord, LlmDecisionRecord))
        requires
            self.wf(*cfg),
        ensures
            ({
                let scout = scout_of(self.answers@);
                let win_i = self.agreed.win_i as int;
                &&& is_trade_record(
                    r.0,
                    *ack,
                    shares,
                    self.order.token_id@,
                    Some(self.case.market_slug@),
                    Some(self.case.outcomes[win_i]@),
                    OrderSide::Buy,
                    "LONG"@,
                    Some(self.case.decision_id@),
                )
                &&& is_record_of(
                    r.1,
                    self.case,
                    "BUY"@,
                    Some(join_views(views(self.agreed.models@), ","@)),
                    Some(join_views(views(scout.flags@), ","@)),
                    text_view(scout.rationale_hash),
                )
                &&& has_figures(
                    r.1,
                    self.case,
                    win_i,
                    (PricedBelief { bid: None, ..self.belief }),
                    Some(self.size_mult),
                )
                &&& *final(state) == (LongEngineState { markets: final(state).markets, ..*old(state) })
                &&& final(state).markets@ == old(state).markets_after_trade(
                    lowercase(self.case.market_slug@),
                    self.case.now,
                )
            }),
    {
        on_entry_filled(
            &self.case,
            state,
            self.answers[0].answer.as_ref().unwrap(),
            &self.agreed,
            &self.order,
            ack,
            shares,
            &self.belief,
            self.size_mult,
        )
    }
}

/// An order is earned: among four models, at least three say to buy the outcome whose token
/// is ordered, more than say to buy the other one; the order is at the ask over which the
/// probability has its edge; and it is worth no less than the least trade.
pub proof fn law_entry_is_earned(e: Entering, cfg: VaultEngineConfig)
    requires
        e.wf(cfg),
    ensures
        ({
            let o = views(e.case.outcomes@);
            let i = e.agreed.win_i as int;
            &&& 0 <= i < 2
            &&& vote_count(e.answers@, o, i) >= VOTES_NEEDED
            &&& vote_count(e.answers@, o, i) > vote_count(e.answers@, o, 1 - i)
            &&& e.order.token_id@ == e.case.clob_token_ids[i]@
            &&& e.order.side == OrderSide::Buy
            &&& e.order.price == e.belief.ask
            &&& !e.belief.edge.spec_lt(cfg.long_min_edge)
            &&& !e.order.notional_usdc.spec_lt(cfg.long_min_trade_usd)
        }),
{
    law_winner_has_the_majority(e.answers@, views(e.case.outcomes@));
}

/// Calls may be made where the budgets of the day of the instant leave room; a new day starts
/// them anew before they are looked at.
pub proof fn law_budgets_are_those_of_the_day(
    s: &mut LongEngineState,
    slug: &str,
    n: u32,
    cfg: VaultEngineConfig,
    now: i64,
    r: bool,
    day: i64,
    after: LongEngineState,
    again: bool,
)
    requires
        call_ensures(long_can_spend_calls, (s, slug, n, &cfg, now), r),
        call_ensures(utc_day_start, (now,), day),
        after == *final(s),
        call_ensures(LongEngineState::can_spend_calls, (&after, slug, n, &cfg), again),
    ensures
        r == again,
        after.budget_day_start_ts == day,
        old(s).budget_day_start_ts != day ==> after.calls_today == 0 && after.tokens_today == 0,
        old(s).budget_day_start_ts == day ==> after == *old(s),
{
}

/// A call is one call of the day and costs the tokens that it told, none where it told none.
pub proof fn law_call_costs_its_tokens(
    s: &mut LongEngineState,
    slug: &str,
    call: Option<LlmCallOutput>,
    cfg: VaultEngineConfig,
    now: i64,
    day: i64,
    tokens: u64,
)
    requires
        call_ensures(long_spend_after_call, (s, slug, &call, &cfg, now), ()),
        call_ensures(utc_day_start, (now,), day),
        call_ensures(tokens_of_call, (&call,), tokens),
        old(s).budget_day_start_ts == day,
        old(s).calls_today < u32::MAX,
    ensures
        final(s).calls_today == old(s).calls_today + 1,
        old(s).tokens_today + tokens <= cfg.long_max_tokens_per_day ==> final(s).tokens_today == old(s).tokens_today
            + tokens,
        old(s).tokens_today + tokens > cfg.long_max_tokens_per_day ==> final(s).tokens_today
            == cfg.long_max_tokens_per_day,
        call is Some && call->0.usage.total_tokens is Some ==> tokens == call->0.usage.total_tokens->0,
{
}

/// The scout is the first model, and is asked where the market ends soon enough and one call
/// is left.
pub proof fn law_first_model_scouts(
    case: LongCase,
    days: Scalar,
    s: &mut LongEngineState,
    cfg: VaultEngineConfig,
    now: i64,
    r: Option<Scouting>,
    after: LongEngineState,
    slug: &str,
    room: bool,
)
    requires
        call_ensures(begin_evaluation, (case, days, s, &cfg, now), r),
        after == *final(s),
        slug@ == case.market_slug@,
        call_ensures(LongEngineState::can_spend_calls, (&after, slug, 1, &cfg), room),
        days is Rank && cfg.long_max_tte_days is Rank,
    ensures
        r is Some <==> days.spec_le(cfg.long_max_tte_days) && room,
        cfg.long_max_tte_days.spec_lt(days) ==> r is None && after == *old(s),
        r is Some ==> r->0.case == case && r->0.scout_model@ == cfg.long_models[0]@,
{
}

/// The scout's answer to buy an outcome leads to the price of its token.
pub proof fn law_scout_leads_to_its_price(
    sc: Scouting,
    answer: Option<ParsedDecisionDsl>,
    r: AfterScout,
)
    requires
        is_case(sc.case),
        call_ensures(Scouting::on_answer, (sc, answer), r),
    ensures
        ({
            let d = answer->0;
            let pick = d.outcome_in(views(sc.case.outcomes@));
            &&& r is Hold <==> answer is Some && !(d.action is Buy)
            &&& r is Price <==> answer is Some && d.action is Buy && pick is Some && d.p_true is Some
            &&& r is Price ==> r->Price_0.outcome_i == pick->0 && r->Price_0.p_true == d.p_true->0 && r->Price_0.scout == d
                && r->Price_0.case == sc.case && r->Price_0.scout_model == sc.scout_model
            &&& r is Hold ==> r->Hold_0.action@ == "HOLD"@ && r->Hold_0.decision_id@ == sc.case.decision_id@
                && r->Hold_0.edge is None
        }),
{
}

/// The other models are asked where the outcome can be bought, its edge is wide enough and
/// three calls are left; a narrow edge is held and written down.
pub proof fn law_panel_is_asked_for_a_wide_edge(
    p: Pricing,
    q: TopQuote,
    f: PriceFigures,
    s: &mut LongEngineState,
    cfg: VaultEngineConfig,
    now: i64,
    r: AfterPrice,
    gate: Option<(Scalar, Scalar)>,
    after: LongEngineState,
    slug: &str,
    room: bool,
)
    requires
        p.wf(),
        call_ensures(Pricing::on_quote, (p, &q, &f, s, &cfg, now), r),
        call_ensures(gate_quote, (&q, &cfg), gate),
        after == *final(s),
        slug@ == p.case.market_slug@,
        call_ensures(LongEngineState::can_spend_calls, (&after, slug, 3, &cfg), room),
    ensures
        ({
            let wide = !f.edge.spec_lt(cfg.long_min_edge);
            &&& gate is None ==> r is Stop
            &&& r is Hold <==> gate is Some && !wide
            &&& r is Ask <==> gate is Some && wide && room
            &&& r is Hold ==> r->Hold_0.action@ == "HOLD"@ && r->Hold_0.edge == Some(f.edge) && r->Hold_0.ask == Some(
                (gate->0).0,
            ) && r->Hold_0.p_true == Some(p.p_true)
            &&& r is Ask ==> r->Ask_0.belief.p_true == p.p_true && r->Ask_0.belief.ask == (gate->0).0
                && r->Ask_0.belief.edge == f.edge && r->Ask_0.belief.bid == q.bid && r->Ask_0.outcome_i == p.outcome_i
                && r->Ask_0.case == p.case && r->Ask_0.answers.len() == 1 && r->Ask_0.answers[0].model == p.scout_model
                && r->Ask_0.answers[0].answer == Some(p.scout)
        }),
{
}

/// The models of the panel answer one after the other, each under its own name.
pub proof fn law_panel_answers_in_turn(
    p: &mut Polling,
    a: Option<ParsedDecisionDsl>,
    cfg: VaultEngineConfig,
    before: Polling,
    m: Option<&String>,
)
    requires
        old(p).wf(cfg),
        !old(p).is_over(),
        before == *old(p),
        call_ensures(Polling::next_model, (&before, &cfg), m),
        call_ensures(Polling::on_answer, (p, a, &cfg), ()),
    ensures
        m is Some,
        final(p).answers.len() == old(p).answers.len() + 1,
        final(p).answers@.last().answer == a,
        final(p).answers@.last().model@ == m->0@,
        final(p).answers@.drop_last() == old(p).answers@,
        final(p).case == old(p).case && final(p).belief == old(p).belief,
{
    let n = final(p).answers.len() - 1;
    assert(final(p).answers[n].model@ == final(p).panel[n - 1]@);
}

/// Three votes for an outcome lead to the price of its token, fewer are held.
pub proof fn law_three_votes_lead_on(
    p: Polling,
    cfg: VaultEngineConfig,
    r: AfterVotes,
    votes: (usize, usize),
)
    requires
        p.wf(cfg),
        p.is_over(),
        call_ensures(Polling::on_votes, (p, &cfg), r),
        call_ensures(tally, (&p.answers, &p.case.outcomes), votes),
    ensures
        r is Price <==> votes.0 >= 3 || votes.1 >= 3,
        r is Price && votes.0 >= votes.1 ==> r->Price_0.agreed.win_i == 0 && r->Price_0.agreed.win_votes == votes.0,
        r is Price && votes.0 < votes.1 ==> r->Price_0.agreed.win_i == 1 && r->Price_0.agreed.win_votes == votes.1,
        r is Price ==> r->Price_0.p_true == p.belief.p_true && r->Price_0.answers == p.answers && r->Price_0.case
            == p.case,
        r is Hold ==> r->Hold_0.action@ == "HOLD"@ && r->Hold_0.edge == Some(p.belief.edge),
{
}

/// The outcome that won is staked on where it can be bought, with the mean of those who agree
/// and the bounds of the strategy.
pub proof fn law_winner_is_staked_on(
    w: Weighing,
    means: PanelMeans,
    q: TopQuote,
    f: PriceFigures,
    bankroll: Scalar,
    cfg: VaultEngineConfig,
    r: Option<Staking>,
    gate: Option<(Scalar, Scalar)>,
    p: Scalar,
    token: &String,
)
    requires
        w.wf(),
        call_ensures(Weighing::on_quote, (w, &means, &q, &f, bankroll, &cfg), r),
        call_ensures(gate_quote, (&q, &cfg), gate),
        call_ensures(Weighing::chance, (&w, &means), p),
        call_ensures(Weighing::token, (&w,), token),
        bankroll is Rank,
    ensures
        token@ == w.case.clob_token_ids[w.agreed.win_i as int]@,
        w.agreed.p_list.len() > 0 ==> p == means.chance,
        w.agreed.p_list.len() == 0 ==> p == w.p_true,
        r is Some <==> gate is Some && !f.edge.spec_lt(cfg.long_min_edge) && Scalar::Rank(0).spec_lt(bankroll),
        r is Some ==> r->0.belief.p_true == p && r->0.belief.ask == (gate->0).0 && r->0.belief.edge == f.edge
            && r->0.belief.bid is None && r->0.params.bankroll == bankroll && r->0.params.kelly_fraction
            == cfg.long_kelly_fraction && r->0.params.max_position_pct == cfg.long_max_position_pct
            && r->0.params.min_position_usd == cfg.long_min_trade_usd && r->0.agreed == w.agreed && r->0.case == w.case,
{
}

/// A stake becomes an order for the token of the outcome that won, no greater than the stake,
/// the bankroll and the greatest trade.
pub proof fn law_long_stake_becomes_its_order(
    s: Staking,
    k: KellyResult,
    scaled: Scalar,
    cfg: VaultEngineConfig,
    r: Option<Entering>,
)
    requires
        s.wf(cfg),
        call_ensures(Staking::on_stake, (s, &k, scaled, &cfg), r),
        scaled is Rank && s.params.bankroll is Rank && cfg.long_max_trade_usd is Rank && cfg.long_min_trade_usd is Rank,
    ensures
        r is Some <==> k.should_trade && cfg.long_min_trade_usd.spec_le(scaled) && cfg.long_min_trade_usd.spec_le(
            s.params.bankroll,
        ) && cfg.long_min_trade_usd.spec_le(cfg.long_max_trade_usd),
        r is Some ==> {
            let o = r->0.order;
            &&& o.token_id@ == s.case.clob_token_ids[s.agreed.win_i as int]@
            &&& o.side is Buy && o.price == s.belief.ask
            &&& o.notional_usdc.spec_le(scaled) && o.notional_usdc.spec_le(s.params.bankroll) && o.notional_usdc.spec_le(
                cfg.long_max_trade_usd,
            )
            &&& r->0.belief == s.belief && r->0.size_mult == s.size_mult && r->0.agreed == s.agreed
        },
{
}

/// A filled entry is written down as it was, and its market rests.
pub proof fn law_filled_long_entry_is_written_down(
    e: Entering,
    ack: OrderAck,
    shares: Scalar,
    s: &mut LongEngineState,
    cfg: VaultEngineConfig,
    r: (VaultActivityRecord, LlmDecisionRecord),
)
    requires
        e.wf(cfg),
        call_ensures(Entering::on_filled, (e, &ack, shares, s, &cfg), r),
    ensures
        r.0.id@ == ack.order_id@ && r.0.price == Some(ack.filled_price) && r.0.shares == Some(shares) && text_view(
            r.0.side,
        ) == Some("BUY"@) && text_view(r.0.strategy) == Some("LONG"@) && text_view(r.0.token_id) == Some(
            e.case.clob_token_ids[e.agreed.win_i as int]@,
        ),
        r.1.action@ == "BUY"@ && r.1.edge == Some(e.belief.edge) && r.1.ask == Some(e.belief.ask) && r.1.p_true == Some(
            e.belief.p_true,
        ) && r.1.size_mult == Some(e.size_mult),
        old(s).markets@.contains_key(lowercase(e.case.market_slug@)) ==> final(s).markets@[lowercase(
            e.case.market_slug@,
        )].last_trade_at == e.case.now,
{
}

} // verus!
