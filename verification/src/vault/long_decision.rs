//! The decisions on markets far from their end: from a signal over the votes of models to
//! an order, and from a position to its sale.
use super::engine::VaultEngineConfig;
use super::execution::{OrderAck, OrderRequest, OrderSide, TimeInForce};
use super::kelly::{KellyParams, KellyResult};
use super::latency_arb::held_between;
use super::llm::{DecisionAction, LlmCallOutput, ParsedDecisionDsl};
use super::long_engine::{expiry_of, parse_expiry_ts, GammaMarketLookup, LongEngineState};
use super::records::{
    is_trade_record,
    text_copy,
    text_view,
    trade_record,
    VaultActivityRecord,
};
use crate::base::clock::{div_toward_zero, toward_zero};
use crate::base::ids::{fresh_id, named_id, url_id};
use crate::base::ranks::{R_0_0001, R_0_9999, R_999999};
use crate::base::scalar::{Scalar, HALF_RANK, ONE_RANK};
use crate::base::text::{
    decimal,
    decimal_i64,
    decimal_u64,
    join,
    join_views,
    joined,
    lowercase,
    to_lower,
    views,
};
use crate::models::MarketSignal;
use vstd::prelude::*;

verus! {

/// A decision under way.
#[derive(Debug)]
pub struct LongCase {
    pub market_slug: String,
    pub decision_id: String,
    pub now: i64,
    pub expiry_ts: i64,
    /// The seconds until the market ends.
    pub tte_sec: i128,
    pub outcomes: Vec<String>,
    pub clob_token_ids: Vec<String>,
}

/// The name of a decision: one per market, signal and minute.
pub open spec fn decision_name(slug_lower: Seq<char>, signal_id: Seq<char>, now: int) -> Seq<char> {
    "betterbot:llm:"@ + slug_lower + ":"@ + signal_id + ":"@ + decimal(toward_zero(now, 60))
}

/// Names a decision.
pub fn decision_text(slug_lower: &str, signal_id: &str, now: i64) -> (r: String)
    ensures
        r@ == decision_name(slug_lower@, signal_id@, now as int),
{
    let mut s = joined("betterbot:llm:", slug_lower);
    s = joined(s.as_str(), ":");
    s = joined(s.as_str(), signal_id);
    s = joined(s.as_str(), ":");
    joined(s.as_str(), decimal_i64(div_toward_zero(now, 60)).as_str())
}

/// Whether a market can be decided on: it has two outcomes with a token each, and it ends
/// in more than a minute.
pub open spec fn decidable(gamma: GammaMarketLookup, expiry: Option<i64>, now: int) -> bool {
    &&& gamma.outcomes.len() == 2
    &&& gamma.clob_token_ids.len() == 2
    &&& expiry matches Some(e) && e - now > 60
}

/// Opens a decision on a market.
pub fn open_case(market_slug: &str, signal: &MarketSignal, gamma: GammaMarketLookup, now: i64) -> (r: Option<
    LongCase,
>)
    ensures
        ({
            let expiry = expiry_of(
                text_view(signal.details.expiry_time),
                text_view(gamma.end_date_iso),
            );
            &&& r is Some <==> decidable(gamma, expiry, now as int)
            &&& r matches Some(c) ==> {
                &&& c.market_slug@ == market_slug@
                &&& c.decision_id@ == url_id(
                    decision_name(lowercase(market_slug@), signal.id@, now as int),
                )
                &&& c.now == now
                &&& c.expiry_ts == expiry->0
                &&& c.tte_sec == expiry->0 - now
                &&& c.outcomes == gamma.outcomes
                &&& c.clob_token_ids == gamma.clob_token_ids
            }
        }),
{
    let expiry = parse_expiry_ts(&signal.details.expiry_time, &gamma.end_date_iso);
    let lower = to_lower(market_slug);
    let name = decision_text(lower.as_str(), signal.id.as_str(), now);
    let id = named_id(name.as_str());
    open_case_under(market_slug, id, expiry, gamma, now)
}

/// Opens a decision on a market under an identifier, with the time when the market ends.
pub fn open_case_under(
    market_slug: &str,
    decision_id: String,
    expiry: Option<i64>,
    gamma: GammaMarketLookup,
    now: i64,
) -> (r: Option<LongCase>)
    ensures
        r is Some <==> decidable(gamma, expiry, now as int),
        r matches Some(c) ==> {
            &&& c.market_slug@ == market_slug@
            &&& c.decision_id == decision_id
            &&& c.now == now
            &&& c.expiry_ts == expiry->0
            &&& c.tte_sec == expiry->0 - now
            &&& c.outcomes == gamma.outcomes
            &&& c.clob_token_ids == gamma.clob_token_ids
        },
{
    if gamma.outcomes.len() != 2 || gamma.clob_token_ids.len() != 2 {
        return None;
    }
    let expiry_ts = match expiry {
        Some(e) => e,
        None => {
            return None;
        },
    };
    let tte_sec: i128 = (expiry_ts as i128) - (now as i128);
    if tte_sec <= 60 {
        return None;
    }
    Some(
        LongCase {
            market_slug: market_slug.to_owned(),
            decision_id,
            now,
            expiry_ts,
            tte_sec,
            outcomes: gamma.outcomes,
            clob_token_ids: gamma.clob_token_ids,
        },
    )
}

/// Whether a market ends soon enough to be decided on.
pub fn within_horizon(cfg: &VaultEngineConfig, tte_days: Scalar) -> (r: bool)
    ensures
        r == !cfg.long_max_tte_days.spec_lt(tte_days),
{
    !cfg.long_max_tte_days.lt(tte_days)
}

/// What is written down of a decision.
#[derive(Debug)]
pub struct LlmDecisionRecord {
    pub decision_id: String,
    pub market_slug: String,
    pub created_at: i64,
    pub action: String,
    pub outcome_index: Option<i64>,
    pub outcome_text: Option<String>,
    pub p_true: Option<Scalar>,
    pub bid: Option<Scalar>,
    pub ask: Option<Scalar>,
    pub p_eff: Option<Scalar>,
    pub edge: Option<Scalar>,
    pub size_mult: Option<Scalar>,
    pub consensus_models: Option<String>,
    pub flags: Option<String>,
    pub rationale_hash: Option<String>,
}

/// The price of an outcome, and the edge that a belief has over it.
#[derive(Clone, Copy, Debug, PartialEq, Eq, Structural)]
pub struct PricedBelief {
    pub p_true: Scalar,
    pub bid: Option<Scalar>,
    pub ask: Scalar,
    pub p_eff: Scalar,
    pub edge: Scalar,
}

/// A record that says which decision it belongs to, what was decided, and why.
pub open spec fn is_record_of(
    r: LlmDecisionRecord,
    case: LongCase,
    action: Seq<char>,
    models: Option<Seq<char>>,
    flags: Option<Seq<char>>,
    hash: Option<Seq<char>>,
) -> bool {
    &&& r.decision_id@ == case.decision_id@
    &&& r.market_slug@ == case.market_slug@
    &&& r.created_at == case.now
    &&& r.action@ == action
    &&& text_view(r.consensus_models) == models
    &&& text_view(r.flags) == flags
    &&& text_view(r.rationale_hash) == hash
}

/// A record without figures.
pub open spec fn has_no_figures(r: LlmDecisionRecord) -> bool {
    &&& r.outcome_index is None
    &&& r.outcome_text is None
    &&& r.p_true is None
    &&& r.bid is None
    &&& r.ask is None
    &&& r.p_eff is None
    &&& r.edge is None
    &&& r.size_mult is None
}

/// A record with the figures of an outcome.
pub open spec fn has_figures(
    r: LlmDecisionRecord,
    case: LongCase,
    outcome_i: int,
    b: PricedBelief,
    size_mult: Option<Scalar>,
) -> bool {
    &&& r.outcome_index matches Some(i) && i == outcome_i
    &&& text_view(r.outcome_text) == Some(case.outcomes[outcome_i]@)
    &&& r.p_true == Some(b.p_true)
    &&& r.bid == b.bid
    &&& r.ask == Some(b.ask)
    &&& r.p_eff == Some(b.p_eff)
    &&& r.edge == Some(b.edge)
    &&& r.size_mult == size_mult
}

/// The record of a decision to hold, without figures.
fn hold_without_figures(case: &LongCase, scout_model: &str, hash: &Option<String>) -> (r:
    LlmDecisionRecord)
    ensures
        is_record_of(r, *case, "HOLD"@, Some(scout_model@), None, text_view(*hash)),
        has_no_figures(r),
{
    LlmDecisionRecord {
        decision_id: case.decision_id.clone(),
        market_slug: case.market_slug.clone(),
        created_at: case.now,
        action: "HOLD".to_owned(),
        outcome_index: None,
        outcome_text: None,
        p_true: None,
        bid: None,
        ask: None,
        p_eff: None,
        edge: None,
        size_mult: None,
        consensus_models: Some(scout_model.to_owned()),
        flags: None,
        rationale_hash: text_copy(hash),
    }
}

/// The record of a decision with figures.
fn record_with_figures(
    case: &LongCase,
    action: &str,
    outcome_i: usize,
    b: &PricedBelief,
    size_mult: Option<Scalar>,
    models: Option<String>,
    flags: Option<String>,
    hash: &Option<String>,
) -> (r: LlmDecisionRecord)
    requires
        outcome_i < case.outcomes.len(),
        outcome_i < 2,
    ensures
        is_record_of(r, *case, action@, text_view(models), text_view(flags), text_view(*hash)),
        has_figures(r, *case, outcome_i as int, *b, size_mult),
{
    LlmDecisionRecord {
        decision_id: case.decision_id.clone(),
        market_slug: case.market_slug.clone(),
        created_at: case.now,
        action: action.to_owned(),
        outcome_index: Some(outcome_i as i64),
        outcome_text: Some(case.outcomes[outcome_i].clone()),
        p_true: Some(b.p_true),
        bid: b.bid,
        ask: Some(b.ask),
        p_eff: Some(b.p_eff),
        edge: Some(b.edge),
        size_mult,
        consensus_models: models,
        flags,
        rationale_hash: text_copy(hash),
    }
}

/// The case of a market with two outcomes and two tokens.
pub open spec fn is_case(case: LongCase) -> bool {
    case.outcomes.len() == 2 && case.clob_token_ids.len() == 2
}

/// What the answer of the scout leads to.
#[derive(Debug)]
pub enum Scouted {
    /// The answer was no decision, or it lacks an outcome or a probability.
    Nothing,
    Hold(LlmDecisionRecord),
    /// The price of an outcome is asked for.
    Price { outcome_i: usize, p_true: Scalar, token_id: String },
}

/// Takes the answer of the scout in.
pub fn on_scout(case: &LongCase, scout_model: &str, answer: &Option<ParsedDecisionDsl>) -> (r: Scouted)
    requires
        is_case(*case),
    ensures
        match *answer {
            None => r is Nothing,
            Some(d) => if d.action != DecisionAction::Buy {
                &&& r matches Scouted::Hold(rec)
                &&& is_record_of(
                    rec,
                    *case,
                    "HOLD"@,
                    Some(scout_model@),
                    None,
                    text_view(d.rationale_hash),
                )
                &&& has_no_figures(rec)
            } else {
                match (d.outcome_in(views(case.outcomes@)), d.p_true) {
                    (Some(i), Some(p)) => {
                        &&& i < 2
                        &&& r matches Scouted::Price { outcome_i, p_true, token_id }
                        &&& outcome_i == i
                        &&& p_true == p
                        &&& token_id@ == case.clob_token_ids[i as int]@
                    },
                    _ => r is Nothing,
                }
            },
        },
{
    let d = match answer {
        Some(d) => d,
        None => {
            return Scouted::Nothing;
        },
    };
    if !d.is_buy() {
        return Scouted::Hold(hold_without_figures(case, scout_model, &d.rationale_hash));
    }
    proof {
        super::llm::law_outcome_is_one_of_them(*d, views(case.outcomes@));
    }
    match (d.map_outcome_index(&case.outcomes), d.p_true) {
        (Some(outcome_i), Some(p_true)) => Scouted::Price {
            outcome_i,
            p_true,
            token_id: case.clob_token_ids[outcome_i].clone(),
        },
        _ => Scouted::Nothing,
    }
}

/// The best prices of an outcome: its spread in basis points and what its best ask is
/// worth, where they can be worked out.
#[derive(Clone, Copy, Debug, PartialEq, Eq, Structural)]
pub struct TopQuote {
    pub bid: Option<Scalar>,
    pub ask: Option<Scalar>,
    pub spread_bps: Option<Scalar>,
    pub top_usd: Option<Scalar>,
}

/// The spread of a quote, wide where it cannot be worked out.
pub open spec fn spread_or_wide(q: TopQuote) -> Scalar {
    match q.spread_bps {
        Some(s) => s,
        None => Scalar::Rank(R_999999),
    }
}

/// Whether an outcome can be bought at its quote: it has an ask, a narrow spread, and
/// enough at its best ask.
pub open spec fn can_buy(q: TopQuote, cfg: VaultEngineConfig) -> bool {
    &&& q.ask is Some
    &&& !cfg.long_max_spread_bps.spec_lt(spread_or_wide(q))
    &&& !(match q.top_usd {
        Some(t) => t,
        None => Scalar::Rank(0),
    }).spec_lt(cfg.long_min_top_of_book_usd)
}

/// The ask and the spread of an outcome that can be bought.
pub fn gate_quote(q: &TopQuote, cfg: &VaultEngineConfig) -> (r: Option<(Scalar, Scalar)>)
    ensures
        r == if can_buy(*q, *cfg) {
            Some((q.ask->0, spread_or_wide(*q)))
        } else {
            None
        },
{
    let ask = match q.ask {
        Some(a) => a,
        None => {
            return None;
        },
    };
    let spread = match q.spread_bps {
        Some(s) => s,
        None => Scalar::Rank(R_999999),
    };
    if cfg.long_max_spread_bps.lt(spread) {
        return None;
    }
    let top_usd = match q.top_usd {
        Some(t) => t,
        None => Scalar::Rank(0),
    };
    if top_usd.lt(cfg.long_min_top_of_book_usd) {
        return None;
    }
    Some((ask, spread))
}

/// What a trade is expected to lose by moving the price: half the spread, at least a
/// minimum.
pub fn slippage_of(half_spread: Scalar, cfg: &VaultEngineConfig) -> (r: Scalar)
    ensures
        r == cfg.long_slippage_buffer_min.spec_max(half_spread),
{
    cfg.long_slippage_buffer_min.max(half_spread)
}

/// A price between its bounds.
pub open spec fn bounded_price(p: Scalar) -> Scalar {
    held_between(p, Scalar::Rank(R_0_0001), Scalar::Rank(R_0_9999))
}

/// The price with all costs: `sum` is the ask with the fees and the slippage.
pub fn effective_price(sum: Scalar) -> (r: Scalar)
    ensures
        r == bounded_price(sum),
{
    if sum.lt(Scalar::Rank(R_0_0001)) {
        Scalar::Rank(R_0_0001)
    } else if Scalar::Rank(R_0_9999).lt(sum) {
        Scalar::Rank(R_0_9999)
    } else {
        sum
    }
}

/// Holds where the edge of the scout is too narrow; nothing where the other models are
/// asked.
pub fn on_scout_edge(
    case: &LongCase,
    scout_model: &str,
    scout: &ParsedDecisionDsl,
    outcome_i: usize,
    b: &PricedBelief,
    cfg: &VaultEngineConfig,
) -> (r: Option<LlmDecisionRecord>)
    requires
        is_case(*case),
        outcome_i < 2,
    ensures
        r is Some <==> b.edge.spec_lt(cfg.long_min_edge),
        r matches Some(rec) ==> {
            &&& is_record_of(
                rec,
                *case,
                "HOLD"@,
                Some(scout_model@),
                None,
                text_view(scout.rationale_hash),
            )
            &&& has_figures(rec, *case, outcome_i as int, *b, scout.size_mult)
        },
{
    if b.edge.lt(cfg.long_min_edge) {
        Some(
            record_with_figures(
                case,
                "HOLD",
                outcome_i,
                b,
                scout.size_mult,
                Some(scout_model.to_owned()),
                None,
                &scout.rationale_hash,
            ),
        )
    } else {
        None
    }
}

/// How many models are asked beside the scout.
pub const PANEL: usize = 3;

/// The models that are asked beside the scout: at most three.
pub open spec fn panel_of(models: Seq<Seq<char>>) -> Seq<Seq<char>> {
    if models.len() == 0 {
        Seq::empty()
    } else if models.len() - 1 <= PANEL {
        models.skip(1)
    } else {
        models.subrange(1, 1 + PANEL as int)
    }
}

pub fn panel_models(cfg: &VaultEngineConfig) -> (r: Vec<String>)
    ensures
        views(r@) == panel_of(views(cfg.long_models@)),
{
    let mut r: Vec<String> = Vec::new();
    let ghost all = views(cfg.long_models@);
    let mut i: usize = 1;
    assert(views(r@) =~= Seq::<Seq<char>>::empty());
    if cfg.long_models.len() == 0 {
        return r;
    }
    assert(all.subrange(1, 1) =~= Seq::<Seq<char>>::empty());
    while i < cfg.long_models.len() && i <= PANEL
        invariant
            1 <= i <= cfg.long_models.len(),
            i <= PANEL + 1,
            all == views(cfg.long_models@),
            views(r@) == all.subrange(1, i as int),
        decreases cfg.long_models.len() - i,
    {
        let ghost before = r@;
        r.push(cfg.long_models[i].clone());
        assert(views(r@) =~= views(before).push(all[i as int]));
        assert(all.subrange(1, i as int + 1) =~= all.subrange(1, i as int).push(all[i as int]));
        i = i + 1;
    }
    assert(views(r@) =~= panel_of(all));
    r
}

/// A model and its answer.
#[derive(Debug)]
pub struct ModelAnswer {
    pub model: String,
    pub answer: Option<ParsedDecisionDsl>,
}

/// Whether an answer says to buy an outcome.
pub open spec fn votes_for(a: ModelAnswer, outcomes: Seq<Seq<char>>, i: int) -> bool {
    match a.answer {
        Some(d) => d.action == DecisionAction::Buy && (d.outcome_in(outcomes) matches Some(k) && k == i),
        None => false,
    }
}

/// How many answers say to buy an outcome.
pub open spec fn vote_count(answers: Seq<ModelAnswer>, outcomes: Seq<Seq<char>>, i: int) -> nat
    decreases answers.len(),
{
    if answers.len() == 0 {
        0
    } else {
        vote_count(answers.drop_last(), outcomes, i) + if votes_for(answers.last(), outcomes, i) {
            1nat
        } else {
            0nat
        }
    }
}

/// Counts the answers that say to buy each outcome.
pub fn tally(answers: &Vec<ModelAnswer>, outcomes: &Vec<String>) -> (r: (usize, usize))
    ensures
        r.0 == vote_count(answers@, views(outcomes@), 0),
        r.1 == vote_count(answers@, views(outcomes@), 1),
{
    let mut zero: usize = 0;
    let mut one: usize = 0;
    let mut i: usize = 0;
    while i < answers.len()
        invariant
            i <= answers.len(),
            zero <= i,
            one <= i,
            zero == vote_count(answers@.take(i as int), views(outcomes@), 0),
            one == vote_count(answers@.take(i as int), views(outcomes@), 1),
        decreases answers.len() - i,
    {
        assert(answers@.take(i as int + 1).drop_last() =~= answers@.take(i as int));
        match &answers[i].answer {
            Some(d) => {
                if d.is_buy() {
                    match d.map_outcome_index(outcomes) {
                        Some(k) => {
                            if k == 0 {
                                zero = zero + 1;
                            } else if k == 1 {
                                one = one + 1;
                            }
                        },
                        None => {},
                    }
                }
            },
            None => {},
        }
        i = i + 1;
    }
    assert(answers@.take(i as int) =~= answers@);
    (zero, one)
}

/// The outcome with the most votes, and how many it has; the first where they are equal.
pub open spec fn winner(zero: nat, one: nat) -> (int, nat) {
    if zero >= one {
        (0, zero)
    } else {
        (1, one)
    }
}

/// How many votes an outcome needs.
pub const VOTES_NEEDED: usize = 3;

/// What the models that agree say: their names, their probabilities and their sizes.
#[derive(Debug)]
pub struct Agreement {
    pub win_i: usize,
    pub win_votes: usize,
    pub models: Vec<String>,
    pub p_list: Vec<Scalar>,
    pub size_mults: Vec<Scalar>,
}

/// The answers that say to buy an outcome.
pub open spec fn agreeing(answers: Seq<ModelAnswer>, outcomes: Seq<Seq<char>>, i: int) -> Seq<ModelAnswer>
    decreases answers.len(),
{
    if answers.len() == 0 {
        Seq::empty()
    } else {
        let before = agreeing(answers.drop_last(), outcomes, i);
        if votes_for(answers.last(), outcomes, i) {
            before.push(answers.last())
        } else {
            before
        }
    }
}

/// The names of models.
pub open spec fn model_names(a: Seq<ModelAnswer>) -> Seq<Seq<char>> {
    a.map_values(|m: ModelAnswer| m.model@)
}

/// The probabilities in answers that have one.
pub open spec fn chances(a: Seq<ModelAnswer>) -> Seq<Scalar>
    decreases a.len(),
{
    if a.len() == 0 {
        Seq::empty()
    } else {
        match a.last().answer {
            Some(d) => match d.p_true {
                Some(p) => chances(a.drop_last()).push(p),
                None => chances(a.drop_last()),
            },
            None => chances(a.drop_last()),
        }
    }
}

/// The sizes in answers that have one.
pub open spec fn sizes(a: Seq<ModelAnswer>) -> Seq<Scalar>
    decreases a.len(),
{
    if a.len() == 0 {
        Seq::empty()
    } else {
        match a.last().answer {
            Some(d) => match d.size_mult {
                Some(p) => sizes(a.drop_last()).push(p),
                None => sizes(a.drop_last()),
            },
            None => sizes(a.drop_last()),
        }
    }
}

/// What the votes lead to.
#[derive(Debug)]
pub enum Voted {
    Hold(LlmDecisionRecord),
    Agreed(Agreement),
}

fn gather(answers: &Vec<ModelAnswer>, outcomes: &Vec<String>, win_i: usize, win_votes: usize) -> (r: Agreement)
    ensures
        r.win_i == win_i,
        r.win_votes == win_votes,
        views(r.models@) == model_names(agreeing(answers@, views(outcomes@), win_i as int)),
        r.p_list@ == chances(agreeing(answers@, views(outcomes@), win_i as int)),
        r.size_mults@ == sizes(agreeing(answers@, views(outcomes@), win_i as int)),
{
    let mut models: Vec<String> = Vec::new();
    let mut p_list: Vec<Scalar> = Vec::new();
    let mut size_mults: Vec<Scalar> = Vec::new();
    let ghost o = views(outcomes@);
    let ghost w = win_i as int;
    let mut i: usize = 0;
    assert(views(models@) =~= model_names(agreeing(answers@.take(0), o, w)));
    while i < answers.len()
        invariant
            i <= answers.len(),
            o == views(outcomes@),
            w == win_i as int,
            views(models@) == model_names(agreeing(answers@.take(i as int), o, w)),
            p_list@ == chances(agreeing(answers@.take(i as int), o, w)),
            size_mults@ == sizes(agreeing(answers@.take(i as int), o, w)),
        decreases answers.len() - i,
    {
        let ghost upto = agreeing(answers@.take(i as int), o, w);
        assert(answers@.take(i as int + 1).drop_last() =~= answers@.take(i as int));
        assert(answers@.take(i as int + 1).last() == answers@[i as int]);
        let hit = match &answers[i].answer {
            Some(d) => if d.is_buy() {
                match d.map_outcome_index(outcomes) {
                    Some(k) => k == win_i,
                    None => false,
                }
            } else {
                false
            },
            None => false,
        };
        assert(hit == votes_for(answers@[i as int], o, w));
        if hit {
            let ghost after = upto.push(answers@[i as int]);
            assert(after.drop_last() =~= upto);
            let ghost before = models@;
            models.push(answers[i].model.clone());
            assert(views(models@) =~= views(before).push(answers@[i as int].model@));
            assert(model_names(after) =~= model_names(upto).push(answers@[i as int].model@));
            match &answers[i].answer {
                Some(d) => {
                    match d.p_true {
                        Some(p) => {
                            p_list.push(p);
                        },
                        None => {},
                    }
                    match d.size_mult {
                        Some(m) => {
                            size_mults.push(m);
                        },
                        None => {},
                    }
                },
                None => {},
            }
        }
        i = i + 1;
    }
    assert(answers@.take(i as int) =~= answers@);
    Agreement { win_i, win_votes, models, p_list, size_mults }
}

/// Takes the answers of all models in: an outcome wins with three votes.
pub fn on_votes(
    case: &LongCase,
    scout: &ParsedDecisionDsl,
    outcome_i: usize,
    b: &PricedBelief,
    answers: &Vec<ModelAnswer>,
) -> (r: Voted)
    requires
        is_case(*case),
        outcome_i < 2,
    ensures
        ({
            let o = views(case.outcomes@);
            let (w, n) = winner(vote_count(answers@, o, 0), vote_count(answers@, o, 1));
            if n < VOTES_NEEDED {
                &&& r matches Voted::Hold(rec)
                &&& is_record_of(
                    rec,
                    *case,
                    "HOLD"@,
                    None,
                    Some(join_views(views(scout.flags@), ","@)),
                    text_view(scout.rationale_hash),
                )
                &&& has_figures(rec, *case, outcome_i as int, *b, scout.size_mult)
            } else {
                let a = agreeing(answers@, o, w);
                &&& r matches Voted::Agreed(g)
                &&& g.win_i == w
                &&& g.win_votes == n
                &&& views(g.models@) == model_names(a)
                &&& g.p_list@ == chances(a)
                &&& g.size_mults@ == sizes(a)
            }
        }),
{
    let (zero, one) = tally(answers, &case.outcomes);
    let win_i: usize = if zero >= one {
        0
    } else {
        1
    };
    let win_votes: usize = if zero >= one {
        zero
    } else {
        one
    };
    if win_votes < VOTES_NEEDED {
        return Voted::Hold(
            record_with_figures(
                case,
                "HOLD",
                outcome_i,
                b,
                scout.size_mult,
                None,
                Some(join(&scout.flags, ",")),
                &scout.rationale_hash,
            ),
        );
    }
    Voted::Agreed(gather(answers, &case.outcomes, win_i, win_votes))
}

/// A number between zero and one.
pub open spec fn in_unit(x: Scalar) -> Scalar {
    held_between(x, Scalar::Rank(0), Scalar::Rank(ONE_RANK))
}

pub fn hold_in_unit(x: Scalar) -> (r: Scalar)
    ensures
        r == in_unit(x),
{
    if x.lt(Scalar::Rank(0)) {
        Scalar::Rank(0)
    } else if Scalar::Rank(ONE_RANK).lt(x) {
        Scalar::Rank(ONE_RANK)
    } else {
        x
    }
}

/// The probability of all models that agree: their mean, or the one of the scout where
/// none has one.
pub fn agreed_chance(g: &Agreement, mean: Scalar, scout_p: Scalar) -> (r: Scalar)
    ensures
        r == if g.p_list.len() > 0 {
            mean
        } else {
            scout_p
        },
{
    if g.p_list.len() > 0 {
        mean
    } else {
        scout_p
    }
}

/// The size of all models that agree: their mean, or the one of the scout where none has
/// one, or one half.
pub fn agreed_size(g: &Agreement, mean: Scalar, scout_size: Option<Scalar>) -> (r: Scalar)
    ensures
        r == in_unit(
            if g.size_mults.len() > 0 {
                mean
            } else {
                match scout_size {
                    Some(s) => s,
                    None => Scalar::Rank(HALF_RANK),
                }
            },
        ),
{
    if g.size_mults.len() > 0 {
        hold_in_unit(mean)
    } else {
        match scout_size {
            Some(s) => hold_in_unit(s),
            None => hold_in_unit(Scalar::Rank(HALF_RANK)),
        }
    }
}

/// What is left of a stake where models disagree: `one_less` is one less their dispersion
/// by the greatest one, held between zero and one.
pub fn dispersion_penalty(dispersion: Scalar, one_less: Scalar) -> (r: Scalar)
    ensures
        r == if dispersion.spec_is_finite() {
            in_unit(one_less)
        } else {
            Scalar::Rank(ONE_RANK)
        },
{
    if dispersion.is_finite() {
        hold_in_unit(one_less)
    } else {
        Scalar::Rank(ONE_RANK)
    }
}

/// The bounds of a stake, where the edge is wide enough and there is money.
pub fn stake_params(cfg: &VaultEngineConfig, edge: Scalar, bankroll: Scalar) -> (r: Option<KellyParams>)
    ensures
        r == if edge.spec_lt(cfg.long_min_edge) || bankroll.spec_le(Scalar::Rank(0)) {
            None
        } else {
            Some(
                KellyParams {
                    bankroll,
                    kelly_fraction: cfg.long_kelly_fraction,
                    max_position_pct: cfg.long_max_position_pct,
                    min_position_usd: cfg.long_min_trade_usd,
                },
            )
        },
{
    if edge.lt(cfg.long_min_edge) {
        return None;
    }
    if bankroll.le(Scalar::Rank(0)) {
        return None;
    }
    Some(
        KellyParams {
            bankroll,
            kelly_fraction: cfg.long_kelly_fraction,
            max_position_pct: cfg.long_max_position_pct,
            min_position_usd: cfg.long_min_trade_usd,
        },
    )
}

/// The amount of an entry: the scaled stake, at most the greatest trade and the bankroll.
pub open spec fn entry_amount(scaled: Scalar, bankroll: Scalar, cfg: VaultEngineConfig) -> Scalar {
    scaled.spec_min(cfg.long_max_trade_usd).spec_min(bankroll)
}

/// The name of an entry: one per decision, token and half minute.
pub open spec fn entry_name(decision_id: Seq<char>, token_id: Seq<char>, now: int) -> Seq<char> {
    "betterbot:entry:"@ + decision_id + ":"@ + token_id + ":"@ + decimal(toward_zero(now, 30))
}

/// Names an entry.
pub fn entry_text(decision_id: &str, token_id: &str, now: i64) -> (r: String)
    ensures
        r@ == entry_name(decision_id@, token_id@, now as int),
{
    let mut s = joined("betterbot:entry:", decision_id);
    s = joined(s.as_str(), ":");
    s = joined(s.as_str(), token_id);
    s = joined(s.as_str(), ":");
    joined(s.as_str(), decimal_i64(div_toward_zero(now, 30)).as_str())
}

/// An order to buy the outcome that won.
pub open spec fn is_entry(
    o: OrderRequest,
    case: LongCase,
    win_i: int,
    ask: Scalar,
    amount: Scalar,
    id: Seq<char>,
) -> bool {
    &&& o.client_order_id@ == id
    &&& o.token_id@ == case.clob_token_ids[win_i]@
    &&& o.side == OrderSide::Buy
    &&& o.price == ask
    &&& o.notional_usdc == amount
    &&& o.tif == TimeInForce::Ioc
    &&& text_view(o.market_slug) == Some(case.market_slug@)
    &&& text_view(o.outcome) == Some(case.outcomes[win_i]@)
}

/// Takes a stake in: the outcome that won is bought, where the stake is worth it. `scaled`
/// is the stake times the size and what the dispersion leaves.
pub fn entry_order(
    case: &LongCase,
    win_i: usize,
    ask: Scalar,
    kelly: &KellyResult,
    scaled: Scalar,
    bankroll: Scalar,
    cfg: &VaultEngineConfig,
) -> (r: Option<OrderRequest>)
    requires
        is_case(*case),
        win_i < 2,
    ensures
        ({
            let amount = entry_amount(scaled, bankroll, *cfg);
            &&& r is Some <==> kelly.should_trade && !amount.spec_lt(cfg.long_min_trade_usd)
            &&& r matches Some(o) ==> is_entry(
                o,
                *case,
                win_i as int,
                ask,
                amount,
                url_id(
                    entry_name(
                        case.decision_id@,
                        case.clob_token_ids[win_i as int]@,
                        case.now as int,
                    ),
                ),
            )
        }),
{
    let name = entry_text(
        case.decision_id.as_str(),
        case.clob_token_ids[win_i].as_str(),
        case.now,
    );
    let id = named_id(name.as_str());
    entry_order_under(case, win_i, ask, kelly, scaled, bankroll, cfg, id)
}

/// Takes a stake in, under an identifier of the order.
pub fn entry_order_under(
    case: &LongCase,
    win_i: usize,
    ask: Scalar,
    kelly: &KellyResult,
    scaled: Scalar,
    bankroll: Scalar,
    cfg: &VaultEngineConfig,
    id: String,
) -> (r: Option<OrderRequest>)
    requires
        is_case(*case),
        win_i < 2,
    ensures
        ({
            let amount = entry_amount(scaled, bankroll, *cfg);
            &&& r is Some <==> kelly.should_trade && !amount.spec_lt(cfg.long_min_trade_usd)
            &&& r matches Some(o) ==> is_entry(o, *case, win_i as int, ask, amount, id@)
        }),
{
    if !kelly.should_trade {
        return None;
    }
    let amount = scaled.min(cfg.long_max_trade_usd).min(bankroll);
    if amount.lt(cfg.long_min_trade_usd) {
        return None;
    }
    Some(
        OrderRequest {
            client_order_id: id,
            token_id: case.clob_token_ids[win_i].clone(),
            side: OrderSide::Buy,
            price: ask,
            notional_usdc: amount,
            tif: TimeInForce::Ioc,
            market_slug: Some(case.market_slug.clone()),
            outcome: Some(case.outcomes[win_i].clone()),
        },
    )
}

/// Takes in that an entry was executed: what is written to the log and of the decision.
/// The market then cools down.
pub fn on_entry_filled(
    case: &LongCase,
    state: &mut LongEngineState,
    scout: &ParsedDecisionDsl,
    g: &Agreement,
    order: &OrderRequest,
    ack: &OrderAck,
    shares: Scalar,
    b: &PricedBelief,
    size_mult: Scalar,
) -> (r: (VaultActivityRecord, LlmDecisionRecord))
    requires
        is_case(*case),
        g.win_i < 2,
    ensures
        is_trade_record(
            r.0,
            *ack,
            shares,
            order.token_id@,
            Some(case.market_slug@),
            Some(case.outcomes[g.win_i as int]@),
            OrderSide::Buy,
            "LONG"@,
            Some(case.decision_id@),
        ),
        is_record_of(
            r.1,
            *case,
            "BUY"@,
            Some(join_views(views(g.models@), ","@)),
            Some(join_views(views(scout.flags@), ","@)),
            text_view(scout.rationale_hash),
        ),
        has_figures(
            r.1,
            *case,
            g.win_i as int,
            (PricedBelief { bid: None, ..*b }),
            Some(size_mult),
        ),
        *final(state) == (LongEngineState { markets: final(state).markets, ..*old(state) }),
        final(state).markets@ == old(state).markets_after_trade(
            lowercase(case.market_slug@),
            case.now,
        ),
{
    let slug = Some(case.market_slug.clone());
    let outcome = Some(case.outcomes[g.win_i].clone());
    let decision = Some(case.decision_id.clone());
    let record = trade_record(
        ack,
        shares,
        order.token_id.as_str(),
        &slug,
        &outcome,
        OrderSide::Buy,
        "LONG",
        &decision,
    );
    let mut belief = *b;
    belief.bid = None;
    let bought = record_with_figures(
        case,
        "BUY",
        g.win_i,
        &belief,
        Some(size_mult),
        Some(join(&g.models, ",")),
        Some(join(&scout.flags, ",")),
        &scout.rationale_hash,
    );
    state.note_trade(case.market_slug.as_str(), case.now);
    (record, bought)
}

/// What is written down of a call.
#[derive(Debug)]
pub struct LlmModelRecord {
    pub id: String,
    pub decision_id: String,
    pub model: String,
    pub created_at: i64,
    pub parsed_ok: bool,
    pub action: Option<String>,
    pub outcome_index: Option<u64>,
    pub p_true: Option<Scalar>,
    pub uncertainty: Option<String>,
    pub size_mult: Option<Scalar>,
    pub flags: Option<String>,
    pub rationale_hash: Option<String>,
    pub raw_dsl: Option<String>,
    pub latency_ms: Option<u64>,
    pub prompt_tokens: Option<u64>,
    pub completion_tokens: Option<u64>,
    pub total_tokens: Option<u64>,
    pub error: Option<String>,
}

/// What is written down of the answer in a call.
pub open spec fn answer_written(r: LlmModelRecord, parsed: Option<ParsedDecisionDsl>) -> bool {
    match parsed {
        None => {
            &&& r.action is None
            &&& r.outcome_index is None
            &&& r.p_true is None
            &&& r.uncertainty is None
            &&& r.size_mult is None
            &&& r.flags is None
            &&& r.rationale_hash is None
        },
        Some(d) => {
            &&& text_view(r.action) == Some(d.action.name())
            &&& match d.outcome_index {
                Some(i) => r.outcome_index matches Some(k) && k == i,
                None => r.outcome_index is None,
            }
            &&& r.p_true == d.p_true
            &&& match d.uncertainty {
                Some(u) => text_view(r.uncertainty) == Some(u.name()),
                None => r.uncertainty is None,
            }
            &&& r.size_mult == d.size_mult
            &&& text_view(r.flags) == Some(join_views(views(d.flags@), ","@))
            &&& text_view(r.rationale_hash) == text_view(d.rationale_hash)
        },
    }
}

/// What is written down of the exchange in a call.
pub open spec fn call_written(r: LlmModelRecord, call: Option<LlmCallOutput>) -> bool {
    match call {
        None => {
            &&& r.raw_dsl is None
            &&& r.latency_ms is None
            &&& r.prompt_tokens is None
            &&& r.completion_tokens is None
            &&& r.total_tokens is None
        },
        Some(c) => {
            &&& text_view(r.raw_dsl) == Some(c.content@)
            &&& r.latency_ms == Some(c.latency_ms)
            &&& r.prompt_tokens == c.usage.prompt_tokens
            &&& r.completion_tokens == c.usage.completion_tokens
            &&& r.total_tokens == c.usage.total_tokens
        },
    }
}

/// Writes a call down under a fresh identifier: the answer counts as read where there is
/// one and nothing went wrong.
pub fn long_record_model_call(
    decision_id: &str,
    model: &str,
    created_at: i64,
    call: &Option<LlmCallOutput>,
    parsed: &Option<ParsedDecisionDsl>,
    error: &Option<String>,
) -> (r: LlmModelRecord)
    ensures
        r.id@.len() == 36,
        r.decision_id@ == decision_id@,
        r.model@ == model@,
        r.created_at == created_at,
        r.parsed_ok == (parsed is Some && error is None),
        answer_written(r, *parsed),
        call_written(r, *call),
        text_view(r.error) == text_view(*error),
{
    long_record_model_call_with(fresh_id(), decision_id, model, created_at, call, parsed, error)
}

/// Writes a call down under an identifier.
pub fn long_record_model_call_with(
    id: String,
    decision_id: &str,
    model: &str,
    created_at: i64,
    call: &Option<LlmCallOutput>,
    parsed: &Option<ParsedDecisionDsl>,
    error: &Option<String>,
) -> (r: LlmModelRecord)
    ensures
        r.id == id,
        r.decision_id@ == decision_id@,
        r.model@ == model@,
        r.created_at == created_at,
        r.parsed_ok == (parsed is Some && error is None),
        answer_written(r, *parsed),
        call_written(r, *call),
        text_view(r.error) == text_view(*error),
{
    let mut rec = LlmModelRecord {
        id,
        decision_id: decision_id.to_owned(),
        model: model.to_owned(),
        created_at,
        parsed_ok: parsed.is_some() && error.is_none(),
        action: None,
        outcome_index: None,
        p_true: None,
        uncertainty: None,
        size_mult: None,
        flags: None,
        rationale_hash: None,
        raw_dsl: None,
        latency_ms: None,
        prompt_tokens: None,
        completion_tokens: None,
        total_tokens: None,
        error: text_copy(error),
    };
    match parsed {
        Some(d) => {
            rec.action = Some(d.action.as_str().to_owned());
            rec.outcome_index = match d.outcome_index {
                Some(i) => Some(i as u64),
                None => None,
            };
            rec.p_true = d.p_true;
            rec.uncertainty = match d.uncertainty {
                Some(u) => Some(u.as_str().to_owned()),
                None => None,
            };
            rec.size_mult = d.size_mult;
            rec.flags = Some(join(&d.flags, ","));
            rec.rationale_hash = text_copy(&d.rationale_hash);
        },
        None => {},
    }
    match call {
        Some(c) => {
            rec.raw_dsl = Some(c.content.clone());
            rec.latency_ms = Some(c.latency_ms);
            rec.prompt_tokens = c.usage.prompt_tokens;
            rec.completion_tokens = c.usage.completion_tokens;
            rec.total_tokens = c.usage.total_tokens;
        },
        None => {},
    }
    rec
}

/// How many tokens a call used, none where that is not known.
pub fn tokens_of_call(call: &Option<LlmCallOutput>) -> (r: u64)
    ensures
        r == match *call {
            Some(c) => match c.usage.total_tokens {
                Some(t) => t,
                None => 0,
            },
            None => 0,
        },
{
    match call {
        Some(c) => match c.usage.total_tokens {
            Some(t) => t,
            None => 0,
        },
        None => 0,
    }
}

/// How far a position is sold off at a bid: most of it near one, some of it below; which
/// band that is, and the share.
pub open spec fn exit_target(bid: Scalar, cfg: VaultEngineConfig) -> Option<(u8, Scalar)> {
    if cfg.long_exit_price_95.spec_le(bid) {
        Some((2u8, cfg.long_exit_frac_95))
    } else if cfg.long_exit_price_90.spec_le(bid) {
        Some((1u8, cfg.long_exit_frac_90))
    } else {
        None
    }
}

/// The band and the share to sell of a position: nothing where it holds no shares, where
/// there is no bid, or where that band was reached before.
pub fn plan_exit(state: &LongEngineState, token_id: &str, shares: Scalar, bid: Option<Scalar>, cfg: &VaultEngineConfig) -> (r:
    Option<(u8, Scalar)>)
    ensures
        r == match bid {
            None => None,
            Some(b) => match exit_target(b, *cfg) {
                None => None,
                Some((band, frac)) => if shares.spec_le(Scalar::Rank(0)) || state.band(token_id@) >= band {
                    None
                } else {
                    Some((band, frac))
                },
            },
        },
{
    if shares.le(Scalar::Rank(0)) {
        return None;
    }
    let b = match bid {
        Some(b) => b,
        None => {
            return None;
        },
    };
    let (target, frac): (u8, Scalar) = if cfg.long_exit_price_95.le(b) {
        (2, cfg.long_exit_frac_95)
    } else if cfg.long_exit_price_90.le(b) {
        (1, cfg.long_exit_frac_90)
    } else {
        return None;
    };
    if state.exit_band_of(token_id) >= target {
        return None;
    }
    Some((target, frac))
}

/// The shares to sell, at least none.
pub fn shares_to_sell(product: Scalar) -> (r: Scalar)
    ensures
        r == product.spec_max(Scalar::Rank(0)),
{
    product.max(Scalar::Rank(0))
}

/// The name of a sale: one per token, band and half minute.
pub open spec fn exit_name(token_id: Seq<char>, band: int, now: int) -> Seq<char> {
    "betterbot:exit:"@ + token_id + ":"@ + decimal(band) + ":"@ + decimal(toward_zero(now, 30))
}

/// Names a sale.
pub fn exit_text(token_id: &str, band: u8, now: i64) -> (r: String)
    ensures
        r@ == exit_name(token_id@, band as int, now as int),
{
    let mut s = joined("betterbot:exit:", token_id);
    s = joined(s.as_str(), ":");
    s = joined(s.as_str(), decimal_u64(band as u64).as_str());
    s = joined(s.as_str(), ":");
    joined(s.as_str(), decimal_i64(div_toward_zero(now, 30)).as_str())
}

/// An order to sell shares of a token.
pub open spec fn is_exit(o: OrderRequest, token_id: Seq<char>, outcome: Seq<char>, bid: Scalar, notional: Scalar, id: Seq<char>) -> bool {
    &&& o.client_order_id@ == id
    &&& o.token_id@ == token_id
    &&& o.side == OrderSide::Sell
    &&& o.price == bid
    &&& o.notional_usdc == notional
    &&& o.tif == TimeInForce::Ioc
    &&& o.market_slug is None
    &&& text_view(o.outcome) == Some(outcome)
}

/// Sells shares of a token, where they are worth enough.
pub fn exit_order(
    token_id: &str,
    outcome: &str,
    band: u8,
    bid: Scalar,
    notional: Scalar,
    now: i64,
    cfg: &VaultEngineConfig,
) -> (r: Option<OrderRequest>)
    ensures
        r is Some <==> !notional.spec_lt(cfg.long_min_trade_usd),
        r matches Some(o) ==> is_exit(
            o,
            token_id@,
            outcome@,
            bid,
            notional,
            url_id(exit_name(token_id@, band as int, now as int)),
        ),
{
    let name = exit_text(token_id, band, now);
    let id = named_id(name.as_str());
    exit_order_under(token_id, outcome, bid, notional, cfg, id)
}

/// Sells shares of a token, under an identifier of the order.
pub fn exit_order_under(
    token_id: &str,
    outcome: &str,
    bid: Scalar,
    notional: Scalar,
    cfg: &VaultEngineConfig,
    id: String,
) -> (r: Option<OrderRequest>)
    ensures
        r is Some <==> !notional.spec_lt(cfg.long_min_trade_usd),
        r matches Some(o) ==> is_exit(o, token_id@, outcome@, bid, notional, id@),
{
    if notional.lt(cfg.long_min_trade_usd) {
        return None;
    }
    Some(
        OrderRequest {
            client_order_id: id,
            token_id: token_id.to_owned(),
            side: OrderSide::Sell,
            price: bid,
            notional_usdc: notional,
            tif: TimeInForce::Ioc,
            market_slug: None,
            outcome: Some(outcome.to_owned()),
        },
    )
}

/// Takes in that a sale was executed: the band is reached, and the sale is written to the
/// log with what is known of the token.
pub fn on_exit_filled(
    state: &mut LongEngineState,
    token_id: &str,
    outcome: &str,
    band: u8,
    ack: &OrderAck,
    shares: Scalar,
    market_slug: &Option<String>,
    decision_id: &Option<String>,
) -> (r: VaultActivityRecord)
    ensures
        is_trade_record(
            r,
            *ack,
            shares,
            token_id@,
            text_view(*market_slug),
            Some(outcome@),
            OrderSide::Sell,
            "LONG_EXIT"@,
            text_view(*decision_id),
        ),
        *final(state) == (LongEngineState { exit_bands: final(state).exit_bands, ..*old(state) }),
        final(state).exit_bands@ == old(state).exit_bands@.insert(token_id@, band),
{
    let sold = Some(outcome.to_owned());
    let record = trade_record(
        ack,
        shares,
        token_id,
        market_slug,
        &sold,
        OrderSide::Sell,
        "LONG_EXIT",
        decision_id,
    );
    state.set_exit_band(token_id, band);
    record
}

/// A position is sold off in a band once: after a sale in a band, no bid leads to a sale in
/// that band or a lower one.
pub proof fn law_bands_are_sold_once(
    before: LongEngineState,
    after: LongEngineState,
    token_id: Seq<char>,
    band: u8,
    bid: Scalar,
    cfg: VaultEngineConfig,
)
    requires
        after.exit_bands@ == before.exit_bands@.insert(token_id, band),
    ensures
        exit_target(bid, cfg) matches Some((target, frac)) ==> (after.band(token_id) >= target
            <==> band >= target),
{
}

proof fn lemma_votes_are_agreement(answers: Seq<ModelAnswer>, outcomes: Seq<Seq<char>>, i: int)
    ensures
        agreeing(answers, outcomes, i).len() == vote_count(answers, outcomes, i),
    decreases answers.len(),
{
    if answers.len() > 0 {
        lemma_votes_are_agreement(answers.drop_last(), outcomes, i);
    }
}

proof fn lemma_votes_are_exclusive(answers: Seq<ModelAnswer>, outcomes: Seq<Seq<char>>)
    ensures
        vote_count(answers, outcomes, 0) + vote_count(answers, outcomes, 1) <= answers.len(),
    decreases answers.len(),
{
    if answers.len() > 0 {
        lemma_votes_are_exclusive(answers.drop_last(), outcomes);
    }
}

/// Among four models, an outcome that wins has more votes than the other, and as many
/// models agree as voted for it.
pub proof fn law_winner_has_the_majority(answers: Seq<ModelAnswer>, outcomes: Seq<Seq<char>>)
    requires
        answers.len() <= PANEL + 1,
    ensures
        ({
            let zero = vote_count(answers, outcomes, 0);
            let one = vote_count(answers, outcomes, 1);
            let (w, n) = winner(zero, one);
            &&& n >= VOTES_NEEDED ==> n > vote_count(answers, outcomes, 1 - w)
            &&& agreeing(answers, outcomes, w).len() == n
        }),
{
    lemma_votes_are_exclusive(answers, outcomes);
    lemma_votes_are_agreement(answers, outcomes, 0);
    lemma_votes_are_agreement(answers, outcomes, 1);
}

/// An entry is no greater than the greatest trade nor than the bankroll, and no smaller
/// than the least trade, wherever these can be compared.
pub proof fn law_entry_is_bounded(scaled: Scalar, bankroll: Scalar, cfg: VaultEngineConfig)
    requires
        cfg.long_max_trade_usd is Rank,
        bankroll is Rank,
    ensures
        entry_amount(scaled, bankroll, cfg).spec_le(cfg.long_max_trade_usd),
        entry_amount(scaled, bankroll, cfg).spec_le(bankroll),
{
}

/// A market is decided on where it has two outcomes with a token each and ends in more than
/// a minute; the decision keeps all that as it is.
pub proof fn law_case_needs_two_outcomes_and_time(
    slug: &str,
    id: String,
    expiry: Option<i64>,
    gamma: GammaMarketLookup,
    now: i64,
    r: Option<LongCase>,
)
    requires
        call_ensures(open_case_under, (slug, id, expiry, gamma, now), r),
    ensures
        r is Some <==> gamma.outcomes.len() == 2 && gamma.clob_token_ids.len() == 2 && expiry is Some && expiry->0 > now
            + 60,
        r is Some ==> r->0.market_slug@ == slug@ && r->0.decision_id == id && r->0.now == now && r->0.expiry_ts
            == expiry->0 && r->0.now + r->0.tte_sec == expiry->0 && r->0.outcomes == gamma.outcomes
            && r->0.clob_token_ids == gamma.clob_token_ids,
{
}

/// A decision has one name for all of a minute, and an entry and a sale for half of one.
pub proof fn law_names_last_for_their_time(
    slug: &str,
    signal: &str,
    now: i64,
    later: i64,
    a: String,
    b: String,
    token: &str,
    band: u8,
    c: String,
    d: String,
    e: String,
    f: String,
)
    requires
        call_ensures(decision_text, (slug, signal, now), a),
        call_ensures(decision_text, (slug, signal, later), b),
        call_ensures(entry_text, (slug, token, now), c),
        call_ensures(entry_text, (slug, token, later), d),
        call_ensures(exit_text, (token, band, now), e),
        call_ensures(exit_text, (token, band, later), f),
        0 <= now <= later,
    ensures
        now as int / 60 == later as int / 60 ==> a@ == b@,
        now as int / 30 == later as int / 30 ==> c@ == d@ && e@ == f@,
        a@ == "betterbot:llm:"@ + slug@ + ":"@ + signal@ + ":"@ + decimal(now as int / 60),
        c@ == "betterbot:entry:"@ + slug@ + ":"@ + token@ + ":"@ + decimal(now as int / 30),
        e@ == "betterbot:exit:"@ + token@ + ":"@ + decimal(band as int) + ":"@ + decimal(now as int / 30),
{
}

/// A market that ends later than the horizon is not decided on.
pub proof fn law_horizon_is_a_bound(cfg: VaultEngineConfig, days: Scalar, r: bool)
    requires
        call_ensures(within_horizon, (&cfg, days), r),
        days is Rank,
        cfg.long_max_tte_days is Rank,
    ensures
        r <==> days.spec_le(cfg.long_max_tte_days),
{
}

/// The scout's answer to buy leads to the price of the token of its outcome; an answer to
/// hold is written down without figures.
pub proof fn law_scout_asks_for_its_outcome(
    case: LongCase,
    model: &str,
    d: ParsedDecisionDsl,
    r: Scouted,
    i: usize,
)
    requires
        is_case(case),
        call_ensures(on_scout, (&case, model, &Some(d)), r),
        d.outcome_in(views(case.outcomes@)) == Some(i),
    ensures
        d.action is Buy && d.p_true is Some ==> r is Price && r->outcome_i == i && i < 2 && r->p_true == d.p_true->0
            && r->token_id@ == case.clob_token_ids[i as int]@,
        d.action is Buy && d.p_true is None ==> r is Nothing,
        !(d.action is Buy) ==> r is Hold && r->Hold_0.action@ == "HOLD"@ && r->Hold_0.decision_id@ == case.decision_id@
            && r->Hold_0.market_slug@ == case.market_slug@ && r->Hold_0.created_at == case.now && r->Hold_0.p_true is None
            && r->Hold_0.outcome_index is None && r->Hold_0.edge is None && text_view(r->Hold_0.consensus_models) == Some(
            model@,
        ),
{
}

/// Without an outcome nothing is asked for.
pub proof fn law_scout_without_outcome_asks_nothing(
    case: LongCase,
    model: &str,
    answer: Option<ParsedDecisionDsl>,
    r: Scouted,
)
    requires
        is_case(case),
        call_ensures(on_scout, (&case, model, &answer), r),
        answer is None || (answer->0.action is Buy && answer->0.outcome_in(views(case.outcomes@)) is None),
    ensures
        r is Nothing,
{
}

/// An outcome can be bought at its ask where its spread is within its bound and its best ask
/// is worth enough; a spread that cannot be told is too wide, and a worth that cannot be told
/// is none.
pub proof fn law_quote_is_bought_within_bounds(q: TopQuote, cfg: VaultEngineConfig, r: Option<(Scalar, Scalar)>)
    requires
        call_ensures(gate_quote, (&q, &cfg), r),
        cfg.long_max_spread_bps is Rank,
        cfg.long_min_top_of_book_usd is Rank,
        q.spread_bps is Some ==> q.spread_bps->0 is Rank,
        q.top_usd is Some ==> q.top_usd->0 is Rank,
    ensures
        q.spread_bps is Some && q.top_usd is Some ==> (r is Some <==> q.ask is Some && q.spread_bps->0.spec_le(
            cfg.long_max_spread_bps,
        ) && cfg.long_min_top_of_book_usd.spec_le(q.top_usd->0)),
        q.spread_bps is None && cfg.long_max_spread_bps.spec_lt(Scalar::Rank(R_999999)) ==> r is None,
        q.top_usd is None && Scalar::Rank(0).spec_lt(cfg.long_min_top_of_book_usd) ==> r is None,
        r is Some ==> (r->0).0 == q.ask->0,
        r is Some && q.spread_bps is Some ==> (r->0).1 == q.spread_bps->0,
{
}

/// What a trade loses is half the spread, its minimum at least, and a price with its costs
/// stays between its bounds.
pub proof fn law_costs_have_their_bounds(
    half: Scalar,
    cfg: VaultEngineConfig,
    slip: Scalar,
    sum: Scalar,
    price: Scalar,
)
    requires
        call_ensures(slippage_of, (half, &cfg), slip),
        call_ensures(effective_price, (sum,), price),
        half is Rank,
        cfg.long_slippage_buffer_min is Rank,
        sum is Rank,
    ensures
        half.spec_le(slip) && cfg.long_slippage_buffer_min.spec_le(slip),
        slip == half || slip == cfg.long_slippage_buffer_min,
        Scalar::Rank(R_0_0001).spec_le(price) && price.spec_le(Scalar::Rank(R_0_9999)),
        Scalar::Rank(R_0_0001).spec_le(sum) && sum.spec_le(Scalar::Rank(R_0_9999)) ==> price == sum,
{
}

/// A narrow edge of the scout is written down as a decision to hold, with its figures.
pub proof fn law_narrow_edge_holds(
    case: LongCase,
    model: &str,
    scout: ParsedDecisionDsl,
    i: usize,
    b: PricedBelief,
    cfg: VaultEngineConfig,
    r: Option<LlmDecisionRecord>,
)
    requires
        is_case(case),
        i < 2,
        call_ensures(on_scout_edge, (&case, model, &scout, i, &b, &cfg), r),
    ensures
        r is Some <==> b.edge.spec_lt(cfg.long_min_edge),
        r is Some ==> r->0.action@ == "HOLD"@ && r->0.outcome_index is Some && r->0.outcome_index->0 == i && text_view(
            r->0.outcome_text,
        ) == Some(case.outcomes[i as int]@) && r->0.edge == Some(b.edge) && r->0.ask == Some(b.ask) && r->0.bid == b.bid
            && r->0.p_true == Some(b.p_true) && r->0.p_eff == Some(b.p_eff) && r->0.size_mult == scout.size_mult
            && r->0.decision_id@ == case.decision_id@ && r->0.market_slug@ == case.market_slug@,
{
}

/// Beside the first model, which is the scout, at most three more are asked, in their order.
pub proof fn law_panel_follows_the_scout(cfg: VaultEngineConfig, r: Vec<String>, i: int)
    requires
        call_ensures(panel_models, (&cfg,), r),
    ensures
        r.len() <= 3,
        1 <= cfg.long_models.len() <= 4 ==> r.len() == cfg.long_models.len() - 1,
        cfg.long_models.len() > 4 ==> r.len() == 3,
        0 <= i < r.len() ==> r[i]@ == cfg.long_models[i + 1]@,
{
    assert(views(r@).len() == r.len());
    assert(views(cfg.long_models@).len() == cfg.long_models.len());
    if 0 <= i < r.len() {
        assert(views(r@)[i] == r[i]@);
        assert(views(cfg.long_models@)[i + 1] == cfg.long_models[i + 1]@);
    }
}

/// Each answer to buy is a vote for its outcome and for no other.
pub proof fn law_each_answer_votes_once(
    answers: Vec<ModelAnswer>,
    fewer: Vec<ModelAnswer>,
    outcomes: Vec<String>,
    r: (usize, usize),
    s: (usize, usize),
)
    requires
        answers.len() > 0,
        fewer@ == answers@.drop_last(),
        call_ensures(tally, (&answers, &outcomes), r),
        call_ensures(tally, (&fewer, &outcomes), s),
    ensures
        ({
            let last = answers@.last().answer;
            let pick = last->0.outcome_in(views(outcomes@));
            let buys = last is Some && last->0.action is Buy;
            &&& buys && pick == Some(0usize) ==> r.0 == s.0 + 1 && r.1 == s.1
            &&& buys && pick == Some(1usize) ==> r.0 == s.0 && r.1 == s.1 + 1
            &&& !buys || pick is None ==> r == s
        }),
{
}

/// An outcome wins with three votes, and not with fewer; the one with more votes wins.
pub proof fn law_three_votes_win(
    case: LongCase,
    scout: ParsedDecisionDsl,
    i: usize,
    b: PricedBelief,
    answers: Vec<ModelAnswer>,
    r: Voted,
    votes: (usize, usize),
)
    requires
        is_case(case),
        i < 2,
        call_ensures(on_votes, (&case, &scout, i, &b, &answers), r),
        call_ensures(tally, (&answers, &case.outcomes), votes),
    ensures
        r is Agreed <==> votes.0 >= 3 || votes.1 >= 3,
        r is Agreed && votes.0 >= votes.1 ==> r->Agreed_0.win_i == 0 && r->Agreed_0.win_votes == votes.0,
        r is Agreed && votes.0 < votes.1 ==> r->Agreed_0.win_i == 1 && r->Agreed_0.win_votes == votes.1,
        r is Agreed ==> r->Agreed_0.models.len() == r->Agreed_0.win_votes && r->Agreed_0.p_list.len()
            <= r->Agreed_0.win_votes,
        r is Hold ==> r->Hold_0.action@ == "HOLD"@ && r->Hold_0.edge == Some(b.edge) && r->Hold_0.outcome_index is Some
            && r->Hold_0.outcome_index->0 == i,
{
    let o = views(case.outcomes@);
    lemma_votes_are_agreement(answers@, o, 0);
    lemma_votes_are_agreement(answers@, o, 1);
    if r is Agreed {
        let g = r->Agreed_0;
        assert(views(g.models@).len() == g.models.len());
        lemma_fewer_chances(agreeing(answers@, o, g.win_i as int));
    }
}

proof fn lemma_fewer_chances(a: Seq<ModelAnswer>)
    ensures
        chances(a).len() <= a.len(),
        sizes(a).len() <= a.len(),
    decreases a.len(),
{
    if a.len() > 0 {
        lemma_fewer_chances(a.drop_last());
    }
}

/// The models that agree are those that voted for the outcome that won, and a probability
/// and a size that one of them gives is among those that are averaged.
pub proof fn law_agreement_is_of_those_who_voted(
    case: LongCase,
    scout: ParsedDecisionDsl,
    i: usize,
    b: PricedBelief,
    answers: Vec<ModelAnswer>,
    r: Voted,
    k: int,
)
    requires
        is_case(case),
        i < 2,
        call_ensures(on_votes, (&case, &scout, i, &b, &answers), r),
        r is Agreed,
        0 <= k < answers.len(),
        answers[k].answer is Some,
        answers[k].answer->0.action is Buy,
        answers[k].answer->0.outcome_in(views(case.outcomes@)) == Some(r->Agreed_0.win_i),
    ensures
        views(r->Agreed_0.models@).contains(answers[k].model@),
        answers[k].answer->0.p_true is Some ==> r->Agreed_0.p_list@.contains(answers[k].answer->0.p_true->0),
        answers[k].answer->0.size_mult is Some ==> r->Agreed_0.size_mults@.contains(answers[k].answer->0.size_mult->0),
{
    let o = views(case.outcomes@);
    let w = r->Agreed_0.win_i as int;
    lemma_voter_agrees(answers@, o, w, k);
    let a = agreeing(answers@, o, w);
    let m = choose|m: int| 0 <= m < a.len() && a[m] == answers@[k];
    assert(model_names(a)[m] == answers[k].model@);
    lemma_chance_is_among(a, m);
}

proof fn lemma_voter_agrees(answers: Seq<ModelAnswer>, outcomes: Seq<Seq<char>>, i: int, k: int)
    requires
        0 <= k < answers.len(),
        votes_for(answers[k], outcomes, i),
    ensures
        agreeing(answers, outcomes, i).contains(answers[k]),
    decreases answers.len(),
{
    let front = answers.drop_last();
    let before = agreeing(front, outcomes, i);
    let all = agreeing(answers, outcomes, i);
    if k < front.len() {
        assert(front[k] == answers[k]);
        lemma_voter_agrees(front, outcomes, i, k);
        let m = choose|m: int| 0 <= m < before.len() && before[m] == answers[k];
        assert(all[m] == answers[k]);
    } else {
        assert(all[before.len() as int] == answers[k]);
    }
}

proof fn lemma_chance_is_among(a: Seq<ModelAnswer>, m: int)
    requires
        0 <= m < a.len(),
        a[m].answer is Some,
    ensures
        a[m].answer->0.p_true is Some ==> chances(a).contains(a[m].answer->0.p_true->0),
        a[m].answer->0.size_mult is Some ==> sizes(a).contains(a[m].answer->0.size_mult->0),
    decreases a.len(),
{
    let front = a.drop_last();
    if m < front.len() {
        assert(front[m] == a[m]);
        lemma_chance_is_among(front, m);
        if a[m].answer->0.p_true is Some {
            let p = a[m].answer->0.p_true->0;
            let i = choose|i: int| 0 <= i < chances(front).len() && chances(front)[i] == p;
            assert(chances(a)[i] == p);
        }
        if a[m].answer->0.size_mult is Some {
            let p = a[m].answer->0.size_mult->0;
            let i = choose|i: int| 0 <= i < sizes(front).len() && sizes(front)[i] == p;
            assert(sizes(a)[i] == p);
        }
    } else {
        if a[m].answer->0.p_true is Some {
            assert(chances(a)[chances(front).len() as int] == a[m].answer->0.p_true->0);
        }
        if a[m].answer->0.size_mult is Some {
            assert(sizes(a)[sizes(front).len() as int] == a[m].answer->0.size_mult->0);
        }
    }
}

/// What the models agree on is their mean where they give figures, else what the scout gave,
/// else one half; a share lies between zero and one.
pub proof fn law_agreement_falls_back_to_the_scout(
    g: Agreement,
    mean: Scalar,
    scout_p: Scalar,
    scout_size: Option<Scalar>,
    p: Scalar,
    size: Scalar,
    dispersion: Scalar,
    one_less: Scalar,
    penalty: Scalar,
)
    requires
        call_ensures(agreed_chance, (&g, mean, scout_p), p),
        call_ensures(agreed_size, (&g, mean, scout_size), size),
        call_ensures(dispersion_penalty, (dispersion, one_less), penalty),
        mean is Rank,
        one_less is Rank,
        scout_size is Some ==> scout_size->0 is Rank,
    ensures
        ({
            let nought = Scalar::Rank(0);
            let one = Scalar::Rank(ONE_RANK);
            &&& g.p_list.len() > 0 ==> p == mean
            &&& g.p_list.len() == 0 ==> p == scout_p
            &&& nought.spec_le(size) && size.spec_le(one)
            &&& g.size_mults.len() > 0 && nought.spec_le(mean) && mean.spec_le(one) ==> size == mean
            &&& g.size_mults.len() == 0 && scout_size is None ==> size == Scalar::Rank(HALF_RANK)
            &&& g.size_mults.len() == 0 && scout_size is Some && nought.spec_le(scout_size->0) && scout_size->0.spec_le(one)
                ==> size == scout_size->0
            &&& nought.spec_le(penalty) && penalty.spec_le(one)
            &&& !dispersion.spec_is_finite() ==> penalty == one
            &&& dispersion.spec_is_finite() && nought.spec_le(one_less) && one_less.spec_le(one) ==> penalty == one_less
        }),
{
}

/// A stake is worked out where the edge is wide enough and there is money, with the bounds
/// of this strategy.
pub proof fn law_stake_has_the_bounds_of_its_strategy(
    cfg: VaultEngineConfig,
    edge: Scalar,
    bankroll: Scalar,
    r: Option<KellyParams>,
)
    requires
        call_ensures(stake_params, (&cfg, edge, bankroll), r),
        edge is Rank && bankroll is Rank && cfg.long_min_edge is Rank,
    ensures
        r is Some <==> cfg.long_min_edge.spec_le(edge) && Scalar::Rank(0).spec_lt(bankroll),
        r is Some ==> r->0.bankroll == bankroll && r->0.kelly_fraction == cfg.long_kelly_fraction
            && r->0.max_position_pct == cfg.long_max_position_pct && r->0.min_position_usd == cfg.long_min_trade_usd,
{
}

/// An entry buys the token of the outcome that won, at its ask, for the smallest of the
/// stake, the greatest trade and the bankroll; a smaller one than the least trade is left.
pub proof fn law_entry_buys_the_winner(
    case: LongCase,
    win_i: usize,
    ask: Scalar,
    kelly: KellyResult,
    scaled: Scalar,
    bankroll: Scalar,
    cfg: VaultEngineConfig,
    id: String,
    r: Option<OrderRequest>,
)
    requires
        is_case(case),
        win_i < 2,
        call_ensures(entry_order_under, (&case, win_i, ask, &kelly, scaled, bankroll, &cfg, id), r),
        scaled is Rank && bankroll is Rank && cfg.long_max_trade_usd is Rank && cfg.long_min_trade_usd is Rank,
    ensures
        r is Some <==> kelly.should_trade && cfg.long_min_trade_usd.spec_le(scaled) && cfg.long_min_trade_usd.spec_le(
            bankroll,
        ) && cfg.long_min_trade_usd.spec_le(cfg.long_max_trade_usd),
        r is Some ==> {
            let o = r->0;
            &&& o.client_order_id@ == id@
            &&& o.token_id@ == case.clob_token_ids[win_i as int]@
            &&& text_view(o.outcome) == Some(case.outcomes[win_i as int]@)
            &&& text_view(o.market_slug) == Some(case.market_slug@)
            &&& o.side is Buy && o.tif is Ioc && o.price == ask
            &&& o.notional_usdc.spec_le(scaled) && o.notional_usdc.spec_le(bankroll) && o.notional_usdc.spec_le(
                cfg.long_max_trade_usd,
            )
            &&& o.notional_usdc == scaled || o.notional_usdc == bankroll || o.notional_usdc == cfg.long_max_trade_usd
        },
{
}

/// A filled entry is written down as a purchase of the outcome that won, and its market
/// rests from then on.
pub proof fn law_filled_entry_is_written_down(
    case: LongCase,
    s: &mut LongEngineState,
    scout: ParsedDecisionDsl,
    g: Agreement,
    order: OrderRequest,
    ack: OrderAck,
    shares: Scalar,
    b: PricedBelief,
    size_mult: Scalar,
    r: (VaultActivityRecord, LlmDecisionRecord),
)
    requires
        is_case(case),
        g.win_i < 2,
        call_ensures(on_entry_filled, (&case, s, &scout, &g, &order, &ack, shares, &b, size_mult), r),
    ensures
        r.1.action@ == "BUY"@ && r.1.decision_id@ == case.decision_id@ && r.1.market_slug@ == case.market_slug@,
        r.1.outcome_index is Some && (r.1.outcome_index)->0 == g.win_i,
        text_view(r.1.outcome_text) == Some(case.outcomes[g.win_i as int]@),
        r.1.ask == Some(b.ask) && r.1.edge == Some(b.edge) && r.1.p_true == Some(b.p_true) && r.1.p_eff == Some(b.p_eff),
        r.1.bid is None && r.1.size_mult == Some(size_mult),
        text_view(r.1.consensus_models) == Some(join_views(views(g.models@), ","@)),
        old(s).markets@.contains_key(lowercase(case.market_slug@)) ==> final(s).markets@[lowercase(
            case.market_slug@,
        )].last_trade_at == case.now,
        final(s).exit_bands == old(s).exit_bands && final(s).calls_today == old(s).calls_today,
{
}

/// A call is written down as it was: its answer counts as read where there is one and
/// nothing went wrong.
pub proof fn law_call_is_written_down(
    id: String,
    decision: &str,
    model: &str,
    at: i64,
    call: Option<LlmCallOutput>,
    parsed: Option<ParsedDecisionDsl>,
    error: Option<String>,
    r: LlmModelRecord,
    tokens: u64,
)
    requires
        call_ensures(long_record_model_call_with, (id, decision, model, at, &call, &parsed, &error), r),
        call_ensures(tokens_of_call, (&call,), tokens),
    ensures
        r.id == id && r.decision_id@ == decision@ && r.model@ == model@ && r.created_at == at,
        r.parsed_ok <==> parsed is Some && error is None,
        parsed is Some && parsed->0.action is Buy ==> text_view(r.action) == Some("BUY"@),
        parsed is Some && parsed->0.action is Hold ==> text_view(r.action) == Some("HOLD"@),
        parsed is Some ==> r.p_true == parsed->0.p_true && r.size_mult == parsed->0.size_mult,
        parsed is None ==> r.action is None && r.p_true is None && r.size_mult is None,
        call is Some ==> text_view(r.raw_dsl) == Some(call->0.content@) && r.latency_ms == Some(call->0.latency_ms)
            && r.prompt_tokens == call->0.usage.prompt_tokens && r.completion_tokens == call->0.usage.completion_tokens
            && r.total_tokens == call->0.usage.total_tokens,
        call is None ==> r.raw_dsl is None && r.latency_ms is None && r.total_tokens is None && tokens == 0,
        call is Some && call->0.usage.total_tokens is Some ==> tokens == call->0.usage.total_tokens->0,
        call is Some && call->0.usage.total_tokens is None ==> tokens == 0,
        text_view(r.error) == text_view(error),
{
}

/// A position is sold off by the upper share at the upper price and by the lower one below,
/// where it has shares and was not sold off that far.
pub proof fn law_position_is_sold_by_its_bid(
    s: LongEngineState,
    token: &str,
    shares: Scalar,
    bid: Option<Scalar>,
    cfg: VaultEngineConfig,
    band: u8,
    r: Option<(u8, Scalar)>,
)
    requires
        call_ensures(plan_exit, (&s, token, shares, bid, &cfg), r),
        call_ensures(LongEngineState::exit_band_of, (&s, token), band),
        shares is Rank,
    ensures
        ({
            let upper = bid is Some && cfg.long_exit_price_95.spec_le(bid->0);
            let lower = bid is Some && !upper && cfg.long_exit_price_90.spec_le(bid->0);
            let some = Scalar::Rank(0).spec_lt(shares);
            &&& r is Some <==> some && ((upper && band < 2) || (lower && band < 1))
            &&& r is Some && upper ==> (r->0).0 == 2 && (r->0).1 == cfg.long_exit_frac_95
            &&& r is Some && lower ==> (r->0).0 == 1 && (r->0).1 == cfg.long_exit_frac_90
        }),
{
}

/// A sale is one of the token at its bid, where it is worth the least trade; what is sold is
/// never below nothing.
pub proof fn law_exit_sells_at_the_bid(
    token: &str,
    outcome: &str,
    bid: Scalar,
    notional: Scalar,
    cfg: VaultEngineConfig,
    id: String,
    r: Option<OrderRequest>,
    product: Scalar,
    shares: Scalar,
)
    requires
        call_ensures(exit_order_under, (token, outcome, bid, notional, &cfg, id), r),
        call_ensures(shares_to_sell, (product,), shares),
        product is Rank,
    ensures
        r is Some <==> !notional.spec_lt(cfg.long_min_trade_usd),
        r is Some ==> {
            let o = r->0;
            &&& o.client_order_id@ == id@ && o.token_id@ == token@ && text_view(o.outcome) == Some(outcome@)
            &&& o.side is Sell && o.tif is Ioc && o.price == bid && o.notional_usdc == notional && o.market_slug is None
        },
        Scalar::Rank(0).spec_le(shares),
        Scalar::Rank(0).spec_le(product) ==> shares == product,
        product.spec_lt(Scalar::Rank(0)) ==> shares == Scalar::Rank(0),
{
}

/// A filled sale reaches its band for its token alone.
pub proof fn law_filled_exit_reaches_its_band(
    s: &mut LongEngineState,
    token: &str,
    outcome: &str,
    band: u8,
    ack: OrderAck,
    shares: Scalar,
    slug: Option<String>,
    decision: Option<String>,
    r: VaultActivityRecord,
    after: LongEngineState,
    before: LongEngineState,
    other: &str,
    a: u8,
    b: u8,
    c: u8,
)
    requires
        call_ensures(on_exit_filled, (s, token, outcome, band, &ack, shares, &slug, &decision), r),
        before == *old(s),
        after == *final(s),
        other@ != token@,
        call_ensures(LongEngineState::exit_band_of, (&after, token), a),
        call_ensures(LongEngineState::exit_band_of, (&after, other), b),
        call_ensures(LongEngineState::exit_band_of, (&before, other), c),
    ensures
        a == band,
        b == c,
        after.markets == before.markets && after.calls_today == before.calls_today,
{
}

/// A case is opened on a market as it is under its identifier, which is that of its name, and
/// with the time of the signal before that of the listing.
pub proof fn law_case_has_the_identifier_of_its_name(
    slug: &str,
    signal: MarketSignal,
    gamma: GammaMarketLookup,
    now: i64,
    r: Option<LongCase>,
    expiry: Option<i64>,
    lower: &str,
    id: &str,
    name: String,
)
    requires
        call_ensures(open_case, (slug, &signal, gamma, now), r),
        call_ensures(parse_expiry_ts, (&signal.details.expiry_time, &gamma.end_date_iso), expiry),
        lower@ == lowercase(slug@),
        id@ == signal.id@,
        call_ensures(decision_text, (lower, id, now), name),
    ensures
        r is Some <==> gamma.outcomes.len() == 2 && gamma.clob_token_ids.len() == 2 && expiry is Some && expiry->0 > now
            + 60,
        r is Some ==> r->0.decision_id@ == url_id(name@) && r->0.expiry_ts == expiry->0 && r->0.market_slug@ == slug@
            && r->0.now == now && r->0.outcomes == gamma.outcomes && r->0.clob_token_ids == gamma.clob_token_ids,
{
}

/// An entry and a sale are the same under an identifier of their names.
pub proof fn law_orders_have_the_identifiers_of_their_names(
    case: LongCase,
    win_i: usize,
    ask: Scalar,
    kelly: KellyResult,
    scaled: Scalar,
    bankroll: Scalar,
    cfg: VaultEngineConfig,
    a: Option<OrderRequest>,
    id: String,
    b: Option<OrderRequest>,
    token: &str,
    outcome: &str,
    band: u8,
    bid: Scalar,
    notional: Scalar,
    now: i64,
    c: Option<OrderRequest>,
    name: String,
    x: Scalar,
    unit: Scalar,
)
    requires
        is_case(case),
        win_i < 2,
        call_ensures(entry_order, (&case, win_i, ask, &kelly, scaled, bankroll, &cfg), a),
        call_ensures(entry_order_under, (&case, win_i, ask, &kelly, scaled, bankroll, &cfg, id), b),
        call_ensures(exit_order, (token, outcome, band, bid, notional, now, &cfg), c),
        call_ensures(exit_text, (token, band, now), name),
        call_ensures(hold_in_unit, (x,), unit),
        x is Rank,
    ensures
        a is Some <==> b is Some,
        a is Some ==> a->0.token_id@ == b->0.token_id@ && a->0.price == b->0.price && a->0.notional_usdc
            == b->0.notional_usdc && a->0.side == b->0.side && a->0.tif == b->0.tif,
        c is Some <==> !notional.spec_lt(cfg.long_min_trade_usd),
        c is Some ==> c->0.client_order_id@ == url_id(name@) && c->0.side is Sell && c->0.token_id@ == token@ && c->0.price
            == bid && c->0.notional_usdc == notional,
        Scalar::Rank(0).spec_le(unit) && unit.spec_le(Scalar::Rank(ONE_RANK)),
        Scalar::Rank(0).spec_le(x) && x.spec_le(Scalar::Rank(ONE_RANK)) ==> unit == x,
{
}

} // verus!
