//! The price-driven strategy for quarter-hour markets, and its latency records.
use super::execution::{OrderRequest, OrderSide, TimeInForce};
use super::updown15m::{market_slug, slug_of, window_start, window_start_of, UpDownAsset};
use crate::base::clock::less_than_apart;
use crate::base::ids::fresh_id;
use crate::base::scalar::{Scalar, HALF_RANK, ONE_RANK};
use crate::base::settings::{
    integer_setting,
    is_unset,
    number_or,
    number_setting,
    set_above_zero,
    set_up_to,
    set_whole,
    signed_or,
    unsigned_or,
    Environment,
    Range,
};
use crate::base::table::Table;
use crate::base::text::same;
use std::collections::VecDeque;
use vstd::prelude::*;

verus! {

/// How many spans are kept.
pub const KEPT_SPANS: usize = 100;

/// What one attempt to trade took, and how it ended.
#[derive(Debug)]
pub struct TradeSpan {
    pub span_id: String,
    pub market_slug: String,
    pub asset: String,
    pub price_received_ns: u64,
    pub evaluation_start_ns: u64,
    pub gamma_lookup_done_ns: u64,
    pub book_fetch_done_ns: u64,
    pub kelly_done_ns: u64,
    pub order_submitted_ns: u64,
    pub order_acked_ns: u64,
    pub ledger_updated_ns: u64,
    pub latency_to_eval_us: u64,
    pub latency_gamma_us: u64,
    pub latency_book_us: u64,
    pub latency_kelly_us: u64,
    pub latency_submit_us: u64,
    pub latency_ledger_us: u64,
    pub latency_total_us: u64,
    pub gamma_cache_hit: bool,
    pub book_cache_hit: bool,
    pub traded: bool,
    pub skip_reason: Option<String>,
}

/// A span as a value.
pub struct SpanView {
    pub span_id: Seq<char>,
    pub market_slug: Seq<char>,
    pub asset: Seq<char>,
    pub price_received_ns: u64,
    pub evaluation_start_ns: u64,
    pub gamma_lookup_done_ns: u64,
    pub book_fetch_done_ns: u64,
    pub kelly_done_ns: u64,
    pub order_submitted_ns: u64,
    pub order_acked_ns: u64,
    pub ledger_updated_ns: u64,
    pub latency_to_eval_us: u64,
    pub latency_gamma_us: u64,
    pub latency_book_us: u64,
    pub latency_kelly_us: u64,
    pub latency_submit_us: u64,
    pub latency_ledger_us: u64,
    pub latency_total_us: u64,
    pub gamma_cache_hit: bool,
    pub book_cache_hit: bool,
    pub traded: bool,
    pub skip_reason: Option<Seq<char>>,
}

/// How long the stages of the way from a price to an order took, in whole microseconds:
/// finding the tokens, sizing, making the order, sending it, and the way as a whole.
#[derive(Clone, Copy, Debug, PartialEq, Eq, Structural)]
pub struct SpanStages {
    pub signal_compute_us: u64,
    pub risk_check_us: u64,
    pub order_build_us: u64,
    pub wire_send_us: u64,
    pub total_us: u64,
}

impl View for TradeSpan {
    type V = SpanView;

    open spec fn view(&self) -> SpanView {
        SpanView {
            span_id: self.span_id@,
            market_slug: self.market_slug@,
            asset: self.asset@,
            price_received_ns: self.price_received_ns,
            evaluation_start_ns: self.evaluation_start_ns,
            gamma_lookup_done_ns: self.gamma_lookup_done_ns,
            book_fetch_done_ns: self.book_fetch_done_ns,
            kelly_done_ns: self.kelly_done_ns,
            order_submitted_ns: self.order_submitted_ns,
            order_acked_ns: self.order_acked_ns,
            ledger_updated_ns: self.ledger_updated_ns,
            latency_to_eval_us: self.latency_to_eval_us,
            latency_gamma_us: self.latency_gamma_us,
            latency_book_us: self.latency_book_us,
            latency_kelly_us: self.latency_kelly_us,
            latency_submit_us: self.latency_submit_us,
            latency_ledger_us: self.latency_ledger_us,
            latency_total_us: self.latency_total_us,
            gamma_cache_hit: self.gamma_cache_hit,
            book_cache_hit: self.book_cache_hit,
            traded: self.traded,
            skip_reason: match self.skip_reason {
                Some(r) => Some(r@),
                None => None,
            },
        }
    }
}

/// The span of an attempt that has just begun.
pub open spec fn new_span(
    id: Seq<char>,
    slug: Seq<char>,
    asset: Seq<char>,
    price_received_ns: u64,
) -> SpanView {
    SpanView {
        span_id: id,
        market_slug: slug,
        asset,
        price_received_ns,
        evaluation_start_ns: 0,
        gamma_lookup_done_ns: 0,
        book_fetch_done_ns: 0,
        kelly_done_ns: 0,
        order_submitted_ns: 0,
        order_acked_ns: 0,
        ledger_updated_ns: 0,
        latency_to_eval_us: 0,
        latency_gamma_us: 0,
        latency_book_us: 0,
        latency_kelly_us: 0,
        latency_submit_us: 0,
        latency_ledger_us: 0,
        latency_total_us: 0,
        gamma_cache_hit: false,
        book_cache_hit: false,
        traded: false,
        skip_reason: None,
    }
}

/// The whole microseconds from one instant to a later one; `kept` where the
/// second is not later.
pub open spec fn micros_between(from: u64, to: u64, kept: u64) -> u64 {
    if to > from {
        ((to - from) / 1000) as u64
    } else {
        kept
    }
}

pub open spec fn later(a: u64, b: u64) -> u64 {
    if a >= b {
        a
    } else {
        b
    }
}

impl SpanView {
    /// The last instant of the attempt: the ledger update of a trade, else the last
    /// step that was reached.
    pub open spec fn end_ns(self) -> u64 {
        if self.traded {
            self.ledger_updated_ns
        } else {
            later(
                later(later(self.kelly_done_ns, self.book_fetch_done_ns), self.gamma_lookup_done_ns),
                self.evaluation_start_ns,
            )
        }
    }

    /// How long each stage took, nothing where it did not end later than it began.
    pub open spec fn stages(self) -> SpanStages {
        SpanStages {
            signal_compute_us: micros_between(self.evaluation_start_ns, self.gamma_lookup_done_ns, 0),
            risk_check_us: micros_between(self.book_fetch_done_ns, self.kelly_done_ns, 0),
            order_build_us: micros_between(self.kelly_done_ns, self.order_submitted_ns, 0),
            wire_send_us: micros_between(self.order_submitted_ns, self.order_acked_ns, 0),
            total_us: self.latency_total_us,
        }
    }

    /// The span with its latencies worked out.
    pub open spec fn finalized(self) -> SpanView {
        SpanView {
            latency_to_eval_us: micros_between(
                self.price_received_ns,
                self.evaluation_start_ns,
                self.latency_to_eval_us,
            ),
            latency_gamma_us: micros_between(
                self.evaluation_start_ns,
                self.gamma_lookup_done_ns,
                self.latency_gamma_us,
            ),
            latency_book_us: micros_between(
                self.gamma_lookup_done_ns,
                self.book_fetch_done_ns,
                self.latency_book_us,
            ),
            latency_kelly_us: micros_between(
                self.book_fetch_done_ns,
                self.kelly_done_ns,
                self.latency_kelly_us,
            ),
            latency_submit_us: micros_between(
                self.kelly_done_ns,
                self.order_submitted_ns,
                self.latency_submit_us,
            ),
            latency_ledger_us: micros_between(
                self.order_acked_ns,
                self.ledger_updated_ns,
                self.latency_ledger_us,
            ),
            latency_total_us: micros_between(
                self.price_received_ns,
                self.end_ns(),
                self.latency_total_us,
            ),
            ..self
        }
    }

    /// The span closed because of `reason`.
    pub open spec fn skipped(self, reason: Seq<char>) -> SpanView {
        SpanView { skip_reason: Some(reason), ..self }.finalized()
    }
}

fn micros(from: u64, to: u64, kept: u64) -> (r: u64)
    ensures
        r == micros_between(from, to, kept),
{
    if to > from {
        (to - from) / 1000
    } else {
        kept
    }
}

fn later_of(a: u64, b: u64) -> (r: u64)
    ensures
        r == later(a, b),
{
    if a >= b {
        a
    } else {
        b
    }
}

fn copy_text(t: &Option<String>) -> (r: Option<String>)
    ensures
        r == t,
{
    match t {
        Some(s) => Some(s.clone()),
        None => None,
    }
}

impl TradeSpan {
    /// A span with a fresh identifier.
    pub fn new(market_slug: &str, asset: &str, price_received_ns: u64) -> (r: TradeSpan)
        ensures
            r@ == new_span(r.span_id@, market_slug@, asset@, price_received_ns),
            r.span_id@.len() == 36,
    {
        TradeSpan::with_id(fresh_id(), market_slug, asset, price_received_ns)
    }

    /// A span with a given identifier.
    pub fn with_id(span_id: String, market_slug: &str, asset: &str, price_received_ns: u64) -> (r:
        TradeSpan)
        ensures
            r@ == new_span(span_id@, market_slug@, asset@, price_received_ns),
    {
        TradeSpan {
            span_id,
            market_slug: market_slug.to_owned(),
            asset: asset.to_owned(),
            price_received_ns,
            evaluation_start_ns: 0,
            gamma_lookup_done_ns: 0,
            book_fetch_done_ns: 0,
            kelly_done_ns: 0,
            order_submitted_ns: 0,
            order_acked_ns: 0,
            ledger_updated_ns: 0,
            latency_to_eval_us: 0,
            latency_gamma_us: 0,
            latency_book_us: 0,
            latency_kelly_us: 0,
            latency_submit_us: 0,
            latency_ledger_us: 0,
            latency_total_us: 0,
            gamma_cache_hit: false,
            book_cache_hit: false,
            traded: false,
            skip_reason: None,
        }
    }

    /// Works the latencies out of the instants.
    pub fn finalize(&mut self)
        ensures
            final(self)@ == old(self)@.finalized(),
    {
        let end_ns = if self.traded {
            self.ledger_updated_ns
        } else {
            later_of(
                later_of(
                    later_of(self.kelly_done_ns, self.book_fetch_done_ns),
                    self.gamma_lookup_done_ns,
                ),
                self.evaluation_start_ns,
            )
        };
        self.latency_to_eval_us = micros(
            self.price_received_ns,
            self.evaluation_start_ns,
            self.latency_to_eval_us,
        );
        self.latency_gamma_us = micros(
            self.evaluation_start_ns,
            self.gamma_lookup_done_ns,
            self.latency_gamma_us,
        );
        self.latency_book_us = micros(
            self.gamma_lookup_done_ns,
            self.book_fetch_done_ns,
            self.latency_book_us,
        );
        self.latency_kelly_us = micros(
            self.book_fetch_done_ns,
            self.kelly_done_ns,
            self.latency_kelly_us,
        );
        self.latency_submit_us = micros(
            self.kelly_done_ns,
            self.order_submitted_ns,
            self.latency_submit_us,
        );
        self.latency_ledger_us = micros(
            self.order_acked_ns,
            self.ledger_updated_ns,
            self.latency_ledger_us,
        );
        self.latency_total_us = micros(self.price_received_ns, end_ns, self.latency_total_us);
    }

    /// How long each stage of the way from the price to the order took.
    pub fn stages(&self) -> (r: SpanStages)
        ensures
            r == self@.stages(),
    {
        SpanStages {
            signal_compute_us: micros(self.evaluation_start_ns, self.gamma_lookup_done_ns, 0),
            risk_check_us: micros(self.book_fetch_done_ns, self.kelly_done_ns, 0),
            order_build_us: micros(self.kelly_done_ns, self.order_submitted_ns, 0),
            wire_send_us: micros(self.order_submitted_ns, self.order_acked_ns, 0),
            total_us: self.latency_total_us,
        }
    }

    /// Closes the span because of `reason`.
    fn skip(&mut self, reason: &str)
        ensures
            final(self)@ == old(self)@.skipped(reason@),
    {
        self.skip_reason = Some(reason.to_owned());
        self.finalize();
    }

    fn copy(&self) -> (r: TradeSpan)
        ensures
            r@ == self@,
    {
        TradeSpan {
            span_id: self.span_id.clone(),
            market_slug: self.market_slug.clone(),
            asset: self.asset.clone(),
            price_received_ns: self.price_received_ns,
            evaluation_start_ns: self.evaluation_start_ns,
            gamma_lookup_done_ns: self.gamma_lookup_done_ns,
            book_fetch_done_ns: self.book_fetch_done_ns,
            kelly_done_ns: self.kelly_done_ns,
            order_submitted_ns: self.order_submitted_ns,
            order_acked_ns: self.order_acked_ns,
            ledger_updated_ns: self.ledger_updated_ns,
            latency_to_eval_us: self.latency_to_eval_us,
            latency_gamma_us: self.latency_gamma_us,
            latency_book_us: self.latency_book_us,
            latency_kelly_us: self.latency_kelly_us,
            latency_submit_us: self.latency_submit_us,
            latency_ledger_us: self.latency_ledger_us,
            latency_total_us: self.latency_total_us,
            gamma_cache_hit: self.gamma_cache_hit,
            book_cache_hit: self.book_cache_hit,
            traded: self.traded,
            skip_reason: copy_text(&self.skip_reason),
        }
    }
}

/// Working out the latencies twice changes nothing.
pub proof fn law_finalize_is_idempotent(s: SpanView)
    ensures
        s.finalized().finalized() == s.finalized(),
{
}

/// The upper bounds of the buckets in microseconds.
pub open spec fn bounds() -> Seq<u64> {
    seq![
        1,
        2,
        5,
        10,
        20,
        50,
        100,
        200,
        500,
        1_000,
        2_000,
        5_000,
        10_000,
        20_000,
        50_000,
        100_000,
        200_000,
        500_000,
        1_000_000,
        2_000_000,
        5_000_000,
        10_000_000,
        u64::MAX,
    ]
}

/// How many samples are at most `bound`.
pub open spec fn at_most(samples: Seq<u64>, bound: u64) -> nat
    decreases samples.len(),
{
    if samples.len() == 0 {
        0
    } else {
        at_most(samples.drop_last(), bound) + if samples.last() <= bound {
            1nat
        } else {
            0nat
        }
    }
}

/// The sum of the samples.
pub open spec fn total(samples: Seq<u64>) -> nat
    decreases samples.len(),
{
    if samples.len() == 0 {
        0
    } else {
        total(samples.drop_last()) + samples.last() as nat
    }
}

/// The least sample, or the greatest possible one.
pub open spec fn least(samples: Seq<u64>) -> u64
    decreases samples.len(),
{
    if samples.len() == 0 {
        u64::MAX
    } else {
        let m = least(samples.drop_last());
        if samples.last() < m {
            samples.last()
        } else {
            m
        }
    }
}

/// The greatest sample, or zero.
pub open spec fn greatest(samples: Seq<u64>) -> u64
    decreases samples.len(),
{
    if samples.len() == 0 {
        0
    } else {
        let m = greatest(samples.drop_last());
        if samples.last() > m {
            samples.last()
        } else {
            m
        }
    }
}

proof fn lemma_at_most(samples: Seq<u64>, bound: u64)
    ensures
        at_most(samples, bound) <= samples.len(),
        bound == u64::MAX ==> at_most(samples, bound) == samples.len(),
    decreases samples.len(),
{
    if samples.len() > 0 {
        lemma_at_most(samples.drop_last(), bound);
    }
}

proof fn lemma_at_most_grows(samples: Seq<u64>, a: u64, b: u64)
    requires
        a <= b,
    ensures
        at_most(samples, a) <= at_most(samples, b),
    decreases samples.len(),
{
    if samples.len() > 0 {
        lemma_at_most_grows(samples.drop_last(), a, b);
    }
}

/// The distance of the neighbours of `x` among the numbers with 53 significant bits.
pub open spec fn spacing(x: nat) -> nat
    decreases x,
{
    if x < 0x20_0000_0000_0000 {
        1
    } else {
        2 * spacing(x / 2)
    }
}

/// `x` rounded to 53 significant bits, to the nearest, halves to the even neighbour.
pub open spec fn rounded(x: nat) -> nat {
    let u = spacing(x);
    let q = x / u;
    let r = x % u;
    if 2 * r > u || (2 * r == u && q % 2 == 1) {
        (q + 1) * u
    } else {
        q * u
    }
}

/// The rank among `count` samples that the share `part` of two to the 53 reaches:
/// the product in binary64 arithmetic, rounded up to an integer.
pub open spec fn rank_of(count: nat, part: nat) -> nat {
    (rounded(rounded(count) * part) + 0x1F_FFFF_FFFF_FFFF) / 0x20_0000_0000_0000
}

/// One half, as a share of two to the 53.
pub const PART_50: u64 = 0x10_0000_0000_0000;

/// 95 hundredths in binary64, as a share of two to the 53.
pub const PART_95: u64 = 0x1E_6666_6666_6666;

/// 99 hundredths in binary64, as a share of two to the 53.
pub const PART_99: u64 = 0x1F_AE14_7AE1_47AE;

/// 99.9 hundredths in binary64, as a share of two to the 53.
pub const PART_999: u64 = 0x1F_F7CE_D916_872C;

proof fn lemma_spacing(x: nat)
    ensures
        spacing(x) >= 1,
        x >= 0x20_0000_0000_0000 ==> spacing(x) * 0x10_0000_0000_0000 <= x,
        x < spacing(x) * 0x20_0000_0000_0000,
    decreases x,
{
    if x >= 0x20_0000_0000_0000 {
        lemma_spacing(x / 2);
        if x / 2 < 0x20_0000_0000_0000 {
            assert(spacing(x / 2) == 1);
        }
    }
}

fn spacing_of(x: u128) -> (r: u128)
    requires
        x <= 0xFF_FFFF_FFFF_FFFF_FFFF_FFFF_FFFF_FFFF,
    ensures
        r == spacing(x as nat),
        1 <= r <= 0xFF_FFFF_FFFF_FFFF_FFFF_FFFF_FFFF_FFFF,
    decreases x,
{
    proof {
        lemma_spacing(x as nat);
    }
    if x < 0x20_0000_0000_0000 {
        1
    } else {
        proof {
            lemma_spacing((x / 2) as nat);
        }
        2 * spacing_of(x / 2)
    }
}

proof fn lemma_rounded_bound(x: nat)
    ensures
        rounded(x) <= x + spacing(x),
        spacing(x) <= x + 1,
        rounded(x) <= 2 * x + 1,
        x < 0x20_0000_0000_0000 ==> rounded(x) == x,
{
    lemma_spacing(x);
    let u = spacing(x);
    let q = x / u;
    let r = x % u;
    assert(x == q * u + r && r < u) by (nonlinear_arith)
        requires
            u >= 1,
            q == x / u,
            r == x % u,
    ;
    assert((q + 1) * u == q * u + u) by (nonlinear_arith);
    if x < 0x20_0000_0000_0000 {
        assert(u == 1);
        assert(q * 1 == q);
    } else {
        assert(u <= x);
    }
}

fn rounded_of(x: u128) -> (r: u128)
    requires
        x <= 0x7F_FFFF_FFFF_FFFF_FFFF_FFFF_FFFF_FFFF,
    ensures
        r == rounded(x as nat),
{
    let u = spacing_of(x);
    proof {
        lemma_rounded_bound(x as nat);
        lemma_spacing(x as nat);
    }
    let q: u128 = x / u;
    let r: u128 = x % u;
    proof {
        assert(x == q * u + r && r < u) by (nonlinear_arith)
            requires
                u >= 1,
                q == x / u,
                r == x % u,
        ;
        assert((q + 1) * u == q * u + u) by (nonlinear_arith);
        assert(q + 1 <= x + 1) by (nonlinear_arith)
            requires
                u >= 1,
                x == q * u + r,
                r >= 0,
        ;
    }
    if 2 * r > u || (2 * r == u && q % 2 == 1) {
        (q + 1) * u
    } else {
        q * u
    }
}

fn percent_rank(count: u64, part: u64) -> (r: u64)
    requires
        part < 0x20_0000_0000_0000,
    ensures
        r == if rank_of(count as nat, part as nat) <= u64::MAX {
            rank_of(count as nat, part as nat) as u64
        } else {
            u64::MAX
        },
{
    let c = rounded_of(count as u128);
    proof {
        lemma_rounded_bound(count as nat);
        assert(c * part <= 0x1_FFFF_FFFF_FFFF_FFFF * 0x20_0000_0000_0000) by (nonlinear_arith)
            requires
                c <= 0x1_FFFF_FFFF_FFFF_FFFF,
                part <= 0x20_0000_0000_0000,
        ;
    }
    let product: u128 = c * (part as u128);
    proof {
        lemma_rounded_bound(product as nat);
    }
    let up: u128 = (rounded_of(product) + 0x1F_FFFF_FFFF_FFFF) / 0x20_0000_0000_0000;
    if up <= u64::MAX as u128 {
        up as u64
    } else {
        u64::MAX
    }
}

proof fn lemma_spacing_grows(x: nat, y: nat)
    requires
        x <= y,
    ensures
        spacing(x) <= spacing(y),
        spacing(x) == spacing(y) || 2 * spacing(x) <= spacing(y),
    decreases y,
{
    if y >= 0x20_0000_0000_0000 {
        if x >= 0x20_0000_0000_0000 {
            lemma_spacing_grows(x / 2, y / 2);
        } else {
            lemma_spacing(y / 2);
        }
    }
}

/// Rounding keeps the order of numbers.
pub proof fn lemma_rounded_grows(x: nat, y: nat)
    requires
        x <= y,
    ensures
        rounded(x) <= rounded(y),
{
    lemma_spacing(x);
    lemma_spacing(y);
    lemma_spacing_grows(x, y);
    let u = spacing(x);
    let v = spacing(y);
    let q = x / u;
    let r = x % u;
    let p = y / v;
    let t = y % v;
    assert(x == q * u + r && r < u) by (nonlinear_arith)
        requires
            u >= 1,
            q == x / u,
            r == x % u,
    ;
    assert(y == p * v + t && t < v) by (nonlinear_arith)
        requires
            v >= 1,
            p == y / v,
            t == y % v,
    ;
    assert((q + 1) * u == q * u + u) by (nonlinear_arith);
    assert((p + 1) * v == p * v + v) by (nonlinear_arith);
    if u == v {
        if q < p {
            assert((q + 1) * u <= p * v) by (nonlinear_arith)
                requires
                    q + 1 <= p,
                    u == v,
            ;
        } else if q > p {
            assert((p + 1) * v <= q * u) by (nonlinear_arith)
                requires
                    p + 1 <= q,
                    u == v,
            ;
        } else {
            assert(q * u == p * v);
        }
    } else {
        assert(q < 0x20_0000_0000_0000) by (nonlinear_arith)
            requires
                u >= 1,
                q * u + r < u * 0x20_0000_0000_0000,
                r >= 0,
        ;
        assert((q + 1) * u <= 0x20_0000_0000_0000 * u) by (nonlinear_arith)
            requires
                q + 1 <= 0x20_0000_0000_0000,
                u >= 1,
        ;
        assert(y >= 0x20_0000_0000_0000) by {
            if y < 0x20_0000_0000_0000 {
                assert(spacing(y) == 1);
            }
        }
        assert(p >= 0x10_0000_0000_0000) by (nonlinear_arith)
            requires
                v >= 1,
                v * 0x10_0000_0000_0000 <= p * v + t,
                t < v,
        ;
        assert(p * v >= 0x10_0000_0000_0000 * v) by (nonlinear_arith)
            requires
                p >= 0x10_0000_0000_0000,
                v >= 1,
        ;
    }
}

/// A greater share of the samples reaches at least as high a rank.
pub proof fn law_rank_grows_with_share(count: nat, a: nat, b: nat)
    requires
        a <= b,
    ensures
        rank_of(count, a) <= rank_of(count, b),
{
    let c = rounded(count);
    assert(c * a <= c * b) by (nonlinear_arith)
        requires
            a <= b,
    ;
    lemma_rounded_grows(c * a, c * b);
    assert(rounded(c * a) + 0x1F_FFFF_FFFF_FFFF <= rounded(c * b) + 0x1F_FFFF_FFFF_FFFF);
}

/// The bound of the first bucket at which `target` samples are reached; the
/// greatest sample where there are not that many.
pub open spec fn reaches(samples: Seq<u64>, target: nat, r: u64) -> bool {
    if target > samples.len() {
        r == greatest(samples)
    } else {
        exists|i: int|
            #![trigger bounds()[i]]
            0 <= i < bounds().len() && r == bounds()[i] && at_most(samples, r) >= target && forall|
                j: int,
            |
                0 <= j < i ==> at_most(samples, #[trigger] bounds()[j]) < target
    }
}

/// A histogram of latencies from a microsecond to ten seconds.
pub struct LatencyHistogram {
    buckets: Vec<u64>,
    bucket_bounds_us: Vec<u64>,
    count: u64,
    sum_us: u64,
    min_us: u64,
    max_us: u64,
    samples: Ghost<Seq<u64>>,
}

impl View for LatencyHistogram {
    type V = Seq<u64>;

    /// The latencies that were recorded.
    closed spec fn view(&self) -> Seq<u64> {
        self.samples@
    }
}

/// How many samples fall into the `i`-th bucket.
pub open spec fn in_bucket(samples: Seq<u64>, i: int) -> int {
    at_most(samples, bounds()[i]) - if i == 0 {
        0
    } else {
        at_most(samples, bounds()[i - 1]) as int
    }
}

impl LatencyHistogram {
    /// The counts agree with the samples.
    #[verifier::type_invariant]
    closed spec fn counts(self) -> bool {
        let s = self.samples@;
        &&& self.bucket_bounds_us@ == bounds()
        &&& self.buckets.len() == bounds().len()
        &&& self.count == s.len()
        &&& self.sum_us == if total(s) <= u64::MAX {
            total(s) as u64
        } else {
            u64::MAX
        }
        &&& self.min_us == least(s)
        &&& self.max_us == greatest(s)
        &&& forall|i: int| #![trigger self.buckets[i]]
            0 <= i < bounds().len() ==> self.buckets[i] == in_bucket(s, i)
    }

    /// A histogram without samples.
    pub fn new() -> (r: LatencyHistogram)
        ensures
            r@ == Seq::<u64>::empty(),
    {
        let bucket_bounds_us: Vec<u64> = vec![
            1,
            2,
            5,
            10,
            20,
            50,
            100,
            200,
            500,
            1_000,
            2_000,
            5_000,
            10_000,
            20_000,
            50_000,
            100_000,
            200_000,
            500_000,
            1_000_000,
            2_000_000,
            5_000_000,
            10_000_000,
            u64::MAX,
        ];
        let buckets: Vec<u64> = vec![0u64; 23];
        assert(bucket_bounds_us@ =~= bounds());
        LatencyHistogram {
            buckets,
            bucket_bounds_us,
            count: 0,
            sum_us: 0,
            min_us: u64::MAX,
            max_us: 0,
            samples: Ghost(Seq::empty()),
        }
    }

    /// Records a latency.
    pub fn record(&mut self, latency_us: u64)
        requires
            old(self)@.len() < u64::MAX,
        ensures
            final(self)@ == old(self)@.push(latency_us),
    {
        proof {
            use_type_invariant(&*self);
        }
        let ghost s = self.samples@;
        let ghost t = s.push(latency_us);
        let mut whole = LatencyHistogram::new();
        std::mem::swap(&mut whole, self);
        let LatencyHistogram {
            mut buckets,
            bucket_bounds_us,
            count,
            sum_us,
            min_us,
            max_us,
            samples: _,
        } = whole;
        let mut i: usize = 0;
        while i < 22 && latency_us > bucket_bounds_us[i]
            invariant
                i <= 22,
                bucket_bounds_us@ == bounds(),
                forall|j: int| 0 <= j < i ==> latency_us > #[trigger] bounds()[j],
            decreases 22 - i,
        {
            i = i + 1;
        }
        proof {
            assert(t.drop_last() =~= s);
            lemma_at_most(s, bounds()[i as int]);
            assert(buckets[i as int] <= s.len()) by {
                assert(buckets[i as int] == in_bucket(s, i as int));
            }
            assert(latency_us <= bounds()[i as int]);
            assert forall|j: int| 0 <= j < bounds().len() implies (latency_us <= #[trigger] bounds()[j]
                <==> j >= i) by {
                if j >= i {
                    assert(bounds()[i as int] <= bounds()[j]);
                }
            }
        }
        let ghost counted = buckets@;
        buckets.set(i, buckets[i] + 1);
        proof {
            assert forall|j: int| #![trigger buckets[j]]
                0 <= j < bounds().len() implies buckets[j] == in_bucket(t, j) by {
                assert(counted[j] == in_bucket(s, j));
                assert(at_most(t, bounds()[j]) == at_most(s, bounds()[j]) + if j >= i {
                    1nat
                } else {
                    0nat
                });
                if j > 0 {
                    assert(at_most(t, bounds()[j - 1]) == at_most(s, bounds()[j - 1]) + if j - 1 >= i {
                        1nat
                    } else {
                        0nat
                    });
                }
            }
        }
        *self = LatencyHistogram {
            buckets,
            bucket_bounds_us,
            count: count + 1,
            sum_us: sum_us.saturating_add(latency_us),
            min_us: if latency_us < min_us {
                latency_us
            } else {
                min_us
            },
            max_us: if latency_us > max_us {
                latency_us
            } else {
                max_us
            },
            samples: Ghost(t),
        };
    }

    /// The bound of the first bucket at which the sample of rank `target` is
    /// reached; zero where there are no samples.
    pub fn percentile(&self, target: u64) -> (r: u64)
        ensures
            self@.len() == 0 ==> r == 0,
            self@.len() > 0 ==> reaches(self@, target as nat, r),
    {
        proof {
            use_type_invariant(self);
        }
        let ghost s = self.samples@;
        if self.count == 0 {
            return 0;
        }
        let mut cumulative: u64 = 0;
        let mut i: usize = 0;
        while i < self.buckets.len()
            invariant
                self.counts(),
                self.count > 0,
                s == self.samples@,
                i <= self.buckets.len(),
                cumulative == if i == 0 {
                    0
                } else {
                    at_most(s, bounds()[i - 1]) as int
                },
                forall|j: int| 0 <= j < i ==> at_most(s, #[trigger] bounds()[j]) < target,
            decreases self.buckets.len() - i,
        {
            proof {
                lemma_at_most(s, bounds()[i as int]);
                assert(self.buckets[i as int] == in_bucket(s, i as int));
            }
            cumulative = cumulative + self.buckets[i];
            if cumulative >= target {
                assert(self.bucket_bounds_us[i as int] == bounds()[i as int]);
                return self.bucket_bounds_us[i];
            }
            i = i + 1;
        }
        proof {
            lemma_at_most(s, bounds()[22]);
        }
        self.max_us
    }

    /// The bound below which half of the samples lie.
    pub fn p50(&self) -> (r: u64)
        ensures
            at_share(self@, PART_50 as nat, r),
    {
        self.share(PART_50)
    }

    pub fn p95(&self) -> (r: u64)
        ensures
            at_share(self@, PART_95 as nat, r),
    {
        self.share(PART_95)
    }

    pub fn p99(&self) -> (r: u64)
        ensures
            at_share(self@, PART_99 as nat, r),
    {
        self.share(PART_99)
    }

    pub fn p999(&self) -> (r: u64)
        ensures
            at_share(self@, PART_999 as nat, r),
    {
        self.share(PART_999)
    }

    fn share(&self, part: u64) -> (r: u64)
        requires
            part < 0x20_0000_0000_0000,
        ensures
            at_share(self@, part as nat, r),
    {
        proof {
            use_type_invariant(self);
        }
        self.percentile(percent_rank(self.count, part))
    }

    /// The number of samples.
    pub fn count(&self) -> (r: u64)
        ensures
            r == self@.len(),
    {
        proof {
            use_type_invariant(self);
        }
        self.count
    }

    /// The mean of the samples, zero where there is none; `quotient` is their sum by their
    /// number.
    pub fn mean(&self, quotient: Scalar) -> (r: Scalar)
        ensures
            r == if self@.len() == 0 {
                Scalar::Rank(0)
            } else {
                quotient
            },
    {
        if self.count() == 0 {
            Scalar::Rank(0)
        } else {
            quotient
        }
    }

    /// The sum of the samples, as far as it can be held.
    pub fn sum_us(&self) -> (r: u64)
        ensures
            r == if total(self@) <= u64::MAX {
                total(self@) as u64
            } else {
                u64::MAX
            },
    {
        proof {
            use_type_invariant(self);
        }
        self.sum_us
    }

    /// The least sample; zero where there is none.
    pub fn min(&self) -> (r: u64)
        ensures
            r == if self@.len() == 0 {
                0
            } else {
                least(self@)
            },
    {
        proof {
            use_type_invariant(self);
        }
        if self.count == 0 {
            0
        } else {
            self.min_us
        }
    }

    /// The greatest sample; zero where there is none.
    pub fn max(&self) -> (r: u64)
        ensures
            r == greatest(self@),
    {
        proof {
            use_type_invariant(self);
        }
        self.max_us
    }
}

impl Default for LatencyHistogram {
    fn default() -> (r: LatencyHistogram)
        ensures
            r@ == Seq::<u64>::empty(),
    {
        LatencyHistogram::new()
    }
}

/// `r` is the bound that the share `part` of the samples reaches.
pub open spec fn at_share(samples: Seq<u64>, part: nat, r: u64) -> bool {
    if samples.len() == 0 {
        r == 0
    } else {
        let rank = rank_of(samples.len(), part);
        reaches(samples, if rank <= u64::MAX {
            rank
        } else {
            u64::MAX as nat
        }, r)
    }
}

proof fn lemma_reaches_grows(samples: Seq<u64>, s: nat, t: nat, a: u64, b: u64)
    requires
        s <= t <= samples.len(),
        reaches(samples, s, a),
        reaches(samples, t, b),
    ensures
        a <= b,
{
    let i = choose|i: int|
        #![trigger bounds()[i]]
        0 <= i < bounds().len() && a == bounds()[i] && at_most(samples, a) >= s && forall|j: int|
            0 <= j < i ==> at_most(samples, #[trigger] bounds()[j]) < s;
    let k = choose|k: int|
        #![trigger bounds()[k]]
        0 <= k < bounds().len() && b == bounds()[k] && at_most(samples, b) >= t && forall|j: int|
            0 <= j < k ==> at_most(samples, #[trigger] bounds()[j]) < t;
    if k < i {
        assert(at_most(samples, bounds()[k]) < s);
    }
    assert(i <= k ==> bounds()[i] <= bounds()[k]);
}

proof fn lemma_rank_within(n: nat, part: nat)
    requires
        part <= 0x1F_F800_0000_0000,
    ensures
        rank_of(n, part) <= n,
{
    let c = rounded(n);
    let p = c * part;
    let u = spacing(p);
    lemma_rounded_bound(n);
    lemma_spacing(n);
    lemma_rounded_bound(p);
    lemma_spacing(p);
    assert(c * 0x10_0000_0000_0000 <= n * 0x10_0000_0000_0001) by {
        if n < 0x20_0000_0000_0000 {
            assert(c == n);
        }
    }
    assert(rounded(p) <= n * 0x20_0000_0000_0000) by {
        if p < 0x20_0000_0000_0000 {
            assert(rounded(p) == p);
            assert(n == 0 ==> c == 0);
            assert(n == 0 ==> p == 0) by (nonlinear_arith)
                requires
                    n == 0 ==> c == 0,
                    p == c * part,
            ;
        } else {
            assert(0x10_0000_0000_0000 * (p + u) <= p * 0x10_0000_0000_0001);
            assert(p * 0x10_0000_0000_0000 <= n * (0x10_0000_0000_0001 * 0x1F_F800_0000_0000)) by (nonlinear_arith)
                requires
                    p == c * part,
                    part <= 0x1F_F800_0000_0000,
                    c * 0x10_0000_0000_0000 <= n * 0x10_0000_0000_0001,
            ;
            assert(p + u <= n * 0x20_0000_0000_0000) by (nonlinear_arith)
                requires
                    0x10_0000_0000_0000 * (p + u) <= p * 0x10_0000_0000_0001,
                    p * 0x10_0000_0000_0000 <= n * (0x10_0000_0000_0001 * 0x1F_F800_0000_0000),
            ;
        }
    }
}

/// The percentiles of a histogram stand in order.
pub proof fn law_percentiles_are_ordered(samples: Seq<u64>, p50: u64, p95: u64, p99: u64, p999: u64)
    requires
        samples.len() <= u64::MAX,
        at_share(samples, PART_50 as nat, p50),
        at_share(samples, PART_95 as nat, p95),
        at_share(samples, PART_99 as nat, p99),
        at_share(samples, PART_999 as nat, p999),
    ensures
        p50 <= p95 <= p99 <= p999,
{
    let n = samples.len();
    lemma_rank_within(n, PART_999 as nat);
    law_rank_grows_with_share(n, PART_50 as nat, PART_95 as nat);
    law_rank_grows_with_share(n, PART_95 as nat, PART_99 as nat);
    law_rank_grows_with_share(n, PART_99 as nat, PART_999 as nat);
    if n > 0 {
        lemma_reaches_grows(
            samples,
            rank_of(n, PART_50 as nat),
            rank_of(n, PART_95 as nat),
            p50,
            p95,
        );
        lemma_reaches_grows(
            samples,
            rank_of(n, PART_95 as nat),
            rank_of(n, PART_99 as nat),
            p95,
            p99,
        );
        lemma_reaches_grows(
            samples,
            rank_of(n, PART_99 as nat),
            rank_of(n, PART_999 as nat),
            p99,
            p999,
        );
    }
}

/// The spans of a queue as values.
pub open spec fn span_views(q: Seq<TradeSpan>) -> Seq<SpanView> {
    Seq::new(q.len(), |i: int| q[i]@)
}

/// The queue with one more item, of which only the last `limit` are kept.
pub open spec fn pushed_within<T>(q: Seq<T>, x: T, limit: nat) -> Seq<T> {
    if q.len() >= limit && q.len() > 0 {
        q.skip(1).push(x)
    } else {
        q.push(x)
    }
}

/// The samples with one more, where it is above zero.
pub open spec fn noted(samples: Seq<u64>, x: u64) -> Seq<u64> {
    if x > 0 {
        samples.push(x)
    } else {
        samples
    }
}

/// The latencies of all attempts, and how they ended.
pub struct Fast15mLatencyRegistry {
    pub total_t2t: LatencyHistogram,
    pub gamma_lookup: LatencyHistogram,
    pub book_fetch: LatencyHistogram,
    pub kelly_calc: LatencyHistogram,
    pub order_submit: LatencyHistogram,
    pub ledger_update: LatencyHistogram,
    pub gamma_cache_hits: u64,
    pub gamma_cache_misses: u64,
    pub book_cache_hits: u64,
    pub book_cache_misses: u64,
    pub evaluations: u64,
    pub trades_executed: u64,
    pub trades_skipped_no_edge: u64,
    pub trades_skipped_cooldown: u64,
    pub trades_skipped_window: u64,
    pub trades_skipped_no_data: u64,
    pub recent_spans: VecDeque<TradeSpan>,
}

/// How an attempt counts.
#[derive(Clone, Copy, Debug, PartialEq, Eq, Structural)]
pub enum SpanOutcome {
    Traded,
    NoEdge,
    Cooldown,
    Window,
    NoData,
    /// Neither a trade nor a skip.
    Open,
}

impl SpanView {
    /// How the attempt counts.
    pub open spec fn outcome(self) -> SpanOutcome {
        if self.traded {
            SpanOutcome::Traded
        } else {
            match self.skip_reason {
                None => SpanOutcome::Open,
                Some(r) => if r == "no_edge"@ {
                    SpanOutcome::NoEdge
                } else if r == "cooldown"@ {
                    SpanOutcome::Cooldown
                } else if r == "window"@ {
                    SpanOutcome::Window
                } else {
                    SpanOutcome::NoData
                },
            }
        }
    }
}

pub open spec fn one_if(b: bool) -> int {
    if b {
        1
    } else {
        0
    }
}

impl Fast15mLatencyRegistry {
    /// No counter is at its limit.
    pub open spec fn has_room(self) -> bool {
        &&& self.evaluations < u64::MAX
        &&& self.gamma_cache_hits < u64::MAX
        &&& self.gamma_cache_misses < u64::MAX
        &&& self.book_cache_hits < u64::MAX
        &&& self.book_cache_misses < u64::MAX
        &&& self.trades_executed < u64::MAX
        &&& self.trades_skipped_no_edge < u64::MAX
        &&& self.trades_skipped_cooldown < u64::MAX
        &&& self.trades_skipped_window < u64::MAX
        &&& self.trades_skipped_no_data < u64::MAX
        &&& self.total_t2t@.len() < u64::MAX
        &&& self.gamma_lookup@.len() < u64::MAX
        &&& self.book_fetch@.len() < u64::MAX
        &&& self.kelly_calc@.len() < u64::MAX
        &&& self.order_submit@.len() < u64::MAX
        &&& self.ledger_update@.len() < u64::MAX
    }

    /// `after` is the registry with one more span.
    pub open spec fn with_span(self, span: SpanView, after: Fast15mLatencyRegistry) -> bool {
        let o = span.outcome();
        &&& after.evaluations == self.evaluations + 1
        &&& after.total_t2t@ == noted(self.total_t2t@, span.latency_total_us)
        &&& after.gamma_lookup@ == noted(self.gamma_lookup@, span.latency_gamma_us)
        &&& after.book_fetch@ == noted(self.book_fetch@, span.latency_book_us)
        &&& after.kelly_calc@ == noted(self.kelly_calc@, span.latency_kelly_us)
        &&& after.order_submit@ == noted(self.order_submit@, span.latency_submit_us)
        &&& after.ledger_update@ == noted(self.ledger_update@, span.latency_ledger_us)
        &&& after.gamma_cache_hits == self.gamma_cache_hits + one_if(span.gamma_cache_hit)
        &&& after.gamma_cache_misses == self.gamma_cache_misses + one_if(!span.gamma_cache_hit)
        &&& after.book_cache_hits == self.book_cache_hits + one_if(span.book_cache_hit)
        &&& after.book_cache_misses == self.book_cache_misses + one_if(!span.book_cache_hit)
        &&& after.trades_executed == self.trades_executed + one_if(o == SpanOutcome::Traded)
        &&& after.trades_skipped_no_edge == self.trades_skipped_no_edge + one_if(
            o == SpanOutcome::NoEdge,
        )
        &&& after.trades_skipped_cooldown == self.trades_skipped_cooldown + one_if(
            o == SpanOutcome::Cooldown,
        )
        &&& after.trades_skipped_window == self.trades_skipped_window + one_if(
            o == SpanOutcome::Window,
        )
        &&& after.trades_skipped_no_data == self.trades_skipped_no_data + one_if(
            o == SpanOutcome::NoData,
        )
        &&& span_views(after.recent_spans@) == pushed_within(
            span_views(self.recent_spans@),
            span,
            KEPT_SPANS as nat,
        )
    }

    /// A registry without spans.
    pub fn new() -> (r: Fast15mLatencyRegistry)
        ensures
            r.has_room(),
            r.recent_spans@.len() == 0,
            r.evaluations == 0 && r.trades_executed == 0,
            r.trades_skipped_no_edge == 0 && r.trades_skipped_cooldown == 0,
            r.trades_skipped_window == 0 && r.trades_skipped_no_data == 0,
            r.gamma_cache_hits == 0 && r.gamma_cache_misses == 0,
            r.book_cache_hits == 0 && r.book_cache_misses == 0,
            r.total_t2t@.len() == 0 && r.gamma_lookup@.len() == 0 && r.book_fetch@.len() == 0,
            r.kelly_calc@.len() == 0 && r.order_submit@.len() == 0 && r.ledger_update@.len() == 0,
    {
        Fast15mLatencyRegistry {
            total_t2t: LatencyHistogram::new(),
            gamma_lookup: LatencyHistogram::new(),
            book_fetch: LatencyHistogram::new(),
            kelly_calc: LatencyHistogram::new(),
            order_submit: LatencyHistogram::new(),
            ledger_update: LatencyHistogram::new(),
            gamma_cache_hits: 0,
            gamma_cache_misses: 0,
            book_cache_hits: 0,
            book_cache_misses: 0,
            evaluations: 0,
            trades_executed: 0,
            trades_skipped_no_edge: 0,
            trades_skipped_cooldown: 0,
            trades_skipped_window: 0,
            trades_skipped_no_data: 0,
            recent_spans: VecDeque::with_capacity(KEPT_SPANS),
        }
    }

    /// Counts a span and keeps it among the last.
    pub fn record_span(&mut self, span: TradeSpan)
        requires
            old(self).has_room(),
        ensures
            old(self).with_span(span@, *final(self)),
    {
        let ghost v = span@;
        self.evaluations = self.evaluations + 1;
        if span.latency_total_us > 0 {
            self.total_t2t.record(span.latency_total_us);
        }
        if span.latency_gamma_us > 0 {
            self.gamma_lookup.record(span.latency_gamma_us);
        }
        if span.latency_book_us > 0 {
            self.book_fetch.record(span.latency_book_us);
        }
        if span.latency_kelly_us > 0 {
            self.kelly_calc.record(span.latency_kelly_us);
        }
        if span.latency_submit_us > 0 {
            self.order_submit.record(span.latency_submit_us);
        }
        if span.latency_ledger_us > 0 {
            self.ledger_update.record(span.latency_ledger_us);
        }
        if span.gamma_cache_hit {
            self.gamma_cache_hits = self.gamma_cache_hits + 1;
        } else {
            self.gamma_cache_misses = self.gamma_cache_misses + 1;
        }
        if span.book_cache_hit {
            self.book_cache_hits = self.book_cache_hits + 1;
        } else {
            self.book_cache_misses = self.book_cache_misses + 1;
        }
        if span.traded {
            self.trades_executed = self.trades_executed + 1;
        } else {
            match &span.skip_reason {
                Some(reason) => {
                    if same(reason.as_str(), "no_edge") {
                        self.trades_skipped_no_edge = self.trades_skipped_no_edge + 1;
                    } else if same(reason.as_str(), "cooldown") {
                        self.trades_skipped_cooldown = self.trades_skipped_cooldown + 1;
                    } else if same(reason.as_str(), "window") {
                        self.trades_skipped_window = self.trades_skipped_window + 1;
                    } else {
                        self.trades_skipped_no_data = self.trades_skipped_no_data + 1;
                    }
                },
                None => {},
            }
        }
        let ghost before = self.recent_spans@;
        if self.recent_spans.len() >= KEPT_SPANS {
            let _oldest = self.recent_spans.pop_front();
        }
        self.recent_spans.push_back(span);
        assert(span_views(self.recent_spans@) =~= pushed_within(
            span_views(before),
            v,
            KEPT_SPANS as nat,
        ));
    }

    /// The figures of the registry; shares and means are the caller's to divide.
    pub fn summary(&self) -> (r: LatencySummary)
        ensures
            r.evaluations == self.evaluations,
            r.trades_executed == self.trades_executed,
            at_share(self.total_t2t@, PART_50 as nat, r.t2t_p50_us),
            at_share(self.total_t2t@, PART_95 as nat, r.t2t_p95_us),
            at_share(self.total_t2t@, PART_99 as nat, r.t2t_p99_us),
            at_share(self.total_t2t@, PART_999 as nat, r.t2t_p999_us),
            r.t2t_count == self.total_t2t@.len(),
            r.t2t_sum_us == if total(self.total_t2t@) <= u64::MAX {
                total(self.total_t2t@) as u64
            } else {
                u64::MAX
            },
            r.gamma_cache_hits == self.gamma_cache_hits,
            r.gamma_cache_misses == self.gamma_cache_misses,
            r.book_cache_hits == self.book_cache_hits,
            r.book_cache_misses == self.book_cache_misses,
    {
        LatencySummary {
            evaluations: self.evaluations,
            trades_executed: self.trades_executed,
            t2t_p50_us: self.total_t2t.p50(),
            t2t_p95_us: self.total_t2t.p95(),
            t2t_p99_us: self.total_t2t.p99(),
            t2t_p999_us: self.total_t2t.p999(),
            t2t_sum_us: self.total_t2t.sum_us(),
            t2t_count: self.total_t2t.count(),
            gamma_cache_hits: self.gamma_cache_hits,
            gamma_cache_misses: self.gamma_cache_misses,
            book_cache_hits: self.book_cache_hits,
            book_cache_misses: self.book_cache_misses,
        }
    }
}

/// The figures of a registry.
#[derive(Clone, Copy, Debug, PartialEq, Eq, Structural)]
pub struct LatencySummary {
    pub evaluations: u64,
    pub trades_executed: u64,
    pub t2t_p50_us: u64,
    pub t2t_p95_us: u64,
    pub t2t_p99_us: u64,
    pub t2t_p999_us: u64,
    pub t2t_sum_us: u64,
    pub t2t_count: u64,
    pub gamma_cache_hits: u64,
    pub gamma_cache_misses: u64,
    pub book_cache_hits: u64,
    pub book_cache_misses: u64,
}

/// The counters of a registry agree with each other: every span is a hit or a miss
/// of either cache, and none counts twice among the outcomes.
pub open spec fn counters_agree(r: Fast15mLatencyRegistry) -> bool {
    &&& r.gamma_cache_hits + r.gamma_cache_misses == r.evaluations
    &&& r.book_cache_hits + r.book_cache_misses == r.evaluations
    &&& r.trades_executed + r.trades_skipped_no_edge + r.trades_skipped_cooldown
        + r.trades_skipped_window + r.trades_skipped_no_data <= r.evaluations
    &&& r.recent_spans@.len() <= KEPT_SPANS
}

/// Recording a span keeps the counters in agreement and never more spans than the
/// limit; the newest span stands last.
pub proof fn law_record_keeps_counters(
    before: Fast15mLatencyRegistry,
    span: SpanView,
    after: Fast15mLatencyRegistry,
)
    requires
        counters_agree(before),
        before.with_span(span, after),
    ensures
        counters_agree(after),
        after.recent_spans@.last()@ == span,
{
    let b = span_views(before.recent_spans@);
    let a = span_views(after.recent_spans@);
    assert(a.len() == after.recent_spans@.len());
    assert(a.last() == span);
    assert(a.last() == after.recent_spans@.last()@);
}

/// The rank of 0.01.
pub const MIN_EDGE: i64 = 0x3F84_7AE1_47AE_147B;

/// The rank of 0.05.
pub const KELLY_FRACTION: i64 = 0x3FA9_9999_9999_999A;

/// The rank of 0.35.
pub const SHRINK: i64 = 0x3FD6_6666_6666_6666;

/// The rank of 0.005.
pub const EDGE_CHANGE: i64 = 0x3F74_7AE1_47AE_147B;

/// When the strategy evaluates a price, and how much it stakes.
#[derive(Clone, Copy, Debug, PartialEq, Eq, Structural)]
pub struct ReactiveFast15mConfig {
    pub min_edge: Scalar,
    pub kelly_fraction: Scalar,
    pub max_position_pct: Scalar,
    pub shrink_to_half: Scalar,
    pub cooldown_sec: i64,
    pub edge_change_threshold: Scalar,
    pub min_eval_interval_ms: u64,
    pub window_start_aggressive_sec: i64,
    pub window_end_idle_sec: i64,
}

/// The configuration that holds where nothing is set.
pub open spec fn default_reactive() -> ReactiveFast15mConfig {
    ReactiveFast15mConfig {
        min_edge: Scalar::Rank(MIN_EDGE),
        kelly_fraction: Scalar::Rank(KELLY_FRACTION),
        max_position_pct: Scalar::Rank(MIN_EDGE),
        shrink_to_half: Scalar::Rank(SHRINK),
        cooldown_sec: 30,
        edge_change_threshold: Scalar::Rank(EDGE_CHANGE),
        min_eval_interval_ms: 50,
        window_start_aggressive_sec: 60,
        window_end_idle_sec: 60,
    }
}

impl Default for ReactiveFast15mConfig {
    fn default() -> (r: ReactiveFast15mConfig)
        ensures
            r == default_reactive(),
    {
        ReactiveFast15mConfig {
            min_edge: Scalar::Rank(MIN_EDGE),
            kelly_fraction: Scalar::Rank(KELLY_FRACTION),
            max_position_pct: Scalar::Rank(MIN_EDGE),
            shrink_to_half: Scalar::Rank(SHRINK),
            cooldown_sec: 30,
            edge_change_threshold: Scalar::Rank(EDGE_CHANGE),
            min_eval_interval_ms: 50,
            window_start_aggressive_sec: 60,
            window_end_idle_sec: 60,
        }
    }
}

impl ReactiveFast15mConfig {
    /// The default with what the variables set.
    pub fn from_env(env: &Environment) -> (r: ReactiveFast15mConfig)
        ensures
            r.min_edge == number_setting(
                *env,
                "REACTIVE_FAST15M_MIN_EDGE"@,
                Range::Positive,
                Scalar::Rank(MIN_EDGE),
            ),
            r.kelly_fraction == number_setting(
                *env,
                "REACTIVE_FAST15M_KELLY_FRACTION"@,
                Range::PositiveToOne,
                Scalar::Rank(KELLY_FRACTION),
            ),
            r.max_position_pct == number_setting(
                *env,
                "REACTIVE_FAST15M_MAX_POSITION_PCT"@,
                Range::PositiveToOne,
                Scalar::Rank(MIN_EDGE),
            ),
            r.shrink_to_half == number_setting(
                *env,
                "REACTIVE_FAST15M_SHRINK"@,
                Range::PositiveToOne,
                Scalar::Rank(SHRINK),
            ),
            r.cooldown_sec == integer_setting(
                *env,
                "REACTIVE_FAST15M_COOLDOWN_SEC"@,
                true,
                0,
                i64::MAX as int,
                30,
            ),
            r.edge_change_threshold == number_setting(
                *env,
                "REACTIVE_FAST15M_EDGE_THRESHOLD"@,
                Range::Positive,
                Scalar::Rank(EDGE_CHANGE),
            ),
            r.min_eval_interval_ms == integer_setting(
                *env,
                "REACTIVE_FAST15M_MIN_EVAL_INTERVAL_MS"@,
                false,
                0,
                u64::MAX as int,
                50,
            ),
            r.window_start_aggressive_sec == 60,
            r.window_end_idle_sec == 60,
    {
        let mut cfg = ReactiveFast15mConfig::default();
        cfg.min_edge = number_or(env, "REACTIVE_FAST15M_MIN_EDGE", Range::Positive, cfg.min_edge);
        cfg.kelly_fraction = number_or(
            env,
            "REACTIVE_FAST15M_KELLY_FRACTION",
            Range::PositiveToOne,
            cfg.kelly_fraction,
        );
        cfg.max_position_pct = number_or(
            env,
            "REACTIVE_FAST15M_MAX_POSITION_PCT",
            Range::PositiveToOne,
            cfg.max_position_pct,
        );
        cfg.shrink_to_half = number_or(
            env,
            "REACTIVE_FAST15M_SHRINK",
            Range::PositiveToOne,
            cfg.shrink_to_half,
        );
        cfg.cooldown_sec = signed_or(env, "REACTIVE_FAST15M_COOLDOWN_SEC", 0, i64::MAX, 30);
        cfg.edge_change_threshold = number_or(
            env,
            "REACTIVE_FAST15M_EDGE_THRESHOLD",
            Range::Positive,
            cfg.edge_change_threshold,
        );
        cfg.min_eval_interval_ms = unsigned_or(
            env,
            "REACTIVE_FAST15M_MIN_EVAL_INTERVAL_MS",
            0,
            u64::MAX,
            50,
        );
        cfg
    }
}

/// What is remembered of an asset between prices.
#[derive(Clone, Copy, Debug, PartialEq, Eq, Structural)]
pub struct AssetState {
    pub last_p_up: Scalar,
    pub last_edge: Scalar,
    pub last_trade_ts: i64,
    pub last_eval_ts: i64,
}

/// Nothing is remembered yet.
pub open spec fn fresh_asset() -> AssetState {
    AssetState {
        last_p_up: Scalar::Rank(HALF_RANK),
        last_edge: Scalar::Rank(0),
        last_trade_ts: 0,
        last_eval_ts: 0,
    }
}

/// One value per asset.
#[derive(Clone, Copy, Debug, PartialEq, Eq, Structural)]
pub struct PerAsset {
    pub btc: AssetState,
    pub eth: AssetState,
    pub sol: AssetState,
    pub xrp: AssetState,
}

impl PerAsset {
    pub open spec fn of(self, a: UpDownAsset) -> AssetState {
        match a {
            UpDownAsset::Btc => self.btc,
            UpDownAsset::Eth => self.eth,
            UpDownAsset::Sol => self.sol,
            UpDownAsset::Xrp => self.xrp,
        }
    }

    pub open spec fn with(self, a: UpDownAsset, s: AssetState) -> PerAsset {
        match a {
            UpDownAsset::Btc => PerAsset { btc: s, ..self },
            UpDownAsset::Eth => PerAsset { eth: s, ..self },
            UpDownAsset::Sol => PerAsset { sol: s, ..self },
            UpDownAsset::Xrp => PerAsset { xrp: s, ..self },
        }
    }

    pub fn get(&self, a: UpDownAsset) -> (r: AssetState)
        ensures
            r == self.of(a),
    {
        match a {
            UpDownAsset::Btc => self.btc,
            UpDownAsset::Eth => self.eth,
            UpDownAsset::Sol => self.sol,
            UpDownAsset::Xrp => self.xrp,
        }
    }

    pub fn put(&mut self, a: UpDownAsset, s: AssetState)
        ensures
            *final(self) == old(self).with(a, s),
    {
        match a {
            UpDownAsset::Btc => {
                self.btc = s;
            },
            UpDownAsset::Eth => {
                self.eth = s;
            },
            UpDownAsset::Sol => {
                self.sol = s;
            },
            UpDownAsset::Xrp => {
                self.xrp = s;
            },
        }
    }
}

/// A price that came in.
#[derive(Debug)]
pub struct PriceUpdateEvent {
    pub symbol: String,
    pub mid: Scalar,
    pub received_at_ns: u64,
}

/// An attempt to trade on a price.
#[derive(Debug)]
pub struct Attempt {
    pub asset: UpDownAsset,
    pub now: i64,
    pub start_ts: i64,
    /// The seconds until the window ends.
    pub t_rem: i64,
    /// The seconds since the window began.
    pub t_elapsed: i64,
    pub span: TradeSpan,
}

/// What a price leads to at first.
#[derive(Debug)]
pub enum Opening {
    Ignored,
    Closed(TradeSpan),
    /// The start price and the volatility are asked for.
    Open(Attempt),
}

/// What the price history says.
#[derive(Clone, Copy, Debug, PartialEq, Eq, Structural)]
pub enum PriceReading {
    NoStartPrice,
    NoSigma,
    NoEstimate,
    /// The chance of a rise, its distance from one half, and how far that distance
    /// lies from the last one.
    Estimate { p_up: Scalar, edge: Scalar, edge_change: Scalar },
}

/// What an estimate leads to.
#[derive(Debug)]
pub enum Estimated {
    Ignored,
    Closed(TradeSpan),
    /// The tokens of both outcomes are known.
    Known(Attempt, String, String),
    /// The tokens of both outcomes are asked for.
    Lookup(Attempt),
}

/// What the tokens lead to.
#[derive(Debug)]
pub enum Tokens {
    Closed(TradeSpan),
    /// The asks of both outcomes are asked for.
    Ready(Attempt, String, String),
}

/// The best asks, and what a share of either outcome is worth above its ask.
#[derive(Clone, Copy, Debug, PartialEq, Eq, Structural)]
pub struct Quotes {
    pub ask_up: Option<Scalar>,
    pub ask_down: Option<Scalar>,
    pub edge_up: Scalar,
    pub edge_down: Scalar,
    pub p_up: Scalar,
    pub p_down: Scalar,
}

/// The outcome that is bought.
#[derive(Clone, Copy, Debug, PartialEq, Eq, Structural)]
pub struct Pick {
    pub up: bool,
    pub price: Scalar,
    pub confidence: Scalar,
    pub edge: Scalar,
}

impl Quotes {
    pub open spec fn up(self) -> Pick {
        Pick { up: true, price: self.ask_up->0, confidence: self.p_up, edge: self.edge_up }
    }

    pub open spec fn down(self) -> Pick {
        Pick { up: false, price: self.ask_down->0, confidence: self.p_down, edge: self.edge_down }
    }

    /// The outcome with the greater edge; up where they are equal.
    pub open spec fn best(self) -> Option<Pick> {
        match (self.ask_up, self.ask_down) {
            (Some(_), Some(_)) => if self.edge_down.spec_le(self.edge_up) {
                Some(self.up())
            } else {
                Some(self.down())
            },
            (Some(_), None) => Some(self.up()),
            (None, Some(_)) => Some(self.down()),
            (None, None) => None,
        }
    }

    pub fn pick(&self) -> (r: Option<Pick>)
        ensures
            r == self.best(),
    {
        let up = match self.ask_up {
            Some(a) => Some(
                Pick { up: true, price: a, confidence: self.p_up, edge: self.edge_up },
            ),
            None => None,
        };
        let down = match self.ask_down {
            Some(a) => Some(
                Pick { up: false, price: a, confidence: self.p_down, edge: self.edge_down },
            ),
            None => None,
        };
        match (up, down) {
            (Some(u), Some(d)) => if self.edge_down.le(self.edge_up) {
                Some(u)
            } else {
                Some(d)
            },
            (Some(u), None) => Some(u),
            (None, Some(d)) => Some(d),
            (None, None) => None,
        }
    }
}

/// What the asks lead to.
#[derive(Debug)]
pub enum Booked {
    Closed(TradeSpan),
    /// The stake is asked for.
    Size(Attempt, String, Pick),
}

/// The stake that the bankroll allows.
#[derive(Clone, Copy, Debug, PartialEq, Eq, Structural)]
pub struct Sizing {
    pub bankroll: Scalar,
    pub should_trade: bool,
    pub position_size_usd: Scalar,
}

/// What the stake leads to.
#[derive(Debug)]
pub enum Sized {
    Closed(TradeSpan),
    Submit(Attempt, OrderRequest),
}

/// The strategy.
pub struct ReactiveFast15mEngine {
    pub cfg: ReactiveFast15mConfig,
    pub assets: PerAsset,
    /// The tokens of the up and the down outcome of a market.
    pub token_cache: Table<(String, String)>,
    pub latency_registry: Fast15mLatencyRegistry,
}

impl ReactiveFast15mEngine {
    pub fn new(cfg: ReactiveFast15mConfig) -> (r: ReactiveFast15mEngine)
        ensures
            r.cfg == cfg,
            forall|a: UpDownAsset| (#[trigger] r.assets.of(a)) == fresh_asset(),
            r.token_cache@ == Map::<Seq<char>, (String, String)>::empty(),
            r.latency_registry.has_room(),
            r.latency_registry.evaluations == 0,
    {
        let s = AssetState {
            last_p_up: Scalar::Rank(HALF_RANK),
            last_edge: Scalar::Rank(0),
            last_trade_ts: 0,
            last_eval_ts: 0,
        };
        ReactiveFast15mEngine {
            cfg,
            assets: PerAsset { btc: s, eth: s, sol: s, xrp: s },
            token_cache: Table::new(),
            latency_registry: Fast15mLatencyRegistry::new(),
        }
    }

    /// Nothing but the registry differs.
    pub open spec fn same_but_registry(self, other: ReactiveFast15mEngine) -> bool {
        &&& self.cfg == other.cfg
        &&& self.assets == other.assets
        &&& self.token_cache == other.token_cache
    }

    /// The seconds until the window of `now` ends.
    pub open spec fn remaining(now: int) -> int {
        let d = window_start_of(now) + 900 - now;
        if d > 0 {
            d
        } else {
            0
        }
    }

    /// The seconds since the window of `now` began.
    pub open spec fn elapsed(now: int) -> int {
        let d = now - window_start_of(now);
        if d > 0 {
            d
        } else {
            0
        }
    }

    /// The least whole number of seconds between two evaluations.
    pub open spec fn eval_gap(self) -> int {
        let s = (self.cfg.min_eval_interval_ms as i64) as int;
        let q = if s >= 0 {
            s / 1000
        } else {
            0
        };
        if q > 1 {
            q
        } else {
            1
        }
    }

    pub open spec fn cools_down(self, a: UpDownAsset, now: int) -> bool {
        now - self.assets.of(a).last_trade_ts < self.cfg.cooldown_sec
    }

    /// Outside the opening of a window, evaluations keep a distance.
    pub open spec fn too_soon(self, a: UpDownAsset, now: int) -> bool {
        now - self.assets.of(a).last_eval_ts < self.eval_gap() && Self::elapsed(now)
            > self.cfg.window_start_aggressive_sec
    }

    /// The attempt that a price of an asset opens.
    pub open spec fn opened(self, a: UpDownAsset, id: Seq<char>, received: u64, now: int, t: Attempt) -> bool {
        &&& t.asset == a
        &&& t.now == now
        &&& t.start_ts == window_start_of(now)
        &&& t.t_rem == Self::remaining(now)
        &&& t.t_elapsed == Self::elapsed(now)
        &&& t.span@ == new_span(id, slug_of(a.name(), window_start_of(now)), a.name(), received)
    }

    /// What a price leads to, with the identifier of the span that it opens: prices of
    /// other assets, prices late in a window and prices that come too soon are ignored;
    /// after a trade an asset cools down.
    pub open spec fn took_price(
        before: ReactiveFast15mEngine,
        after: ReactiveFast15mEngine,
        event: PriceUpdateEvent,
        id: Seq<char>,
        now: int,
        r: Opening,
    ) -> bool {
        &&& (forall|a: UpDownAsset| (#[trigger] a.symbol()) != event.symbol@) ==> r is Ignored && after
            == before
        &&& forall|a: UpDownAsset|
            (#[trigger] a.symbol()) == event.symbol@ ==> {
                if Self::remaining(now) < before.cfg.window_end_idle_sec {
                    r is Ignored && after == before
                } else if before.cools_down(a, now) {
                    let closed = new_span(
                        id,
                        slug_of(a.name(), window_start_of(now)),
                        a.name(),
                        event.received_at_ns,
                    ).skipped("cooldown"@);
                    &&& r matches Opening::Closed(s)
                    &&& s@ == closed
                    &&& after.same_but_registry(before)
                    &&& before.latency_registry.with_span(closed, after.latency_registry)
                } else if before.too_soon(a, now) {
                    r is Ignored && after == before
                } else {
                    &&& r matches Opening::Open(t)
                    &&& before.opened(a, id, event.received_at_ns, now, t)
                    &&& after == before
                }
            }
    }

    /// Takes a price in: its span has a fresh identifier.
    pub fn on_price_update(&mut self, event: &PriceUpdateEvent, now: i64) -> (r: Opening)
        requires
            old(self).latency_registry.has_room(),
            now <= i64::MAX - 900,
        ensures
            exists|id: Seq<char>|
                id.len() == 36 && #[trigger] Self::took_price(
                    *old(self),
                    *final(self),
                    *event,
                    id,
                    now as int,
                    r,
                ),
    {
        let id = fresh_id();
        let ghost text = id@;
        let r = self.on_price_update_with(event, id, now);
        assert(Self::took_price(*old(self), *self, *event, text, now as int, r));
        r
    }

    /// Takes a price in: its span has the given identifier.
    pub fn on_price_update_with(&mut self, event: &PriceUpdateEvent, span_id: String, now: i64) -> (r:
        Opening)
        requires
            old(self).latency_registry.has_room(),
            now <= i64::MAX - 900,
        ensures
            Self::took_price(*old(self), *final(self), *event, span_id@, now as int, r),
    {
        let asset = match UpDownAsset::from_symbol(event.symbol.as_str()) {
            Some(a) => a,
            None => {
                return Opening::Ignored;
            },
        };
        proof {
            assert forall|a: UpDownAsset| (#[trigger] a.symbol()) == event.symbol@ implies a == asset by {
                super::updown15m::lemma_symbols_differ(a, asset);
            }
        }
        let start_ts = window_start(now);
        let t_rem: i64 = match (start_ts + 900).checked_sub(now) {
            Some(d) => if d > 0 {
                d
            } else {
                0
            },
            None => i64::MAX,
        };
        let t_elapsed: i64 = if now > start_ts {
            now - start_ts
        } else {
            0
        };
        if t_rem < self.cfg.window_end_idle_sec {
            return Opening::Ignored;
        }
        let slug = market_slug(asset.as_str(), start_ts);
        let mut span = TradeSpan::with_id(
            span_id,
            slug.as_str(),
            asset.as_str(),
            event.received_at_ns,
        );
        let state = self.assets.get(asset);
        if less_than_apart(now, state.last_trade_ts, self.cfg.cooldown_sec) {
            span.skip("cooldown");
            self.latency_registry.record_span(span.copy());
            return Opening::Closed(span);
        }
        let ms: i64 = self.cfg.min_eval_interval_ms as i64;
        let gap: i64 = if ms / 1000 > 1 {
            ms / 1000
        } else {
            1
        };
        if less_than_apart(now, state.last_eval_ts, gap) && t_elapsed
            > self.cfg.window_start_aggressive_sec {
            return Opening::Ignored;
        }
        Opening::Open(Attempt { asset, now, start_ts, t_rem, t_elapsed, span })
    }

    /// What an estimate leaves in the memory of its asset.
    pub open spec fn remembered(self, a: UpDownAsset, p_up: Scalar, edge: Scalar, eval_ts: i64) -> PerAsset {
        self.assets.with(
            a,
            AssetState {
                last_p_up: p_up,
                last_edge: edge,
                last_eval_ts: eval_ts,
                ..self.assets.of(a)
            },
        )
    }

    /// Outside the opening of a window, an estimate near the last one is passed over.
    pub open spec fn passes_over(self, t: Attempt, edge_change: Scalar) -> bool {
        edge_change.spec_lt(self.cfg.edge_change_threshold) && t.t_elapsed
            > self.cfg.window_start_aggressive_sec
    }

    /// Takes an estimate in. An attempt that lacks data is closed without a record.
    pub fn on_estimate(&mut self, attempt: Attempt, reading: PriceReading, now_ns: u64) -> (r: Estimated)
        ensures
            final(self).cfg == old(self).cfg,
            final(self).token_cache == old(self).token_cache,
            final(self).latency_registry == old(self).latency_registry,
            match reading {
                PriceReading::NoStartPrice => (r matches Estimated::Closed(s) && s@
                    == attempt.span@.skipped("no_start_price"@)) && final(self).assets
                    == old(self).assets,
                PriceReading::NoSigma => (r matches Estimated::Closed(s) && s@
                    == attempt.span@.skipped("no_sigma"@)) && final(self).assets == old(self).assets,
                PriceReading::NoEstimate => (r matches Estimated::Closed(s) && s@
                    == attempt.span@.skipped("p_up_calc_failed"@)) && final(self).assets
                    == old(self).assets,
                PriceReading::Estimate { p_up, edge, edge_change } => if old(self).passes_over(
                    attempt,
                    edge_change,
                ) {
                    r is Ignored && final(self).assets == old(self).remembered(
                        attempt.asset,
                        p_up,
                        edge,
                        old(self).assets.of(attempt.asset).last_eval_ts,
                    )
                } else {
                    let started = SpanView { evaluation_start_ns: now_ns, ..attempt.span@ };
                    let slug = attempt.span.market_slug@;
                    &&& final(self).assets == old(self).remembered(
                        attempt.asset,
                        p_up,
                        edge,
                        attempt.now,
                    )
                    &&& if old(self).token_cache@.contains_key(slug) {
                        &&& r matches Estimated::Known(t, up, down)
                        &&& t == (Attempt { span: t.span, ..attempt })
                        &&& t.span@ == (SpanView { gamma_cache_hit: true, ..started })
                        &&& up@ == old(self).token_cache@[slug].0@
                        &&& down@ == old(self).token_cache@[slug].1@
                    } else {
                        &&& r matches Estimated::Lookup(t)
                        &&& t == (Attempt { span: t.span, ..attempt })
                        &&& t.span@ == started
                    }
                },
            },
    {
        let mut attempt = attempt;
        match reading {
            PriceReading::NoStartPrice => {
                attempt.span.skip("no_start_price");
                Estimated::Closed(attempt.span)
            },
            PriceReading::NoSigma => {
                attempt.span.skip("no_sigma");
                Estimated::Closed(attempt.span)
            },
            PriceReading::NoEstimate => {
                attempt.span.skip("p_up_calc_failed");
                Estimated::Closed(attempt.span)
            },
            PriceReading::Estimate { p_up, edge, edge_change } => {
                let mut state = self.assets.get(attempt.asset);
                state.last_p_up = p_up;
                state.last_edge = edge;
                if edge_change.lt(self.cfg.edge_change_threshold) && attempt.t_elapsed
                    > self.cfg.window_start_aggressive_sec {
                    self.assets.put(attempt.asset, state);
                    return Estimated::Ignored;
                }
                attempt.span.evaluation_start_ns = now_ns;
                state.last_eval_ts = attempt.now;
                self.assets.put(attempt.asset, state);
                let cached = match self.token_cache.get(attempt.span.market_slug.as_str()) {
                    Some(t) => Some((t.0.clone(), t.1.clone())),
                    None => None,
                };
                match cached {
                    Some((up, down)) => {
                        attempt.span.gamma_cache_hit = true;
                        Estimated::Known(attempt, up, down)
                    },
                    None => Estimated::Lookup(attempt),
                }
            },
        }
    }

    /// Takes the tokens of both outcomes in, empty where there is none.
    pub fn on_tokens(&mut self, attempt: Attempt, up: String, down: String, now_ns: u64) -> (r: Tokens)
        requires
            old(self).latency_registry.has_room(),
        ensures
            final(self).cfg == old(self).cfg,
            final(self).assets == old(self).assets,
            ({
                let looked = SpanView { gamma_lookup_done_ns: now_ns, ..attempt.span@ };
                if attempt.span.gamma_cache_hit {
                    &&& r matches Tokens::Ready(t, u, d)
                    &&& t == (Attempt { span: t.span, ..attempt })
                    &&& t.span@ == looked
                    &&& u == up && d == down
                    &&& *final(self) == *old(self)
                } else if up@.len() == 0 || down@.len() == 0 {
                    &&& r matches Tokens::Closed(s)
                    &&& s@ == looked.skipped("no_tokens"@)
                    &&& final(self).token_cache == old(self).token_cache
                    &&& old(self).latency_registry.with_span(s@, final(self).latency_registry)
                } else {
                    &&& r matches Tokens::Ready(t, u, d)
                    &&& t == (Attempt { span: t.span, ..attempt })
                    &&& t.span@ == looked
                    &&& u == up && d == down
                    &&& final(self).latency_registry == old(self).latency_registry
                    &&& final(self).token_cache@ == old(self).token_cache@.insert(
                        attempt.span.market_slug@,
                        (up, down),
                    )
                }
            }),
    {
        let mut attempt = attempt;
        attempt.span.gamma_lookup_done_ns = now_ns;
        if attempt.span.gamma_cache_hit {
            return Tokens::Ready(attempt, up, down);
        }
        if up.as_str().is_empty() || down.as_str().is_empty() {
            attempt.span.skip("no_tokens");
            self.latency_registry.record_span(attempt.span.copy());
            return Tokens::Closed(attempt.span);
        }
        self.token_cache.insert(attempt.span.market_slug.clone(), (up.clone(), down.clone()));
        Tokens::Ready(attempt, up, down)
    }

    /// Takes the asks in: the better outcome is bought, if its edge is wide enough.
    pub fn on_books(
        &mut self,
        attempt: Attempt,
        up: String,
        down: String,
        quotes: Quotes,
        book_ns: u64,
        checked_ns: u64,
    ) -> (r: Booked)
        requires
            old(self).latency_registry.has_room(),
        ensures
            final(self).same_but_registry(*old(self)),
            ({
                let seen = SpanView {
                    book_cache_hit: quotes.ask_up is Some || quotes.ask_down is Some,
                    book_fetch_done_ns: book_ns,
                    ..attempt.span@
                };
                match quotes.best() {
                    None => {
                        &&& r matches Booked::Closed(s)
                        &&& s@ == seen.skipped("no_asks"@)
                        &&& old(self).latency_registry.with_span(s@, final(self).latency_registry)
                    },
                    Some(p) => if p.edge.spec_lt(old(self).cfg.min_edge) {
                        &&& r matches Booked::Closed(s)
                        &&& s@ == (SpanView { kelly_done_ns: checked_ns, ..seen }).skipped("no_edge"@)
                        &&& old(self).latency_registry.with_span(s@, final(self).latency_registry)
                    } else {
                        &&& r matches Booked::Size(t, token, pick)
                        &&& t == (Attempt { span: t.span, ..attempt })
                        &&& t.span@ == seen
                        &&& token == (if p.up {
                            up
                        } else {
                            down
                        })
                        &&& pick == p
                        &&& final(self).latency_registry == old(self).latency_registry
                    },
                }
            }),
    {
        let mut attempt = attempt;
        attempt.span.book_cache_hit = quotes.ask_up.is_some() || quotes.ask_down.is_some();
        attempt.span.book_fetch_done_ns = book_ns;
        match quotes.pick() {
            None => {
                attempt.span.skip("no_asks");
                self.latency_registry.record_span(attempt.span.copy());
                Booked::Closed(attempt.span)
            },
            Some(pick) => {
                if pick.edge.lt(self.cfg.min_edge) {
                    attempt.span.kelly_done_ns = checked_ns;
                    attempt.span.skip("no_edge");
                    self.latency_registry.record_span(attempt.span.copy());
                    return Booked::Closed(attempt.span);
                }
                let token = if pick.up {
                    up
                } else {
                    down
                };
                Booked::Size(attempt, token, pick)
            },
        }
    }

    /// What the stake leads to: an order under an identifier, if there is money and the
    /// stake is worth it.
    pub open spec fn took_stake(
        before: ReactiveFast15mEngine,
        after: ReactiveFast15mEngine,
        attempt: Attempt,
        token: Seq<char>,
        pick: Pick,
        sizing: Sizing,
        id: Seq<char>,
        sized_ns: u64,
        submitted_ns: u64,
        r: Sized,
    ) -> bool {
        let sized = SpanView { kelly_done_ns: sized_ns, ..attempt.span@ };
        &&& after.same_but_registry(before)
        &&& if sizing.bankroll.spec_le(Scalar::Rank(0)) {
            &&& r matches Sized::Closed(s)
            &&& s@ == sized.skipped("no_bankroll"@)
            &&& before.latency_registry.with_span(s@, after.latency_registry)
        } else if !sizing.should_trade {
            &&& r matches Sized::Closed(s)
            &&& s@ == sized.skipped("kelly_skip"@)
            &&& before.latency_registry.with_span(s@, after.latency_registry)
        } else {
            &&& r matches Sized::Submit(t, o)
            &&& t == (Attempt { span: t.span, ..attempt })
            &&& t.span@ == (SpanView { order_submitted_ns: submitted_ns, ..sized })
            &&& o.client_order_id@ == id
            &&& o.token_id@ == token
            &&& o.side == OrderSide::Buy
            &&& o.price == pick.price
            &&& o.notional_usdc == sizing.position_size_usd
            &&& o.tif == TimeInForce::Ioc
            &&& (o.market_slug matches Some(m) && m@ == attempt.span.market_slug@)
            &&& (o.outcome matches Some(n) && n@ == if pick.up {
                "Up"@
            } else {
                "Down"@
            })
            &&& after.latency_registry == before.latency_registry
        }
    }

    /// Takes the stake in: its order has a fresh identifier.
    pub fn on_sizing(
        &mut self,
        attempt: Attempt,
        token: String,
        pick: Pick,
        sizing: Sizing,
        sized_ns: u64,
        submitted_ns: u64,
    ) -> (r: Sized)
        requires
            old(self).latency_registry.has_room(),
        ensures
            exists|id: Seq<char>|
                id.len() == 36 && #[trigger] Self::took_stake(
                    *old(self),
                    *final(self),
                    attempt,
                    token@,
                    pick,
                    sizing,
                    id,
                    sized_ns,
                    submitted_ns,
                    r,
                ),
    {
        let id = fresh_id();
        let ghost text = id@;
        let ghost bought = token@;
        let ghost first = attempt;
        let r = self.on_sizing_with(attempt, token, pick, sizing, id, sized_ns, submitted_ns);
        assert(Self::took_stake(
            *old(self),
            *self,
            first,
            bought,
            pick,
            sizing,
            text,
            sized_ns,
            submitted_ns,
            r,
        ));
        r
    }

    /// Takes the stake in: its order has the given identifier.
    pub fn on_sizing_with(
        &mut self,
        attempt: Attempt,
        token: String,
        pick: Pick,
        sizing: Sizing,
        client_order_id: String,
        sized_ns: u64,
        submitted_ns: u64,
    ) -> (r: Sized)
        requires
            old(self).latency_registry.has_room(),
        ensures
            Self::took_stake(
                *old(self),
                *final(self),
                attempt,
                token@,
                pick,
                sizing,
                client_order_id@,
                sized_ns,
                submitted_ns,
                r,
            ),
    {
        let mut attempt = attempt;
        attempt.span.kelly_done_ns = sized_ns;
        if sizing.bankroll.le(Scalar::Rank(0)) {
            attempt.span.skip("no_bankroll");
            self.latency_registry.record_span(attempt.span.copy());
            return Sized::Closed(attempt.span);
        }
        if !sizing.should_trade {
            attempt.span.skip("kelly_skip");
            self.latency_registry.record_span(attempt.span.copy());
            return Sized::Closed(attempt.span);
        }
        attempt.span.order_submitted_ns = submitted_ns;
        let order = OrderRequest {
            client_order_id,
            token_id: token,
            side: OrderSide::Buy,
            price: pick.price,
            notional_usdc: sizing.position_size_usd,
            tif: TimeInForce::Ioc,
            market_slug: Some(attempt.span.market_slug.clone()),
            outcome: Some(
                if pick.up {
                    "Up".to_owned()
                } else {
                    "Down".to_owned()
                },
            ),
        };
        Sized::Submit(attempt, order)
    }

    /// Takes in that the order was executed and booked.
    pub fn on_booked(&mut self, attempt: Attempt, acked_ns: u64, ledger_ns: u64) -> (r: TradeSpan)
        requires
            old(self).latency_registry.has_room(),
        ensures
            r@ == (SpanView {
                order_acked_ns: acked_ns,
                ledger_updated_ns: ledger_ns,
                traded: true,
                ..attempt.span@
            }).finalized(),
            final(self).cfg == old(self).cfg,
            final(self).token_cache == old(self).token_cache,
            final(self).assets == old(self).assets.with(
                attempt.asset,
                AssetState { last_trade_ts: attempt.now, ..old(self).assets.of(attempt.asset) },
            ),
            old(self).latency_registry.with_span(r@, final(self).latency_registry),
    {
        let mut span = attempt.span;
        span.order_acked_ns = acked_ns;
        span.ledger_updated_ns = ledger_ns;
        span.traded = true;
        let mut state = self.assets.get(attempt.asset);
        state.last_trade_ts = attempt.now;
        self.assets.put(attempt.asset, state);
        span.finalize();
        self.latency_registry.record_span(span.copy());
        span
    }

    /// What is remembered of an asset.
    pub fn asset_state(&self, a: UpDownAsset) -> (r: AssetState)
        ensures
            r == self.assets.of(a),
    {
        self.assets.get(a)
    }
}

/// After a trade at `traded`, no price of that asset opens an attempt until the
/// cooldown is over; the other assets are not held back.
pub proof fn law_trade_starts_cooldown(
    before: ReactiveFast15mEngine,
    after: ReactiveFast15mEngine,
    a: UpDownAsset,
    b: UpDownAsset,
    traded: i64,
    now: int,
)
    requires
        after.cfg == before.cfg,
        after.assets == before.assets.with(
            a,
            AssetState { last_trade_ts: traded, ..before.assets.of(a) },
        ),
    ensures
        after.cools_down(a, now) <==> now < traded + before.cfg.cooldown_sec,
        b != a ==> after.cools_down(b, now) == before.cools_down(b, now),
{
}

/// The outcome that is bought has an ask, and no outcome with an ask has a greater
/// edge, as long as the edges can be compared.
pub proof fn law_best_pick_is_best(q: Quotes)
    requires
        q.edge_up is Rank,
        q.edge_down is Rank,
    ensures
        q.best() is None <==> q.ask_up is None && q.ask_down is None,
        q.best() matches Some(p) ==> {
            &&& p.up ==> q.ask_up == Some(p.price)
            &&& !p.up ==> q.ask_down == Some(p.price)
            &&& q.ask_up is Some ==> q.edge_up.spec_le(p.edge)
            &&& q.ask_down is Some ==> q.edge_down.spec_le(p.edge)
        },
{
}

/// A latency is the time between two instants in whole microseconds, where the second is the
/// later one, and stays as it was elsewhere.
pub open spec fn spans_gap(latency: u64, before: u64, from: u64, to: u64) -> bool {
    &&& to > from ==> 1000 * latency <= to - from < 1000 * latency + 1000
    &&& to <= from ==> latency == before
}

/// Each latency of a closed span lies between the two steps that it is named after; the
/// whole reaches from the price to the ledger for a trade, and to the last step elsewhere.
pub proof fn law_latencies_lie_between_their_steps(s: &mut TradeSpan)
    requires
        call_ensures(TradeSpan::finalize, (s,), ()),
    ensures
        ({
            let a = old(s)@;
            let b = final(s)@;
            &&& spans_gap(b.latency_to_eval_us, a.latency_to_eval_us, a.price_received_ns, a.evaluation_start_ns)
            &&& spans_gap(b.latency_gamma_us, a.latency_gamma_us, a.evaluation_start_ns, a.gamma_lookup_done_ns)
            &&& spans_gap(b.latency_book_us, a.latency_book_us, a.gamma_lookup_done_ns, a.book_fetch_done_ns)
            &&& spans_gap(b.latency_kelly_us, a.latency_kelly_us, a.book_fetch_done_ns, a.kelly_done_ns)
            &&& spans_gap(b.latency_submit_us, a.latency_submit_us, a.kelly_done_ns, a.order_submitted_ns)
            &&& spans_gap(b.latency_ledger_us, a.latency_ledger_us, a.order_acked_ns, a.ledger_updated_ns)
            &&& a.traded ==> spans_gap(
                b.latency_total_us,
                a.latency_total_us,
                a.price_received_ns,
                a.ledger_updated_ns,
            )
            &&& !a.traded && a.evaluation_start_ns >= a.gamma_lookup_done_ns && a.evaluation_start_ns
                >= a.book_fetch_done_ns && a.evaluation_start_ns >= a.kelly_done_ns ==> spans_gap(
                b.latency_total_us,
                a.latency_total_us,
                a.price_received_ns,
                a.evaluation_start_ns,
            )
            &&& !a.traded && a.gamma_lookup_done_ns >= a.evaluation_start_ns && a.gamma_lookup_done_ns
                >= a.book_fetch_done_ns && a.gamma_lookup_done_ns >= a.kelly_done_ns ==> spans_gap(
                b.latency_total_us,
                a.latency_total_us,
                a.price_received_ns,
                a.gamma_lookup_done_ns,
            )
            &&& !a.traded && a.book_fetch_done_ns >= a.evaluation_start_ns && a.book_fetch_done_ns
                >= a.gamma_lookup_done_ns && a.book_fetch_done_ns >= a.kelly_done_ns ==> spans_gap(
                b.latency_total_us,
                a.latency_total_us,
                a.price_received_ns,
                a.book_fetch_done_ns,
            )
            &&& !a.traded && a.kelly_done_ns >= a.evaluation_start_ns && a.kelly_done_ns >= a.gamma_lookup_done_ns
                && a.kelly_done_ns >= a.book_fetch_done_ns ==> spans_gap(
                b.latency_total_us,
                a.latency_total_us,
                a.price_received_ns,
                a.kelly_done_ns,
            )
            &&& b.span_id == a.span_id && b.market_slug == a.market_slug && b.asset == a.asset
            &&& b.traded == a.traded && b.skip_reason == a.skip_reason
            &&& b.gamma_cache_hit == a.gamma_cache_hit && b.book_cache_hit == a.book_cache_hit
        }),
{
}

/// Each stage lies between the two steps that it is named after.
pub proof fn law_stages_lie_between_their_steps(s: TradeSpan, r: SpanStages)
    requires
        call_ensures(TradeSpan::stages, (&s,), r),
    ensures
        spans_gap(r.signal_compute_us, 0, s.evaluation_start_ns, s.gamma_lookup_done_ns),
        spans_gap(r.risk_check_us, 0, s.book_fetch_done_ns, s.kelly_done_ns),
        spans_gap(r.order_build_us, 0, s.kelly_done_ns, s.order_submitted_ns),
        spans_gap(r.wire_send_us, 0, s.order_submitted_ns, s.order_acked_ns),
        r.total_us == s.latency_total_us,
{
}

/// A new span knows its market and when its price came, and nothing of what follows.
pub proof fn law_new_span_has_only_its_price(id: String, slug: &str, asset: &str, received: u64, r: TradeSpan)
    requires
        call_ensures(TradeSpan::with_id, (id, slug, asset, received), r),
    ensures
        r.span_id@ == id@ && r.market_slug@ == slug@ && r.asset@ == asset@ && r.price_received_ns == received,
        !r.traded && r.skip_reason is None && !r.gamma_cache_hit && !r.book_cache_hit,
        r.evaluation_start_ns == 0 && r.gamma_lookup_done_ns == 0 && r.book_fetch_done_ns == 0,
        r.kelly_done_ns == 0 && r.order_submitted_ns == 0 && r.order_acked_ns == 0 && r.ledger_updated_ns == 0,
        r.latency_to_eval_us == 0 && r.latency_gamma_us == 0 && r.latency_book_us == 0 && r.latency_kelly_us == 0,
        r.latency_submit_us == 0 && r.latency_ledger_us == 0 && r.latency_total_us == 0,
{
}

proof fn lemma_extremes(s: Seq<u64>)
    ensures
        forall|i: int| 0 <= i < s.len() ==> least(s) <= #[trigger] s[i] <= greatest(s),
        s.len() > 0 ==> s.contains(least(s)) && s.contains(greatest(s)),
    decreases s.len(),
{
    if s.len() > 0 {
        let front = s.drop_last();
        lemma_extremes(front);
        assert(s[s.len() - 1] == s.last());
        assert forall|i: int| 0 <= i < s.len() implies least(s) <= #[trigger] s[i] <= greatest(s) by {
            if i < front.len() {
                assert(front[i] == s[i]);
            }
        }
        if front.len() > 0 {
            let a = choose|a: int| 0 <= a < front.len() && front[a] == least(front);
            let b = choose|b: int| 0 <= b < front.len() && front[b] == greatest(front);
            assert(s[a] == least(front) && s[b] == greatest(front));
        } else {
            assert(least(front) == u64::MAX && greatest(front) == 0);
        }
    }
}

/// The least and the greatest sample are samples, and no sample lies outside them; a sample
/// more raises the sum by as much.
pub proof fn law_samples_lie_within_their_extremes(
    h: &mut LatencyHistogram,
    x: u64,
    after: LatencyHistogram,
    lo: u64,
    hi: u64,
    sum: u64,
    n: u64,
    before: LatencyHistogram,
    sum_before: u64,
    n_before: u64,
)
    requires
        call_ensures(LatencyHistogram::record, (h, x), ()),
        before == *old(h),
        after == *final(h),
        call_ensures(LatencyHistogram::min, (&after,), lo),
        call_ensures(LatencyHistogram::max, (&after,), hi),
        call_ensures(LatencyHistogram::sum_us, (&after,), sum),
        call_ensures(LatencyHistogram::sum_us, (&before,), sum_before),
        call_ensures(LatencyHistogram::count, (&after,), n),
        call_ensures(LatencyHistogram::count, (&before,), n_before),
    ensures
        lo <= x <= hi,
        after@.contains(x),
        after@.contains(lo) && after@.contains(hi),
        forall|i: int| 0 <= i < after@.len() ==> lo <= #[trigger] after@[i] <= hi,
        sum_before + x < u64::MAX ==> sum == sum_before + x,
        sum_before + x >= u64::MAX ==> sum == u64::MAX,
        n == n_before + 1,
{
    lemma_extremes(after@);
    assert(after@.drop_last() == before@);
    assert(after@[after@.len() - 1] == x);
}

proof fn lemma_at_most_is_a_count(s: Seq<u64>, bound: u64)
    ensures
        at_most(s, bound) == s.filter(|x: u64| x <= bound).len(),
    decreases s.len(),
{
    reveal(Seq::filter);
    if s.len() > 0 {
        lemma_at_most_is_a_count(s.drop_last(), bound);
    }
}

/// As many samples as the rank asks for are at most the percentile. Fewer are at most two
/// fifths of it, so that it is never further than that from the sample of the rank.
pub proof fn law_percentile_is_near_its_sample(h: LatencyHistogram, target: u64, r: u64, low: u64)
    requires
        call_ensures(LatencyHistogram::percentile, (&h, target), r),
        1 <= target <= h@.len(),
        5 * low <= 2 * r,
        r <= 10_000_000,
    ensures
        h@.filter(|x: u64| x <= r).len() >= target,
        r > 1 ==> h@.filter(|x: u64| x <= low).len() < target,
        r > 0,
{
    lemma_at_most_is_a_count(h@, r);
    lemma_at_most_is_a_count(h@, low);
    let i = choose|i: int|
        #![trigger bounds()[i]]
        0 <= i < bounds().len() && r == bounds()[i] && at_most(h@, r) >= target && forall|j: int|
            0 <= j < i ==> at_most(h@, #[trigger] bounds()[j]) < target;
    if r > 1 {
        assert(i > 0);
        assert(at_most(h@, bounds()[i - 1]) < target);
        assert(low <= bounds()[i - 1]);
        lemma_fewer_at_most_less(h@, low, bounds()[i - 1]);
    }
}

proof fn lemma_fewer_at_most_less(s: Seq<u64>, a: u64, b: u64)
    requires
        a <= b,
    ensures
        at_most(s, a) <= at_most(s, b),
    decreases s.len(),
{
    if s.len() > 0 {
        lemma_fewer_at_most_less(s.drop_last(), a, b);
    }
}

/// The shares of the percentiles are a half, 95 and 99 hundredths and 999 thousandths, as
/// near as 53 bits allow.
pub proof fn law_shares_are_what_they_are_called()
    ensures
        2 * PART_50 == 0x20_0000_0000_0000,
        -50 <= 100 * PART_95 - 95 * 0x20_0000_0000_0000 <= 50,
        -50 <= 100 * PART_99 - 99 * 0x20_0000_0000_0000 <= 50,
        -1000 <= 1000 * PART_999 - 999 * 0x20_0000_0000_0000 <= 1000,
{
}

/// A span is counted once: as an evaluation, as a hit or a miss of either cache and by the
/// way it ended. What took time is noted, and the last hundred spans are kept.
pub proof fn law_span_is_counted_once(g: &mut Fast15mLatencyRegistry, s: TradeSpan)
    requires
        call_ensures(Fast15mLatencyRegistry::record_span, (g, s), ()),
        old(g).recent_spans@.len() <= 100,
    ensures
        ({
            let a = *old(g);
            let b = *final(g);
            let untraded = !s.traded && s.skip_reason is Some;
            let why = s.skip_reason->0@;
            &&& b.evaluations == a.evaluations + 1
            &&& s.gamma_cache_hit ==> b.gamma_cache_hits == a.gamma_cache_hits + 1 && b.gamma_cache_misses
                == a.gamma_cache_misses
            &&& !s.gamma_cache_hit ==> b.gamma_cache_misses == a.gamma_cache_misses + 1 && b.gamma_cache_hits
                == a.gamma_cache_hits
            &&& s.book_cache_hit ==> b.book_cache_hits == a.book_cache_hits + 1 && b.book_cache_misses
                == a.book_cache_misses
            &&& !s.book_cache_hit ==> b.book_cache_misses == a.book_cache_misses + 1 && b.book_cache_hits
                == a.book_cache_hits
            &&& s.traded ==> b.trades_executed == a.trades_executed + 1
            &&& !s.traded ==> b.trades_executed == a.trades_executed
            &&& untraded && why == "no_edge"@ ==> b.trades_skipped_no_edge == a.trades_skipped_no_edge + 1
            &&& untraded && why == "cooldown"@ ==> b.trades_skipped_cooldown == a.trades_skipped_cooldown + 1
            &&& untraded && why == "window"@ ==> b.trades_skipped_window == a.trades_skipped_window + 1
            &&& untraded && why != "no_edge"@ && why != "cooldown"@ && why != "window"@
                ==> b.trades_skipped_no_data == a.trades_skipped_no_data + 1
            &&& (b.trades_skipped_no_edge - a.trades_skipped_no_edge) + (b.trades_skipped_cooldown
                - a.trades_skipped_cooldown) + (b.trades_skipped_window - a.trades_skipped_window) + (
            b.trades_skipped_no_data - a.trades_skipped_no_data) == if untraded {
                1int
            } else {
                0int
            }
            &&& s.latency_total_us > 0 ==> b.total_t2t@ == a.total_t2t@.push(s.latency_total_us)
            &&& s.latency_gamma_us > 0 ==> b.gamma_lookup@ == a.gamma_lookup@.push(s.latency_gamma_us)
            &&& s.latency_book_us > 0 ==> b.book_fetch@ == a.book_fetch@.push(s.latency_book_us)
            &&& s.latency_kelly_us > 0 ==> b.kelly_calc@ == a.kelly_calc@.push(s.latency_kelly_us)
            &&& s.latency_submit_us > 0 ==> b.order_submit@ == a.order_submit@.push(s.latency_submit_us)
            &&& s.latency_ledger_us > 0 ==> b.ledger_update@ == a.ledger_update@.push(s.latency_ledger_us)
            &&& s.latency_total_us == 0 ==> b.total_t2t@ == a.total_t2t@
            &&& s.latency_gamma_us == 0 ==> b.gamma_lookup@ == a.gamma_lookup@
            &&& s.latency_book_us == 0 ==> b.book_fetch@ == a.book_fetch@
            &&& s.latency_kelly_us == 0 ==> b.kelly_calc@ == a.kelly_calc@
            &&& s.latency_submit_us == 0 ==> b.order_submit@ == a.order_submit@
            &&& s.latency_ledger_us == 0 ==> b.ledger_update@ == a.ledger_update@
            &&& 1 <= b.recent_spans@.len() <= 100
            &&& b.recent_spans@.last()@ == s@
            &&& a.recent_spans@.len() < 100 ==> b.recent_spans@.len() == a.recent_spans@.len() + 1
            &&& a.recent_spans@.len() == 100 ==> b.recent_spans@.len() == 100
            &&& forall|k: int|
                1 <= k < b.recent_spans@.len() ==> (#[trigger] b.recent_spans@[b.recent_spans@.len() - 1 - k])@
                    == a.recent_spans@[a.recent_spans@.len() - k]@
        }),
{
    reveal_strlit("no_edge");
    reveal_strlit("cooldown");
    reveal_strlit("window");
    assert("no_edge"@.len() != "cooldown"@.len());
    assert("no_edge"@.len() != "window"@.len());
    assert("cooldown"@.len() != "window"@.len());
    let a = span_views(old(g).recent_spans@);
    let b = span_views(final(g).recent_spans@);
    assert(b == pushed_within(a, s@, 100));
    assert(b.last() == s@);
    assert(b.len() == final(g).recent_spans@.len());
    assert(a.len() == old(g).recent_spans@.len());
    assert(b[b.len() - 1] == final(g).recent_spans@.last()@);
    assert forall|k: int| 1 <= k < final(g).recent_spans@.len() implies (#[trigger] final(g).recent_spans@[final(g).recent_spans@.len() - 1 - k])@ == old(g).recent_spans@[old(g).recent_spans@.len() - k]@ by {
        assert(b[b.len() - 1 - k] == a[a.len() - k]);
        assert(b[b.len() - 1 - k] == final(g).recent_spans@[final(g).recent_spans@.len() - 1 - k]@);
        assert(a[a.len() - k] == old(g).recent_spans@[old(g).recent_spans@.len() - k]@);
    }
}

/// A price opens an attempt in time: not in the idle end of its window, not before the
/// cooldown is over, and not too soon after the last evaluation but in the opening of the
/// window. The attempt belongs to the window and the asset of the price.
pub proof fn law_price_opens_an_attempt_in_time(
    s: &mut ReactiveFast15mEngine,
    event: PriceUpdateEvent,
    id: String,
    now: i64,
    r: Opening,
    a: UpDownAsset,
    slug: String,
    name: &str,
)
    requires
        now >= 0,
        call_ensures(ReactiveFast15mEngine::on_price_update_with, (s, &event, id, now), r),
        event.symbol@ == a.symbol(),
        call_ensures(UpDownAsset::as_str, (a,), name),
        call_ensures(market_slug, (name, (now - now % 900) as i64), slug),
        old(s).cfg.min_eval_interval_ms <= i64::MAX,
    ensures
        ({
            let cfg = old(s).cfg;
            let m = old(s).assets.of(a);
            let gap = cfg.min_eval_interval_ms as int / 1000;
            let awake = 900 - now % 900 >= cfg.window_end_idle_sec;
            let rested = now >= m.last_trade_ts + cfg.cooldown_sec;
            let due = now % 900 <= cfg.window_start_aggressive_sec || (now > m.last_eval_ts && now >= m.last_eval_ts
                + gap);
            &&& r is Open <==> awake && rested && due
            &&& r is Closed <==> awake && !rested
            &&& r is Open ==> r->Open_0.asset == a && r->Open_0.now == now && r->Open_0.start_ts == now - now % 900
                && r->Open_0.t_rem == 900 - now % 900 && r->Open_0.t_elapsed == now % 900 && r->Open_0.span.span_id@
                == id@ && r->Open_0.span.market_slug@ == slug@ && r->Open_0.span.asset@ == name@
                && r->Open_0.span.price_received_ns == event.received_at_ns && !r->Open_0.span.traded
                && *final(s) == *old(s)
            &&& r is Closed ==> r->Closed_0.skip_reason is Some && r->Closed_0.skip_reason->0@ == "cooldown"@
                && r->Closed_0.market_slug@ == slug@ && r->Closed_0.span_id@ == id@ && final(s).latency_registry.evaluations == old(s).latency_registry.evaluations + 1
            &&& final(s).assets == old(s).assets && final(s).cfg == old(s).cfg && final(s).token_cache == old(s).token_cache
        }),
{
    assert(a.symbol() == event.symbol@);
}

/// A price of something else is ignored.
pub proof fn law_other_prices_open_nothing(
    s: &mut ReactiveFast15mEngine,
    event: PriceUpdateEvent,
    id: String,
    now: i64,
    r: Opening,
)
    requires
        call_ensures(ReactiveFast15mEngine::on_price_update_with, (s, &event, id, now), r),
        event.symbol@ != "BTCUSDT"@ && event.symbol@ != "ETHUSDT"@ && event.symbol@ != "SOLUSDT"@ && event.symbol@
            != "XRPUSDT"@,
    ensures
        r is Ignored,
        *final(s) == *old(s),
{
    assert(forall|a: UpDownAsset| (#[trigger] a.symbol()) != event.symbol@);
}

/// An estimate is remembered for its asset alone. It is passed over where it is near the
/// last one, but in the opening of a window; else the attempt goes on, with the tokens that
/// are known of its market.
pub proof fn law_estimate_is_remembered(
    s: &mut ReactiveFast15mEngine,
    attempt: Attempt,
    reading: PriceReading,
    now_ns: u64,
    r: Estimated,
    other: UpDownAsset,
)
    requires
        call_ensures(ReactiveFast15mEngine::on_estimate, (s, attempt, reading, now_ns), r),
    ensures
        ({
            let m = final(s).assets.of(attempt.asset);
            let was = old(s).assets.of(attempt.asset);
            let slug = attempt.span.market_slug@;
            let known = old(s).token_cache@.contains_key(slug);
            let far = !reading->edge_change.spec_lt(old(s).cfg.edge_change_threshold) || attempt.t_elapsed <= old(s).cfg.window_start_aggressive_sec;
            &&& reading is Estimate ==> m.last_p_up == reading->p_up && m.last_edge == reading->edge
            &&& reading is Estimate && far ==> m.last_eval_ts == attempt.now
            &&& reading is Estimate && !far ==> m.last_eval_ts == was.last_eval_ts && r is Ignored
            &&& m.last_trade_ts == was.last_trade_ts
            &&& other != attempt.asset ==> final(s).assets.of(other) == old(s).assets.of(other)
            &&& !(reading is Estimate) ==> r is Closed && m == was && r->Closed_0.skip_reason is Some
                && !r->Closed_0.traded == !attempt.span.traded
            &&& reading is NoStartPrice ==> r->Closed_0.skip_reason->0@ == "no_start_price"@
            &&& reading is NoSigma ==> r->Closed_0.skip_reason->0@ == "no_sigma"@
            &&& reading is NoEstimate ==> r->Closed_0.skip_reason->0@ == "p_up_calc_failed"@
            &&& reading is Estimate && far ==> (r is Known <==> known) && (r is Lookup <==> !known)
            &&& r is Known ==> r->1@ == old(s).token_cache@[slug].0@ && r->2@ == old(s).token_cache@[slug].1@
                && r->Known_0.span.gamma_cache_hit && r->Known_0.span.evaluation_start_ns == now_ns
                && r->Known_0.asset == attempt.asset && r->Known_0.span.market_slug@ == slug
            &&& r is Lookup ==> r->Lookup_0.span.gamma_cache_hit == attempt.span.gamma_cache_hit
                && r->Lookup_0.span.evaluation_start_ns == now_ns && r->Lookup_0.asset == attempt.asset
            &&& final(s).latency_registry == old(s).latency_registry
        }),
{
    if attempt.asset != other {
    }
}

/// The tokens that are found for a market stay known for it, the one for up first; an
/// attempt without both is closed.
pub proof fn law_found_tokens_stay_known(
    s: &mut ReactiveFast15mEngine,
    attempt: Attempt,
    up: String,
    down: String,
    now_ns: u64,
    r: Tokens,
)
    requires
        call_ensures(ReactiveFast15mEngine::on_tokens, (s, attempt, up, down, now_ns), r),
        !attempt.span.gamma_cache_hit,
    ensures
        ({
            let slug = attempt.span.market_slug@;
            let both = up@.len() > 0 && down@.len() > 0;
            &&& r is Ready <==> both
            &&& both ==> final(s).token_cache@.contains_key(slug) && final(s).token_cache@[slug] == (up, down)
                && r->1 == up && r->2 == down && r->Ready_0.span.gamma_lookup_done_ns == now_ns && r->Ready_0.asset
                == attempt.asset && final(s).latency_registry == old(s).latency_registry
            &&& !both ==> final(s).token_cache == old(s).token_cache && r->Closed_0.skip_reason is Some
                && r->Closed_0.skip_reason->0@ == "no_tokens"@ && final(s).latency_registry.evaluations == old(s).latency_registry.evaluations + 1
            &&& forall|k: Seq<char>|
                k != slug ==> (final(s).token_cache@.contains_key(k) <==> old(s).token_cache@.contains_key(k))
                    && final(s).token_cache@[k] == #[trigger] old(s).token_cache@[k]
        }),
{
}

/// The outcome with an ask and the greater edge is bought at its ask with its own token, if
/// the edge is wide enough.
pub proof fn law_wider_edge_is_bought(
    s: &mut ReactiveFast15mEngine,
    attempt: Attempt,
    up: String,
    down: String,
    q: Quotes,
    book_ns: u64,
    checked_ns: u64,
    r: Booked,
)
    requires
        call_ensures(ReactiveFast15mEngine::on_books, (s, attempt, up, down, q, book_ns, checked_ns), r),
        q.edge_up is Rank,
        q.edge_down is Rank,
    ensures
        ({
            let upward = q.ask_up is Some && (q.ask_down is None || q.edge_down.spec_le(q.edge_up));
            let downward = q.ask_down is Some && (q.ask_up is None || q.edge_up.spec_lt(q.edge_down));
            let least = old(s).cfg.min_edge;
            let fits = (upward && !q.edge_up.spec_lt(least)) || (downward && !q.edge_down.spec_lt(least));
            &&& r is Size <==> fits
            &&& r is Size && upward ==> r->1 == up && r->2.up && r->2.price == q.ask_up->0 && r->2.confidence == q.p_up
                && r->2.edge == q.edge_up
            &&& r is Size && downward ==> r->1 == down && !r->2.up && r->2.price == q.ask_down->0 && r->2.confidence
                == q.p_down && r->2.edge == q.edge_down
            &&& r is Size ==> r->Size_0.span.book_cache_hit && r->Size_0.span.book_fetch_done_ns == book_ns
                && r->Size_0.asset == attempt.asset && final(s).latency_registry == old(s).latency_registry
            &&& !upward && !downward ==> r->Closed_0.skip_reason is Some && r->Closed_0.skip_reason->0@ == "no_asks"@
                && !r->Closed_0.book_cache_hit
            &&& (upward || downward) && !fits ==> r->Closed_0.skip_reason is Some && r->Closed_0.skip_reason->0@
                == "no_edge"@ && r->Closed_0.kelly_done_ns == checked_ns && r->Closed_0.book_cache_hit
            &&& !(r is Size) ==> final(s).latency_registry.evaluations == old(s).latency_registry.evaluations + 1
            &&& final(s).assets == old(s).assets && final(s).cfg == old(s).cfg
        }),
{
}

/// A stake becomes an order to buy the picked outcome at its ask, executed at once or not at
/// all, if there is money and the stake is worth it.
pub proof fn law_stake_becomes_its_order(
    s: &mut ReactiveFast15mEngine,
    attempt: Attempt,
    token: String,
    pick: Pick,
    sizing: Sizing,
    id: String,
    sized_ns: u64,
    submitted_ns: u64,
    r: Sized,
)
    requires
        call_ensures(
            ReactiveFast15mEngine::on_sizing_with,
            (s, attempt, token, pick, sizing, id, sized_ns, submitted_ns),
            r,
        ),
    ensures
        ({
            let money = !sizing.bankroll.spec_le(Scalar::Rank(0));
            &&& r is Submit <==> money && sizing.should_trade
            &&& r is Submit ==> {
                let o = r->Submit_1;
                let t = r->Submit_0;
                &&& o.client_order_id@ == id@
                &&& o.token_id@ == token@
                &&& o.side == OrderSide::Buy
                &&& o.price == pick.price
                &&& o.notional_usdc == sizing.position_size_usd
                &&& o.tif == TimeInForce::Ioc
                &&& o.market_slug is Some && o.market_slug->0@ == attempt.span.market_slug@
                &&& o.outcome is Some
                &&& pick.up ==> o.outcome->0@ == "Up"@
                &&& !pick.up ==> o.outcome->0@ == "Down"@
                &&& t.asset == attempt.asset && t.now == attempt.now
                &&& t.span.kelly_done_ns == sized_ns && t.span.order_submitted_ns == submitted_ns
                &&& final(s).latency_registry == old(s).latency_registry
            }
            &&& !money ==> r->Closed_0.skip_reason is Some && r->Closed_0.skip_reason->0@ == "no_bankroll"@
            &&& money && !sizing.should_trade ==> r->Closed_0.skip_reason is Some && r->Closed_0.skip_reason->0@
                == "kelly_skip"@
            &&& r is Closed ==> r->Closed_0.kelly_done_ns == sized_ns && final(s).latency_registry.evaluations == old(s).latency_registry.evaluations + 1
            &&& final(s).assets == old(s).assets && final(s).cfg == old(s).cfg
        }),
{
}

/// A booked order is a trade: it is counted as one, and its asset rests from the instant of
/// its price on.
pub proof fn law_booked_order_is_a_trade(
    s: &mut ReactiveFast15mEngine,
    attempt: Attempt,
    acked_ns: u64,
    ledger_ns: u64,
    r: TradeSpan,
    other: UpDownAsset,
)
    requires
        call_ensures(ReactiveFast15mEngine::on_booked, (s, attempt, acked_ns, ledger_ns), r),
    ensures
        r.traded && r.order_acked_ns == acked_ns && r.ledger_updated_ns == ledger_ns,
        spans_gap(r.latency_total_us, attempt.span.latency_total_us, attempt.span.price_received_ns, ledger_ns),
        final(s).assets.of(attempt.asset).last_trade_ts == attempt.now,
        final(s).assets.of(attempt.asset).last_eval_ts == old(s).assets.of(attempt.asset).last_eval_ts,
        other != attempt.asset ==> final(s).assets.of(other) == old(s).assets.of(other),
        final(s).latency_registry.trades_executed == old(s).latency_registry.trades_executed + 1,
        final(s).latency_registry.evaluations == old(s).latency_registry.evaluations + 1,
        final(s).token_cache == old(s).token_cache && final(s).cfg == old(s).cfg,
{
}

/// What is put for an asset is got for it, and no other asset is touched.
pub proof fn law_each_asset_has_its_own_memory(
    p: &mut PerAsset,
    a: UpDownAsset,
    s: AssetState,
    b: UpDownAsset,
    after: PerAsset,
    before: PerAsset,
    r: AssetState,
    was: AssetState,
)
    requires
        call_ensures(PerAsset::put, (p, a, s), ()),
        before == *old(p),
        after == *final(p),
        call_ensures(PerAsset::get, (&after, b), r),
        call_ensures(PerAsset::get, (&before, b), was),
    ensures
        b == a ==> r == s,
        b != a ==> r == was,
{
}

/// The strategy starts with nothing remembered: a chance of one half, no edge, no trade.
pub proof fn law_reactive_engine_starts_afresh(cfg: ReactiveFast15mConfig, e: ReactiveFast15mEngine, a: UpDownAsset)
    requires
        call_ensures(ReactiveFast15mEngine::new, (cfg,), e),
    ensures
        e.cfg == cfg,
        e.assets.of(a).last_p_up == Scalar::Rank(HALF_RANK),
        e.assets.of(a).last_edge == Scalar::Rank(0),
        e.assets.of(a).last_trade_ts == 0 && e.assets.of(a).last_eval_ts == 0,
        e.token_cache@.dom() == Set::<Seq<char>>::empty(),
        e.latency_registry.evaluations == 0,
{
    assert(e.assets.of(a) == fresh_asset());
}

/// Each setting is what its variable says, where that lies within its bounds, and lies within
/// them whatever the variables say.
pub proof fn law_reactive_takes_its_settings(env: Environment, r: ReactiveFast15mConfig)
    requires
        call_ensures(ReactiveFast15mConfig::from_env, (&env,), r),
    ensures
        set_above_zero(env, "REACTIVE_FAST15M_MIN_EDGE"@, r.min_edge),
        set_up_to(env, "REACTIVE_FAST15M_KELLY_FRACTION"@, Scalar::Rank(ONE_RANK), r.kelly_fraction),
        set_up_to(env, "REACTIVE_FAST15M_MAX_POSITION_PCT"@, Scalar::Rank(ONE_RANK), r.max_position_pct),
        set_up_to(env, "REACTIVE_FAST15M_SHRINK"@, Scalar::Rank(ONE_RANK), r.shrink_to_half),
        set_above_zero(env, "REACTIVE_FAST15M_EDGE_THRESHOLD"@, r.edge_change_threshold),
        set_whole(env, "REACTIVE_FAST15M_COOLDOWN_SEC"@, true, 0, i64::MAX as int, r.cooldown_sec as int),
        set_whole(env, "REACTIVE_FAST15M_MIN_EVAL_INTERVAL_MS"@, false, 0, u64::MAX as int, r.min_eval_interval_ms as int),
{
}

/// The figures that hold where no variable is set.
pub proof fn law_unset_reactive_is_the_default(env: Environment, r: ReactiveFast15mConfig, d: ReactiveFast15mConfig)
    requires
        is_unset(env),
        call_ensures(ReactiveFast15mConfig::from_env, (&env,), r),
        call_ensures(ReactiveFast15mConfig::default, (), d),
    ensures
        r == d,
        d.min_edge == Scalar::Rank(MIN_EDGE),
        d.kelly_fraction == Scalar::Rank(KELLY_FRACTION),
        d.max_position_pct == Scalar::Rank(MIN_EDGE),
        d.shrink_to_half == Scalar::Rank(SHRINK),
        d.cooldown_sec == 30,
        d.edge_change_threshold == Scalar::Rank(EDGE_CHANGE),
        d.min_eval_interval_ms == 50,
        d.window_start_aggressive_sec == 60,
        d.window_end_idle_sec == 60,
{
}

/// Of latencies of a few, the bound that a share reaches is the percentile of the rank that
/// the share stands for, and the shares come in their order.
pub proof fn law_shares_are_percentiles_in_order(h: LatencyHistogram, a: u64, b: u64, c: u64, d: u64, g: Fast15mLatencyRegistry, s: LatencySummary)
    requires
        call_ensures(LatencyHistogram::p50, (&h,), a),
        call_ensures(LatencyHistogram::p95, (&h,), b),
        call_ensures(LatencyHistogram::p99, (&h,), c),
        call_ensures(LatencyHistogram::p999, (&h,), d),
        call_ensures(Fast15mLatencyRegistry::summary, (&g,), s),
        h@.len() <= u64::MAX,
        g.total_t2t == h,
    ensures
        a <= b <= c <= d,
        h@.len() == 0 ==> d == 0,
        s.t2t_p50_us <= s.t2t_p95_us <= s.t2t_p99_us <= s.t2t_p999_us,
        s.evaluations == g.evaluations && s.trades_executed == g.trades_executed && s.gamma_cache_hits
            == g.gamma_cache_hits && s.gamma_cache_misses == g.gamma_cache_misses && s.book_cache_hits == g.book_cache_hits
            && s.book_cache_misses == g.book_cache_misses && s.t2t_count == h@.len(),
{
    law_percentiles_are_ordered(h@, a, b, c, d);
    law_percentiles_are_ordered(h@, s.t2t_p50_us, s.t2t_p95_us, s.t2t_p99_us, s.t2t_p999_us);
}

/// A mean is told where there are samples; a new histogram and a new registry have none.
pub proof fn law_registry_starts_empty(
    h: LatencyHistogram,
    q: Scalar,
    m: Scalar,
    n: LatencyHistogram,
    g: Fast15mLatencyRegistry,
    e: ReactiveFast15mEngine,
    a: UpDownAsset,
    s: AssetState,
)
    requires
        call_ensures(LatencyHistogram::mean, (&h, q), m),
        call_ensures(LatencyHistogram::new, (), n),
        call_ensures(Fast15mLatencyRegistry::new, (), g),
        call_ensures(ReactiveFast15mEngine::asset_state, (&e, a), s),
    ensures
        h@.len() == 0 ==> m == Scalar::Rank(0),
        h@.len() > 0 ==> m == q,
        n@.len() == 0,
        g.evaluations == 0 && g.trades_executed == 0 && g.recent_spans@.len() == 0 && g.total_t2t@.len() == 0,
        a is Btc ==> s == e.assets.btc,
        a is Eth ==> s == e.assets.eth,
        a is Sol ==> s == e.assets.sol,
        a is Xrp ==> s == e.assets.xrp,
{
}

/// A pick is the outcome with an ask and the greater edge, up where they are equal.
pub proof fn law_pick_has_the_greater_edge(q: Quotes, r: Option<Pick>)
    requires
        call_ensures(Quotes::pick, (&q,), r),
        q.edge_up is Rank && q.edge_down is Rank,
    ensures
        r is Some <==> q.ask_up is Some || q.ask_down is Some,
        r is Some && r->0.up ==> q.ask_up == Some(r->0.price) && r->0.edge == q.edge_up && r->0.confidence == q.p_up && (
        q.ask_down is Some ==> q.edge_down.spec_le(q.edge_up)),
        r is Some && !r->0.up ==> q.ask_down == Some(r->0.price) && r->0.edge == q.edge_down && r->0.confidence == q.p_down
            && (q.ask_up is Some ==> q.edge_up.spec_lt(q.edge_down)),
{
}

/// A fresh identifier changes nothing else of what a price or a stake leads to.
pub proof fn law_fresh_identifier_changes_nothing_else(
    a: &mut ReactiveFast15mEngine,
    b: &mut ReactiveFast15mEngine,
    attempt: Attempt,
    token: String,
    pick: Pick,
    sizing: Sizing,
    id: String,
    sized_ns: u64,
    submitted_ns: u64,
    r: Sized,
    s: Sized,
)
    requires
        *old(a) == *old(b),
        call_ensures(ReactiveFast15mEngine::on_sizing, (a, attempt, token, pick, sizing, sized_ns, submitted_ns), r),
        call_ensures(
            ReactiveFast15mEngine::on_sizing_with,
            (b, attempt, token, pick, sizing, id, sized_ns, submitted_ns),
            s,
        ),
    ensures
        r is Submit <==> s is Submit,
        r is Submit ==> r->Submit_1.token_id@ == s->Submit_1.token_id@ && r->Submit_1.side == s->Submit_1.side
            && r->Submit_1.price == s->Submit_1.price && r->Submit_1.notional_usdc == s->Submit_1.notional_usdc
            && r->Submit_1.tif == s->Submit_1.tif && r->Submit_1.outcome->0@ == s->Submit_1.outcome->0@
            && r->Submit_1.market_slug->0@ == s->Submit_1.market_slug->0@ && r->Submit_1.client_order_id@.len() == 36,
        r is Closed ==> r->Closed_0.skip_reason->0@ == s->Closed_0.skip_reason->0@,
        final(a).assets == final(b).assets && final(a).cfg == final(b).cfg,
{
}

/// A price leads to the same with a fresh identifier as with one that is given.
pub proof fn law_price_leads_to_the_same(
    a: &mut ReactiveFast15mEngine,
    b: &mut ReactiveFast15mEngine,
    event: PriceUpdateEvent,
    id: String,
    now: i64,
    r: Opening,
    s: Opening,
    asset: UpDownAsset,
)
    requires
        *old(a) == *old(b),
        event.symbol@ == asset.symbol(),
        call_ensures(ReactiveFast15mEngine::on_price_update, (a, &event, now), r),
        call_ensures(ReactiveFast15mEngine::on_price_update_with, (b, &event, id, now), s),
    ensures
        r is Open <==> s is Open,
        r is Closed <==> s is Closed,
        r is Open ==> r->Open_0.asset == s->Open_0.asset && r->Open_0.start_ts == s->Open_0.start_ts && r->Open_0.t_rem
            == s->Open_0.t_rem && r->Open_0.t_elapsed == s->Open_0.t_elapsed && r->Open_0.span.market_slug@
            == s->Open_0.span.market_slug@ && r->Open_0.span.span_id@.len() == 36,
        final(a).assets == final(b).assets,
{
    let x = choose|x: Seq<char>|
        x.len() == 36 && #[trigger] ReactiveFast15mEngine::took_price(*old(a), *final(a), event, x, now as int, r);
    assert(asset.symbol() == event.symbol@);
}

/// Each rank here is that of the binary64 number nearest to the one it is called after.
pub proof fn law_fast15m_reactive_ranks_are_nearest()
    ensures
        0x3F80_0000_0000_0000 <= MIN_EDGE < 0x3F90_0000_0000_0000,
        -100 <= 2 * (100 * (MIN_EDGE - 0x3F70000000000000) - 1 * 0x800000000000000int) <= 100,
        0x3FA0_0000_0000_0000 <= KELLY_FRACTION < 0x3FB0_0000_0000_0000,
        -20 <= 2 * (20 * (KELLY_FRACTION - 0x3F90000000000000) - 1 * 0x200000000000000int) <= 20,
        0x3FD0_0000_0000_0000 <= SHRINK < 0x3FE0_0000_0000_0000,
        -20 <= 2 * (20 * (SHRINK - 0x3FC0000000000000) - 7 * 0x40000000000000int) <= 20,
        0x3F70_0000_0000_0000 <= EDGE_CHANGE < 0x3F80_0000_0000_0000,
        -200 <= 2 * (200 * (EDGE_CHANGE - 0x3F60000000000000) - 1 * 0x1000000000000000int) <= 200,
{
}

} // verus!
