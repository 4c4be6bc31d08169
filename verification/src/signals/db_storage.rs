//! What is written to the database about signals, and what is asked of it.
use super::copy_trading::{bucket_of, day_bucket};
use super::enrichment::SignalContextOrder;
use crate::base::ranks::R_0_7;
use crate::base::scalar::{Scalar, HALF_RANK};
use crate::base::text::{
    ascii_lowercase,
    ascii_uppercase,
    chars_of,
    cut_at,
    decimal,
    decimal_i64,
    find,
    has_text,
    joined,
    lemma_trimmed_twice,
    lowercase,
    occurs_at,
    same,
    split_once,
    starts_with,
    text_of,
    to_ascii_lower,
    to_ascii_upper,
    to_lower,
    trim,
    trimmed,
};
use crate::models::{MarketSignal, SignalType};
use crate::vault::records::{text_copy, text_view};
use vstd::prelude::*;

verus! {

/// A decision that is on record.
#[derive(Debug)]
pub struct VaultLlmDecisionRow {
    pub decision_id: String,
    pub market_slug: String,
    pub created_at: i64,
    pub action: String,
    pub outcome_index: Option<i64>,
    pub outcome_text: Option<String>,
    pub p_true: Option<Scalar>,
    pub bid: Option<Scalar>,
    pub ask: Option<Scalar>,
    pub p_eff: Option<Scalar>,
    pub edge: Option<Scalar>,
    pub size_mult: Option<Scalar>,
    pub consensus_models: Option<String>,
    pub flags: Option<String>,
    pub rationale_hash: Option<String>,
}

/// An answer of a model that is on record.
#[derive(Debug)]
pub struct VaultLlmModelRecordRow {
    pub id: String,
    pub decision_id: String,
    pub model: String,
    pub created_at: i64,
    pub parsed_ok: bool,
    pub action: Option<String>,
    pub outcome_index: Option<i64>,
    pub p_true: Option<Scalar>,
    pub uncertainty: Option<String>,
    pub size_mult: Option<Scalar>,
    pub flags: Option<String>,
    pub rationale_hash: Option<String>,
    pub raw_dsl: Option<String>,
    pub latency_ms: Option<i64>,
    pub prompt_tokens: Option<i64>,
    pub completion_tokens: Option<i64>,
    pub total_tokens: Option<i64>,
    pub error: Option<String>,
}

/// How much the models were asked today.
#[derive(Debug)]
pub struct VaultLlmUsageStats {
    pub day_start_ts: i64,
    pub calls_today: u32,
    pub tokens_today: u64,
    pub per_market_calls_today: Vec<(String, u32)>,
}

/// An order for a replay.
#[derive(Debug)]
pub struct DomeOrderForBacktest {
    pub timestamp: i64,
    pub market_slug: String,
    pub side: String,
    pub outcome: String,
    pub price: Scalar,
}

/// The database in figures.
#[derive(Debug)]
pub struct DatabaseStats {
    pub total_signals: usize,
    pub total_signals_ever: usize,
    pub signals_by_source: Vec<(String, usize)>,
    pub avg_confidence: Scalar,
    pub high_confidence_count: usize,
}

/// How far the search index has come.
#[derive(Debug)]
pub struct SearchIndexStatus {
    pub schema_ready: bool,
    pub backfill_done: bool,
    pub total_signals: usize,
    pub indexed_rows: usize,
    pub cursor_detected_at: Option<String>,
    pub cursor_id: Option<String>,
}

/// A text without the white space around it, where something is left.
pub open spec fn nonblank(t: Seq<char>) -> Option<Seq<char>> {
    if trimmed(t).len() > 0 {
        Some(trimmed(t))
    } else {
        None
    }
}

/// Trims a text, and drops it where nothing is left.
pub fn nonblank_text(t: &str) -> (r: Option<String>)
    ensures
        text_view(r) == nonblank(t@),
{
    let cut = trim(t);
    if chars_of(cut.as_str()).len() > 0 {
        Some(cut)
    } else {
        None
    }
}

/// What stands under a key of the metadata: blank values count as none.
pub fn metadata_value(stored: &Option<String>) -> (r: Option<String>)
    ensures
        text_view(r) == match *stored {
            Some(v) => nonblank(v@),
            None => None,
        },
{
    match stored {
        Some(v) => nonblank_text(v.as_str()),
        None => None,
    }
}

/// `needle` stands in `s` at `i` first.
pub open spec fn first_occurs(s: Seq<char>, needle: Seq<char>, i: int) -> bool {
    occurs_at(s, needle, i) && forall|j: int| 0 <= j < i ==> !occurs_at(s, needle, j)
}

/// What stands in quotes after a phrase, in any case of its letters.
pub open spec fn quoted_after(s: Seq<char>, phrase: Seq<char>, quote: char) -> Option<Seq<char>> {
    if has_text(ascii_lowercase(s), phrase) {
        let i = choose|i: int| first_occurs(ascii_lowercase(s), phrase, i);
        match cut_at(s.skip(i + phrase.len()), quote) {
            Some((inside, _)) => nonblank(inside),
            None => None,
        }
    } else {
        None
    }
}

fn find_quoted(s: &str, phrase: &str, quote: char) -> (r: Option<String>)
    ensures
        text_view(r) == quoted_after(s@, phrase@, quote),
{
    let lower = to_ascii_lower(s);
    match find(lower.as_str(), phrase) {
        Some(i) => {
            let v = chars_of(s);
            let needle = chars_of(phrase);
            let n: usize = needle.len();
            let ghost chosen = choose|j: int| first_occurs(ascii_lowercase(s@), phrase@, j);
            proof {
                assert(first_occurs(ascii_lowercase(s@), phrase@, i as int));
                assert(first_occurs(ascii_lowercase(s@), phrase@, chosen));
                assert(chosen == i);
                assert(has_text(ascii_lowercase(s@), phrase@));
                assert(ascii_lowercase(s@).len() == s@.len());
                assert(i + n <= v.len());
            }
            let rest = text_of(&v, i + n, v.len());
            assert(rest@ =~= s@.skip(i + phrase@.len()));
            match split_once(rest.as_str(), quote) {
                Some((inside, _)) => nonblank_text(inside.as_str()),
                None => None,
            }
        },
        None => None,
    }
}

/// The title of a market that stands in quotes in a headline.
pub open spec fn quoted_title(s: Seq<char>) -> Option<Seq<char>> {
    match quoted_after(trimmed(s), " on '"@, '\'') {
        Some(t) => Some(t),
        None => quoted_after(trimmed(s), " on \""@, '"'),
    }
}

/// Finds the title of a market that stands in quotes in a headline.
pub fn extract_quoted_market_title(s: &str) -> (r: Option<String>)
    ensures
        text_view(r) == quoted_title(s@),
{
    let cut = trim(s);
    match find_quoted(cut.as_str(), " on '", '\'') {
        Some(t) => Some(t),
        None => find_quoted(cut.as_str(), " on \"", '"'),
    }
}

/// Whether a title is a headline about a wallet.
pub open spec fn is_headline(s: Seq<char>) -> bool {
    let lower = ascii_lowercase(s);
    occurs_at(lower, "tracked wallet entry"@, 0) || occurs_at(lower, "insider entry"@, 0) || occurs_at(
        lower,
        "world class trader entry"@,
        0,
    )
}

/// The title by which a signal is found.
pub open spec fn search_title(s: MarketSignal) -> Option<Seq<char>> {
    let raw = trimmed(s.details.market_title@);
    if raw.len() == 0 {
        None
    } else if s.signal_type is TrackedWalletEntry && is_headline(raw) && quoted_title(raw) is Some {
        quoted_title(raw)
    } else {
        Some(raw)
    }
}

pub fn normalized_market_title_for_search(signal: &MarketSignal) -> (r: Option<String>)
    ensures
        text_view(r) == search_title(*signal),
{
    let raw = trim(signal.details.market_title.as_str());
    if chars_of(raw.as_str()).len() == 0 {
        return None;
    }
    let of_wallet = match &signal.signal_type {
        SignalType::TrackedWalletEntry { .. } => true,
        _ => false,
    };
    if of_wallet {
        let lower = to_ascii_lower(raw.as_str());
        let headline = starts_with(lower.as_str(), "tracked wallet entry") || starts_with(
            lower.as_str(),
            "insider entry",
        ) || starts_with(lower.as_str(), "world class trader entry");
        if headline {
            match extract_quoted_market_title(raw.as_str()) {
                Some(t) => {
                    return Some(t);
                },
                None => {},
            }
        }
    }
    Some(raw)
}

/// The wallet of a signal, its label and the label of the token.
#[derive(Debug)]
pub struct WalletFields {
    pub wallet_address: Option<String>,
    pub wallet_label: Option<String>,
    pub token_label: Option<String>,
}

/// The wallet of a signal, as far as its kind knows one.
pub open spec fn wallet_of(t: SignalType) -> WalletFields {
    match t {
        SignalType::TrackedWalletEntry { wallet_address, wallet_label, token_label, .. } => WalletFields {
            wallet_address: Some(wallet_address),
            wallet_label: Some(wallet_label),
            token_label,
        },
        SignalType::WhaleFollowing { whale_address, .. } => WalletFields {
            wallet_address: Some(whale_address),
            wallet_label: None,
            token_label: None,
        },
        SignalType::EliteWallet { wallet_address } => WalletFields {
            wallet_address: Some(wallet_address),
            wallet_label: None,
            token_label: None,
        },
        SignalType::InsiderWallet { wallet_address } => WalletFields {
            wallet_address: Some(wallet_address),
            wallet_label: None,
            token_label: None,
        },
        _ => WalletFields { wallet_address: None, wallet_label: None, token_label: None },
    }
}

pub fn wallet_fields(t: &SignalType) -> (r: WalletFields)
    ensures
        r == wallet_of(*t),
{
    match t {
        SignalType::TrackedWalletEntry { wallet_address, wallet_label, token_label, .. } => WalletFields {
            wallet_address: Some(wallet_address.clone()),
            wallet_label: Some(wallet_label.clone()),
            token_label: text_copy(token_label),
        },
        SignalType::WhaleFollowing { whale_address, .. } => WalletFields {
            wallet_address: Some(whale_address.clone()),
            wallet_label: None,
            token_label: None,
        },
        SignalType::EliteWallet { wallet_address } => WalletFields {
            wallet_address: Some(wallet_address.clone()),
            wallet_label: None,
            token_label: None,
        },
        SignalType::InsiderWallet { wallet_address } => WalletFields {
            wallet_address: Some(wallet_address.clone()),
            wallet_label: None,
            token_label: None,
        },
        _ => WalletFields { wallet_address: None, wallet_label: None, token_label: None },
    }
}

/// What the search index holds about a signal.
#[derive(Debug)]
pub struct SearchRow {
    pub signal_id: String,
    pub detected_at: String,
    pub market_slug: String,
    pub market_title: Option<String>,
    pub wallet: WalletFields,
    pub source: String,
    pub signal_type: String,
}

/// The row of the search index for a signal.
pub fn search_row(signal: &MarketSignal) -> (r: SearchRow)
    ensures
        r.signal_id@ == signal.id@,
        r.detected_at@ == signal.detected_at@,
        r.market_slug@ == signal.market_slug@,
        text_view(r.market_title) == search_title(*signal),
        r.wallet == wallet_of(signal.signal_type),
        r.source@ == signal.source@,
        r.signal_type@ == signal.signal_type.name(),
{
    SearchRow {
        signal_id: signal.id.clone(),
        detected_at: signal.detected_at.clone(),
        market_slug: signal.market_slug.clone(),
        market_title: normalized_market_title_for_search(signal),
        wallet: wallet_fields(&signal.signal_type),
        source: signal.source.clone(),
        signal_type: signal.signal_type.as_str().to_owned(),
    }
}

/// What was found out about an order that makes its signal easier to find.
#[derive(Debug)]
pub struct ContextSearchFields {
    pub order_title: Option<String>,
    pub market_question: Option<String>,
    pub token_label: Option<String>,
    pub wallet_address: Option<String>,
    pub market_slug: Option<String>,
}

fn nonblank_option(t: &Option<String>) -> (r: Option<String>)
    ensures
        text_view(r) == match *t {
            Some(v) => nonblank(v@),
            None => None,
        },
{
    match t {
        Some(v) => nonblank_text(v.as_str()),
        None => None,
    }
}

/// The fields of the search index that follow from an order and its market: the market's
/// question, or its title where it has none.
pub fn context_search_fields(
    order: &SignalContextOrder,
    question: &Option<String>,
    title: &Option<String>,
) -> (r: ContextSearchFields)
    ensures
        text_view(r.order_title) == nonblank(order.title@),
        text_view(r.market_question) == match (*question, *title) {
            (Some(q), _) => nonblank(q@),
            (None, Some(t)) => nonblank(t@),
            (None, None) => None,
        },
        text_view(r.token_label) == match order.token_label {
            Some(l) => nonblank(l@),
            None => None,
        },
        text_view(r.wallet_address) == nonblank(order.user@),
        text_view(r.market_slug) == nonblank(order.market_slug@),
{
    let market_question = match question {
        Some(q) => nonblank_text(q.as_str()),
        None => nonblank_option(title),
    };
    ContextSearchFields {
        order_title: nonblank_text(order.title.as_str()),
        market_question,
        token_label: nonblank_option(&order.token_label),
        wallet_address: nonblank_text(order.user.as_str()),
        market_slug: nonblank_text(order.market_slug.as_str()),
    }
}

/// A number held between two others.
pub open spec fn clamped(n: int, low: int, high: int) -> int {
    if n < low {
        low
    } else if n > high {
        high
    } else {
        n
    }
}

fn clamp(n: usize, low: usize, high: usize) -> (r: usize)
    requires
        low <= high,
    ensures
        r == clamped(n as int, low as int, high as int),
{
    if n < low {
        low
    } else if n > high {
        high
    } else {
        n
    }
}

/// How many signals are indexed at first: none where some are already or there is none.
pub fn warm_limit(indexed: i64, total: i64, limit: usize) -> (r: usize)
    ensures
        r == if indexed > 0 || total <= 0 {
            0
        } else if total < limit {
            total as int
        } else {
            limit as int
        },
{
    if indexed > 0 || total <= 0 {
        return 0;
    }
    if (total as u64) < (limit as u64) {
        total as usize
    } else {
        limit
    }
}

/// How many signals are indexed when the database opens.
pub const WARM_LIMIT: usize = 2000;

/// How many signals are indexed when asked for: from one to five thousand.
pub fn ensure_search_warm(indexed: i64, total: i64, limit: usize) -> (r: usize)
    ensures
        r == if indexed > 0 || total <= 0 {
            0
        } else if total < clamped(limit as int, 1, 5000) {
            total as int
        } else {
            clamped(limit as int, 1, 5000)
        },
{
    let held: usize = clamp(limit, 1, 5000);
    warm_limit(indexed, total, held)
}

/// From where signals are read: the newest, those before an instant, or those behind a
/// signal of that instant too.
#[derive(Debug)]
pub enum SignalCursor {
    Newest,
    Before(String),
    After(String, String),
}

/// What the next step of filling the search index reads.
#[derive(Debug)]
pub enum BackfillStep {
    Done,
    Read(SignalCursor, usize),
}

/// Plans the next step of filling the search index, by what the metadata holds: whether it
/// is done, and the instant and the identity that it came to.
pub fn backfill_search_index_step(
    done: &Option<String>,
    detected_at: &Option<String>,
    id: &Option<String>,
    batch_size: usize,
) -> (r: BackfillStep)
    ensures
        match r {
            BackfillStep::Done => text_view(*done) == Some("1"@),
            BackfillStep::Read(c, n) => {
                &&& text_view(*done) != Some("1"@)
                &&& n == clamped(batch_size as int, 1, 5000)
                &&& match (*detected_at, *id) {
                    (None, _) => c is Newest,
                    (Some(d), None) => c matches SignalCursor::Before(x) && x@ == d@,
                    (Some(d), Some(i)) => c matches SignalCursor::After(x, y) && x@ == d@ && y@ == i@,
                }
            },
        },
{
    let held: usize = clamp(batch_size, 1, 5000);
    match done {
        Some(d) => {
            if same(d.as_str(), "1") {
                return BackfillStep::Done;
            }
        },
        None => {},
    }
    match (detected_at, id) {
        (None, _) => BackfillStep::Read(SignalCursor::Newest, held),
        (Some(d), i) => BackfillStep::Read(cursor_before(d.as_str(), i), held),
    }
}

/// Where reading goes on after a batch: behind its last signal; nowhere after an empty one.
pub fn cursor_after(batch: &Vec<MarketSignal>) -> (r: SignalCursor)
    ensures
        if batch.len() == 0 {
            r is Newest
        } else {
            r matches SignalCursor::After(d, i) && d@ == batch[batch.len() - 1].detected_at@ && i@
                == batch[batch.len() - 1].id@
        },
{
    if batch.len() == 0 {
        return SignalCursor::Newest;
    }
    let last = &batch[batch.len() - 1];
    SignalCursor::After(last.detected_at.clone(), last.id.clone())
}

/// Where reading starts that was asked for behind an instant, or behind a signal of it.
pub fn cursor_before(detected_at: &str, id: &Option<String>) -> (r: SignalCursor)
    ensures
        match *id {
            Some(i) => r matches SignalCursor::After(d, x) && d@ == detected_at@ && x@ == i@,
            None => r matches SignalCursor::Before(d) && d@ == detected_at@,
        },
{
    match id {
        Some(i) => SignalCursor::After(detected_at.to_string(), i.clone()),
        None => SignalCursor::Before(detected_at.to_string()),
    }
}

/// The condition, the order and the limit of the statement that reads from a cursor. The
/// texts of the cursor are bound in their order, and the limit behind them.
pub fn cursor_clause(cursor: &SignalCursor) -> (r: String)
    ensures
        r@ == match *cursor {
            SignalCursor::Newest => "ORDER BY detected_at DESC, id LIMIT ?1"@,
            SignalCursor::Before(_) => "WHERE detected_at < ?1 ORDER BY detected_at DESC, id LIMIT ?2"@,
            SignalCursor::After(_, _) =>
                "WHERE detected_at < ?1 OR (detected_at = ?1 AND id > ?2) ORDER BY detected_at DESC, id LIMIT ?3"@,
        },
{
    match cursor {
        SignalCursor::Newest => "ORDER BY detected_at DESC, id LIMIT ?1".to_string(),
        SignalCursor::Before(_) => "WHERE detected_at < ?1 ORDER BY detected_at DESC, id LIMIT ?2".to_string(),
        SignalCursor::After(_, _) =>
            "WHERE detected_at < ?1 OR (detected_at = ?1 AND id > ?2) ORDER BY detected_at DESC, id LIMIT ?3".to_string(),
    }
}

/// Whether a text stands before another: by the first character in which they differ, and
/// a text before those that go on from it.
pub open spec fn text_before(a: Seq<char>, b: Seq<char>) -> bool
    decreases a.len(),
{
    if b.len() == 0 {
        false
    } else if a.len() == 0 {
        true
    } else if a[0] != b[0] {
        (a[0] as int) < (b[0] as int)
    } else {
        text_before(a.skip(1), b.skip(1))
    }
}

/// Whether a signal is told before another: the newer first, and those of one instant by
/// their identities.
pub open spec fn told_before(a: MarketSignal, b: MarketSignal) -> bool {
    text_before(b.detected_at@, a.detected_at@) || (a.detected_at@ == b.detected_at@ && text_before(a.id@, b.id@))
}

/// Whether a signal meets the condition of a cursor.
pub open spec fn lies_behind(cursor: SignalCursor, signal: MarketSignal) -> bool {
    match cursor {
        SignalCursor::Newest => true,
        SignalCursor::Before(d) => text_before(signal.detected_at@, d@),
        SignalCursor::After(d, i) => text_before(signal.detected_at@, d@) || (signal.detected_at@ == d@
            && text_before(i@, signal.id@)),
    }
}

proof fn lemma_text_before_one_way(a: Seq<char>, b: Seq<char>)
    requires
        text_before(a, b),
    ensures
        !text_before(b, a),
    decreases a.len(),
{
    if a.len() > 0 && a[0] == b[0] {
        lemma_text_before_one_way(a.skip(1), b.skip(1));
    }
}

proof fn lemma_no_text_before_itself(a: Seq<char>)
    ensures
        !text_before(a, a),
{
    if text_before(a, a) {
        lemma_text_before_one_way(a, a);
    }
}

/// Pages follow one another without a gap and without a signal told twice: of signals in
/// their order, those behind the cursor of a page are the ones that come after it.
pub proof fn law_pages_go_on(signals: Seq<MarketSignal>, page: int, cursor: SignalCursor)
    requires
        forall|i: int, j: int| 0 <= i < j < signals.len() ==> told_before(#[trigger] signals[i], #[trigger] signals[j]),
        0 < page <= signals.len(),
        cursor matches SignalCursor::After(d, x) && d@ == signals[page - 1].detected_at@ && x@ == signals[page
            - 1].id@,
    ensures
        forall|i: int| 0 <= i < signals.len() ==> (lies_behind(cursor, #[trigger] signals[i]) <==> i >= page),
{
    let last = signals[page - 1];
    assert forall|i: int| 0 <= i < signals.len() implies (lies_behind(cursor, #[trigger] signals[i]) <==> i
        >= page) by {
        let s = signals[i];
        if i >= page {
            assert(told_before(last, s));
        } else if i < page - 1 {
            assert(told_before(s, last));
            if text_before(last.detected_at@, s.detected_at@) {
                lemma_text_before_one_way(last.detected_at@, s.detected_at@);
                lemma_no_text_before_itself(s.detected_at@);
            } else {
                lemma_text_before_one_way(s.id@, last.id@);
                lemma_no_text_before_itself(s.detected_at@);
            }
        } else {
            lemma_no_text_before_itself(s.detected_at@);
            lemma_no_text_before_itself(s.id@);
        }
    }
}

/// How many values a statement binds at most.
pub const MAX_VARS: usize = 900;

/// Where a chunk of identities that starts at `from` ends.
pub fn chunk_end(from: usize, len: usize) -> (r: usize)
    requires
        from <= len,
    ensures
        r == if len - from > MAX_VARS {
            from + MAX_VARS
        } else {
            len as int
        },
{
    if len - from > MAX_VARS {
        from + MAX_VARS
    } else {
        len
    }
}

/// So many question marks between commas.
pub open spec fn marks(n: nat) -> Seq<char>
    decreases n,
{
    if n == 0 {
        Seq::empty()
    } else if n == 1 {
        "?"@
    } else {
        marks((n - 1) as nat) + ",?"@
    }
}

/// The places of so many values in a statement.
pub fn placeholders(n: usize) -> (r: String)
    ensures
        r@ == marks(n as nat),
{
    let mut r = String::new();
    if n == 0 {
        assert(r@ =~= marks(0));
        return r;
    }
    r = "?".to_owned();
    let mut i: usize = 1;
    while i < n
        invariant
            1 <= i <= n,
            r@ == marks(i as nat),
        decreases n - i,
    {
        r = joined(r.as_str(), ",?");
        i = i + 1;
    }
    r
}

/// The statement that asks for what was found out about so many signals.
pub fn context_query(n: usize) -> (r: String)
    ensures
        r@ == "SELECT signal_id, context_version, context_json, enriched_at, status, error FROM signal_context WHERE signal_id IN ("@
            + marks(n as nat) + ")"@,
{
    let list = placeholders(n);
    let head = joined(
        "SELECT signal_id, context_version, context_json, enriched_at, status, error FROM signal_context WHERE signal_id IN (",
        list.as_str(),
    );
    joined(head.as_str(), ")")
}

/// What is written down of how far the search index has come.
#[derive(Debug)]
pub struct IndexCounts {
    pub total_signals: i64,
    /// None where the index does not exist.
    pub indexed_rows: Option<i64>,
    pub search_tables: i64,
    pub done: Option<String>,
    pub cursor_detected_at: Option<String>,
    pub cursor_id: Option<String>,
}

/// A count that may have come out negative.
pub open spec fn at_least_none(n: i64) -> int {
    if n < 0 {
        0
    } else {
        n as int
    }
}

fn count_of(n: i64) -> (r: usize)
    requires
        n <= usize::MAX,
    ensures
        r == at_least_none(n),
{
    if n < 0 {
        0
    } else {
        n as usize
    }
}

/// Says how far the search index has come.
pub fn get_search_index_status(c: IndexCounts) -> (r: SearchIndexStatus)
    requires
        c.total_signals <= usize::MAX,
        c.indexed_rows matches Some(n) ==> n <= usize::MAX,
    ensures
        r.schema_ready == (c.indexed_rows is Some && c.search_tables > 0),
        r.backfill_done == (text_view(c.done) == Some("1"@)),
        r.total_signals == at_least_none(c.total_signals),
        r.indexed_rows == match c.indexed_rows {
            Some(n) => at_least_none(n),
            None => 0,
        },
        r.cursor_detected_at == c.cursor_detected_at,
        r.cursor_id == c.cursor_id,
{
    let backfill_done = match &c.done {
        Some(d) => same(d.as_str(), "1"),
        None => false,
    };
    let (exists, rows) = match c.indexed_rows {
        Some(n) => (true, count_of(n)),
        None => (false, 0),
    };
    SearchIndexStatus {
        schema_ready: exists && c.search_tables > 0,
        backfill_done,
        total_signals: count_of(c.total_signals),
        indexed_rows: rows,
        cursor_detected_at: c.cursor_detected_at,
        cursor_id: c.cursor_id,
    }
}

/// Whether a confidence is high: 0.7 at least.
pub fn is_high_confidence(confidence: Scalar) -> (r: bool)
    ensures
        r == Scalar::Rank(R_0_7).spec_le(confidence),
{
    Scalar::Rank(R_0_7).le(confidence)
}

/// The search that is made: none for a blank query.
pub fn search_query(fts_query: &str) -> (r: Option<String>)
    ensures
        text_view(r) == nonblank(fts_query@),
{
    nonblank_text(fts_query)
}

/// How many decisions are read: from one to five hundred.
pub fn decision_limit(limit: usize) -> (r: usize)
    ensures
        r == clamped(limit as int, 1, 500),
{
    clamp(limit, 1, 500)
}

/// The market whose decisions are read.
pub fn decision_market(slug: &str) -> (r: String)
    ensures
        r@ == lowercase(trimmed(slug@)),
{
    let cut = trim(slug);
    to_lower(cut.as_str())
}

/// The decision whose answers are read, and how many from one to a hundred; none for a
/// blank identity.
pub fn model_record_query(decision_id: &str, limit: usize) -> (r: Option<(String, usize)>)
    ensures
        match r {
            Some((id, n)) => nonblank(decision_id@) == Some(id@) && n == clamped(limit as int, 1, 100),
            None => nonblank(decision_id@) is None,
        },
{
    match nonblank_text(decision_id) {
        Some(id) => Some((id, clamp(limit, 1, 100))),
        None => None,
    }
}

/// The first instant of today's use.
pub fn usage_day_start(now_ts: i64) -> (r: i64)
    ensures
        r == bucket_of(now_ts as int),
{
    day_bucket(now_ts)
}

/// How much the models were asked today.
pub fn get_vault_llm_usage_today(
    now_ts: i64,
    calls_today: i64,
    tokens_today: i64,
    per_market: Vec<(String, u32)>,
) -> (r: VaultLlmUsageStats)
    requires
        calls_today <= u32::MAX,
    ensures
        r.day_start_ts == bucket_of(now_ts as int),
        r.calls_today == at_least_none(calls_today),
        r.tokens_today == at_least_none(tokens_today),
        r.per_market_calls_today == per_market,
{
    let calls: u32 = if calls_today < 0 {
        0
    } else {
        calls_today as u32
    };
    let tokens: u64 = if tokens_today < 0 {
        0
    } else {
        tokens_today as u64
    };
    VaultLlmUsageStats {
        day_start_ts: usage_day_start(now_ts),
        calls_today: calls,
        tokens_today: tokens,
        per_market_calls_today: per_market,
    }
}

/// The key of an order that has none: its market, time, side and price.
pub open spec fn legacy_key(slug: Seq<char>, ts: int, side: Seq<char>, price: Seq<char>) -> Seq<char> {
    "api_"@ + slug + "_"@ + decimal(ts) + "_"@ + side + "_"@ + price
}

/// The keys of an order: the one it is stored under, the one that was made for it before,
/// and whether the latter is removed.
#[derive(Debug)]
pub struct OrderKeys {
    pub order_hash: String,
    pub legacy: String,
    pub replaces_legacy: bool,
}

/// The keys of an order: its own, or that of its transaction, or one made of its fields.
/// An order with a key of its own replaces what stands under the made one.
pub fn order_keys(
    order_hash: &str,
    tx_hash: &str,
    market_slug: &str,
    timestamp: i64,
    side: &str,
    price_text: &str,
) -> (r: OrderKeys)
    ensures
        r.legacy@ == legacy_key(market_slug@, timestamp as int, side@, price_text@),
        r.order_hash@ == if nonblank(order_hash@) is Some {
            order_hash@
        } else if nonblank(tx_hash@) is Some {
            "tx_"@ + tx_hash@
        } else {
            r.legacy@
        },
        r.replaces_legacy == (nonblank(order_hash@) is Some),
{
    let at = decimal_i64(timestamp);
    let a = joined("api_", market_slug);
    let b = joined(a.as_str(), "_");
    let c = joined(b.as_str(), at.as_str());
    let d = joined(c.as_str(), "_");
    let e = joined(d.as_str(), side);
    let f = joined(e.as_str(), "_");
    let legacy = joined(f.as_str(), price_text);
    let own = nonblank_text(order_hash).is_some();
    let key = if own {
        order_hash.to_owned()
    } else if nonblank_text(tx_hash).is_some() {
        joined("tx_", tx_hash)
    } else {
        legacy.clone()
    };
    OrderKeys { order_hash: key, legacy, replaces_legacy: own }
}

/// An order for a replay, from what the database holds of it: unknown texts are empty and
/// an unknown price is one half.
pub fn backtest_order(
    timestamp: i64,
    market_slug: Option<String>,
    side: Option<String>,
    outcome: Option<String>,
    price: Option<Scalar>,
) -> (r: DomeOrderForBacktest)
    ensures
        r.timestamp == timestamp,
        r.market_slug@ == text_or_empty(market_slug),
        r.side@ == text_or_empty(side),
        r.outcome@ == text_or_empty(outcome),
        r.price == match price {
            Some(p) => p,
            None => Scalar::Rank(HALF_RANK),
        },
{
    DomeOrderForBacktest {
        timestamp,
        market_slug: or_empty(market_slug),
        side: or_empty(side),
        outcome: or_empty(outcome),
        price: match price {
            Some(p) => p,
            None => Scalar::Rank(HALF_RANK),
        },
    }
}

/// A text, empty where there is none.
pub open spec fn text_or_empty(t: Option<String>) -> Seq<char> {
    match t {
        Some(s) => s@,
        None => Seq::empty(),
    }
}

fn or_empty(t: Option<String>) -> (r: String)
    ensures
        r@ == text_or_empty(t),
{
    match t {
        Some(s) => s,
        None => {
            let r = String::new();
            assert(r@ =~= Seq::<char>::empty());
            r
        },
    }
}

/// The market of a quarter of an hour.
pub fn updown_slug(asset: &str, window_start_ts: i64) -> (r: String)
    ensures
        r@ == ascii_lowercase(asset@) + "-updown-15m-"@ + decimal(window_start_ts as int),
{
    let lower = to_ascii_lower(asset);
    let head = joined(lower.as_str(), "-updown-15m-");
    let at = decimal_i64(window_start_ts);
    joined(head.as_str(), at.as_str())
}

/// A yes or no as the database holds it.
pub fn flag_column(b: Option<bool>) -> (r: Option<i64>)
    ensures
        r == match b {
            Some(x) => Some(
                if x {
                    1i64
                } else {
                    0i64
                },
            ),
            None => None,
        },
{
    match b {
        Some(x) => if x {
            Some(1)
        } else {
            Some(0)
        },
        None => None,
    }
}

/// A yes or no as the database gives it back.
pub fn column_flag(v: Option<i64>) -> (r: Option<bool>)
    ensures
        r == match v {
            Some(x) => Some(x != 0),
            None => None,
        },
{
    match v {
        Some(x) => Some(x != 0),
        None => None,
    }
}

/// How many windows are read: from one to ten thousand.
pub fn window_limit(limit: usize) -> (r: usize)
    ensures
        r == clamped(limit as int, 1, 10_000),
{
    clamp(limit, 1, 10_000)
}

/// The asset whose windows are read.
pub fn window_asset(asset: &Option<String>) -> (r: Option<String>)
    ensures
        text_view(r) == match *asset {
            Some(a) => Some(ascii_uppercase(a@)),
            None => None,
        },
{
    match asset {
        Some(a) => Some(to_ascii_upper(a.as_str())),
        None => None,
    }
}

/// The wallet whose orders are read.
pub fn wallet_key(wallet: &str) -> (r: String)
    ensures
        r@ == lowercase(wallet@),
{
    to_lower(wallet)
}

/// What is written as a yes or no is read back.
pub proof fn law_flags_are_read_back(b: Option<bool>)
    ensures
        ({
            let column = match b {
                Some(x) => Some(
                    if x {
                        1i64
                    } else {
                        0i64
                    },
                ),
                None => None,
            };
            b == match column {
                Some(v) => Some(v != 0),
                None => None,
            }
        }),
{
}

/// An order without a key of its own never takes the place of one that has it: the keys
/// that are made start otherwise than by a transaction's.
pub proof fn law_made_keys_differ(slug: Seq<char>, ts: int, side: Seq<char>, price: Seq<char>, tx: Seq<char>)
    ensures
        legacy_key(slug, ts, side, price) != "tx_"@ + tx,
{
    reveal_strlit("api_");
    reveal_strlit("tx_");
    let a = legacy_key(slug, ts, side, price);
    let b = "tx_"@ + tx;
    assert(a[0] == 'a');
    assert(b[0] == 't');
}

/// Reading the identities in chunks passes over none: each chunk ends further on, and the
/// last at the end.
pub proof fn law_chunks_go_on(from: int, len: int)
    requires
        0 <= from < len,
    ensures
        from < (if len - from > MAX_VARS {
            from + MAX_VARS
        } else {
            len
        }) <= len,
{
}

/// A title that is kept is not blank, and trimming it changes nothing.
pub proof fn law_kept_texts_are_trimmed(t: Seq<char>)
    ensures
        nonblank(t) matches Some(x) ==> x.len() > 0 && nonblank(x) == Some(x),
{
    lemma_trimmed_twice(t);
}

/// A text that is kept has no white space around it, and a blank one is not kept; so it is
/// with the metadata, with a search and with an identity.
pub proof fn law_blank_texts_are_dropped(
    t: &str,
    a: Option<String>,
    b: Option<String>,
    stored: Option<String>,
    c: Option<String>,
)
    requires
        call_ensures(nonblank_text, (t,), a),
        call_ensures(search_query, (t,), b),
        call_ensures(metadata_value, (&stored,), c),
    ensures
        a is Some <==> trimmed(t@).len() > 0,
        a is Some ==> a->0@ == trimmed(t@),
        b is Some <==> a is Some,
        b is Some ==> b->0@ == a->0@,
        c is Some <==> stored is Some && trimmed(stored->0@).len() > 0,
        c is Some ==> c->0@ == trimmed(stored->0@),
{
}

/// A signal is found by its title without the white space around it; a headline about a
/// wallet by the title that stands in it in quotes, where one does. A blank title is none.
pub proof fn law_signal_is_found_by_its_title(s: MarketSignal, r: Option<String>, raw: &str, quoted: Option<String>)
    requires
        call_ensures(normalized_market_title_for_search, (&s,), r),
        raw@ == trimmed(s.details.market_title@),
        call_ensures(extract_quoted_market_title, (raw,), quoted),
    ensures
        raw@.len() == 0 <==> r is None,
        !(s.signal_type is TrackedWalletEntry) && raw@.len() > 0 ==> r->0@ == raw@,
        quoted is None && raw@.len() > 0 ==> r->0@ == raw@,
        ({
            let lower = ascii_lowercase(raw@);
            let headline = occurs_at(lower, "tracked wallet entry"@, 0) || occurs_at(lower, "insider entry"@, 0)
                || occurs_at(lower, "world class trader entry"@, 0);
            &&& headline && s.signal_type is TrackedWalletEntry && quoted is Some && raw@.len() > 0 ==> r->0@ == quoted->0@
            &&& !headline && raw@.len() > 0 ==> r->0@ == raw@
        }),
{
}

/// What stands in quotes in a headline stands there behind a phrase, and is not blank.
pub proof fn law_quoted_titles_stand_in_quotes(s: &str, r: Option<String>)
    requires
        call_ensures(extract_quoted_market_title, (s,), r),
    ensures
        r is Some ==> has_text(ascii_lowercase(trimmed(s@)), " on '"@) || has_text(
            ascii_lowercase(trimmed(s@)),
            " on \""@,
        ),
        r is Some ==> r->0@.len() > 0,
{
}

/// The row of a signal holds what the signal does, and the wallet where its kind knows one.
pub proof fn law_row_holds_its_signal(s: MarketSignal, r: SearchRow)
    requires
        call_ensures(search_row, (&s,), r),
    ensures
        r.signal_id@ == s.id@ && r.detected_at@ == s.detected_at@ && r.market_slug@ == s.market_slug@ && r.source@
            == s.source@,
        s.signal_type is TrackedWalletEntry ==> r.wallet.wallet_address == Some(
            s.signal_type->TrackedWalletEntry_wallet_address,
        ) && r.wallet.wallet_label == Some(s.signal_type->TrackedWalletEntry_wallet_label) && r.wallet.token_label
            == s.signal_type->TrackedWalletEntry_token_label,
        s.signal_type is WhaleFollowing ==> r.wallet.wallet_address == Some(s.signal_type->WhaleFollowing_whale_address)
            && r.wallet.wallet_label is None,
        s.signal_type is EliteWallet ==> r.wallet.wallet_address == Some(s.signal_type->EliteWallet_wallet_address)
            && r.wallet.wallet_label is None,
        s.signal_type is InsiderWallet ==> r.wallet.wallet_address == Some(s.signal_type->InsiderWallet_wallet_address)
            && r.wallet.wallet_label is None,
        !(s.signal_type is TrackedWalletEntry) && !(s.signal_type is WhaleFollowing) && !(s.signal_type is EliteWallet) && !(
        s.signal_type is InsiderWallet) ==> r.wallet.wallet_address is None && r.wallet.wallet_label is None
            && r.wallet.token_label is None,
{
}

/// The question of a market goes before its title; blank texts are none.
pub proof fn law_question_goes_before_title(
    order: SignalContextOrder,
    question: Option<String>,
    title: Option<String>,
    r: ContextSearchFields,
)
    requires
        call_ensures(context_search_fields, (&order, &question, &title), r),
    ensures
        question is Some && trimmed(question->0@).len() > 0 ==> text_view(r.market_question) == Some(
            trimmed(question->0@),
        ),
        question is Some && trimmed(question->0@).len() == 0 ==> r.market_question is None,
        question is None && title is Some && trimmed(title->0@).len() > 0 ==> text_view(r.market_question) == Some(
            trimmed(title->0@),
        ),
        question is None && title is None ==> r.market_question is None,
        trimmed(order.title@).len() > 0 ==> text_view(r.order_title) == Some(trimmed(order.title@)),
        trimmed(order.user@).len() > 0 ==> text_view(r.wallet_address) == Some(trimmed(order.user@)),
        trimmed(order.market_slug@).len() > 0 ==> text_view(r.market_slug) == Some(trimmed(order.market_slug@)),
        order.token_label is None ==> r.token_label is None,
{
}

/// An index that is empty is filled with as many signals as there are, up to a limit; a full
/// one is left.
pub proof fn law_empty_index_is_filled(indexed: i64, total: i64, limit: usize, a: usize, b: usize)
    requires
        call_ensures(warm_limit, (indexed, total, limit), a),
        call_ensures(ensure_search_warm, (indexed, total, limit), b),
    ensures
        indexed > 0 || total <= 0 ==> a == 0 && b == 0,
        a <= limit && b <= 5000,
        total > 0 ==> a <= total && b <= total,
        indexed <= 0 && total > 0 ==> a == total || a == limit,
        indexed <= 0 && total > 0 && limit > 0 ==> b >= 1,
        indexed <= 0 && total > 0 && 1 <= limit <= 5000 ==> b == a,
{
}

/// Filling goes on from where it came to, in steps of one to five thousand, until it is done.
pub proof fn law_filling_goes_on(
    done: Option<String>,
    at: Option<String>,
    id: Option<String>,
    batch: usize,
    r: BackfillStep,
)
    requires
        call_ensures(backfill_search_index_step, (&done, &at, &id, batch), r),
    ensures
        r is Done <==> done is Some && done->0@ == "1"@,
        r is Read ==> 1 <= r->1 <= 5000 && (1 <= batch <= 5000 ==> r->1 == batch),
        r is Read && batch == 0 ==> r->1 == 1,
        r is Read && batch > 5000 ==> r->1 == 5000,
        r is Read && at is None ==> r->0 is Newest,
        r is Read && at is Some && id is None ==> r->0 is Before && r->0->Before_0@ == at->0@,
        r is Read && at is Some && id is Some ==> r->0 is After && r->0->After_0@ == at->0@ && r->0->After_1@ == id->0@,
{
}

/// Reading goes on behind the last signal of a batch.
pub proof fn law_reading_goes_on_behind_the_last(
    batch: Vec<MarketSignal>,
    r: SignalCursor,
    at: &str,
    id: Option<String>,
    s: SignalCursor,
)
    requires
        call_ensures(cursor_after, (&batch,), r),
        call_ensures(cursor_before, (at, &id), s),
    ensures
        r is Newest <==> batch.len() == 0,
        batch.len() > 0 ==> r is After && r->After_0@ == batch@.last().detected_at@ && r->After_1@ == batch@.last().id@,
        id is Some ==> s is After && s->After_0@ == at@ && s->After_1@ == id->0@,
        id is None ==> s is Before && s->Before_0@ == at@,
{
}

/// A chunk holds nine hundred identities, or what is left.
pub proof fn law_chunks_fit_a_statement(from: usize, len: usize, r: usize)
    requires
        from <= len,
        call_ensures(chunk_end, (from, len), r),
    ensures
        from <= r <= len,
        r - from <= 900,
        r == len || r == from + 900,
        from < len ==> r > from,
{
}

/// A statement has a mark for each value, with a comma between any two.
pub proof fn law_each_value_has_its_mark(n: usize, r: String, q: String)
    requires
        call_ensures(placeholders, (n,), r),
        call_ensures(context_query, (n,), q),
    ensures
        n == 0 ==> r@.len() == 0,
        n > 0 ==> r@.len() == 2 * n - 1,
        forall|i: int| 0 <= i < r@.len() ==> #[trigger] r@[i] == if i % 2 == 0 {
            '?'
        } else {
            ','
        },
{
    lemma_marks(n as nat);
}

proof fn lemma_marks(n: nat)
    ensures
        n == 0 ==> marks(n).len() == 0,
        n > 0 ==> marks(n).len() == 2 * n - 1,
        forall|i: int| 0 <= i < marks(n).len() ==> #[trigger] marks(n)[i] == if i % 2 == 0 {
            '?'
        } else {
            ','
        },
    decreases n,
{
    reveal_strlit("?");
    reveal_strlit(",?");
    if n > 1 {
        let before = marks((n - 1) as nat);
        lemma_marks((n - 1) as nat);
        assert(marks(n) == before + ",?"@);
        assert forall|i: int| 0 <= i < marks(n).len() implies #[trigger] marks(n)[i] == if i % 2 == 0 {
            '?'
        } else {
            ','
        } by {
            if i < before.len() {
                assert(marks(n)[i] == before[i]);
            } else {
                assert(marks(n)[i] == ",?"@[i - before.len()]);
            }
        }
    }
}

/// The index is ready where it exists and its tables do; counts are never below none.
pub proof fn law_index_tells_how_far_it_came(c: IndexCounts, r: SearchIndexStatus)
    requires
        call_ensures(get_search_index_status, (c,), r),
    ensures
        r.schema_ready <==> c.indexed_rows is Some && c.search_tables > 0,
        r.backfill_done <==> c.done is Some && c.done->0@ == "1"@,
        c.total_signals >= 0 ==> r.total_signals == c.total_signals,
        c.total_signals < 0 ==> r.total_signals == 0,
        c.indexed_rows is Some && c.indexed_rows->0 >= 0 ==> r.indexed_rows == c.indexed_rows->0,
        c.indexed_rows is None ==> r.indexed_rows == 0,
        r.cursor_detected_at == c.cursor_detected_at && r.cursor_id == c.cursor_id,
{
}

/// What is read is held between its bounds: a confidence is high from seven tenths on;
/// decisions up to five hundred, answers up to a hundred, windows up to ten thousand.
pub proof fn law_readings_have_their_bounds(
    x: Scalar,
    high: bool,
    limit: usize,
    decisions: usize,
    windows: usize,
    id: &str,
    answers: Option<(String, usize)>,
)
    requires
        call_ensures(is_high_confidence, (x,), high),
        call_ensures(decision_limit, (limit,), decisions),
        call_ensures(window_limit, (limit,), windows),
        call_ensures(model_record_query, (id, limit), answers),
    ensures
        high <==> Scalar::Rank(R_0_7).spec_le(x),
        1 <= decisions <= 500 && (1 <= limit <= 500 ==> decisions == limit),
        1 <= windows <= 10_000 && (1 <= limit <= 10_000 ==> windows == limit),
        limit > 500 ==> decisions == 500,
        limit > 10_000 ==> windows == 10_000,
        answers is Some <==> trimmed(id@).len() > 0,
        answers is Some ==> (answers->0).0@ == trimmed(id@) && 1 <= (answers->0).1 <= 100,
        answers is Some && 1 <= limit <= 100 ==> (answers->0).1 == limit,
        answers is Some && limit > 100 ==> (answers->0).1 == 100,
{
}

/// Markets, wallets and assets are read by their names as they are stored.
pub proof fn law_names_are_read_as_stored(
    slug: &str,
    m: String,
    w: String,
    asset: Option<String>,
    a: Option<String>,
    at: i64,
    u: String,
)
    requires
        call_ensures(decision_market, (slug,), m),
        call_ensures(wallet_key, (slug,), w),
        call_ensures(window_asset, (&asset,), a),
        call_ensures(updown_slug, (slug, at), u),
    ensures
        m@ == lowercase(trimmed(slug@)),
        w@ == lowercase(slug@),
        a is Some <==> asset is Some,
        a is Some ==> a->0@ == ascii_uppercase(asset->0@),
        u@ == ascii_lowercase(slug@) + "-updown-15m-"@ + decimal(at as int),
{
}

/// Today's use is counted from the start of the day and never below none.
pub proof fn law_use_is_counted_by_day(
    now: i64,
    calls: i64,
    tokens: i64,
    per_market: Vec<(String, u32)>,
    r: VaultLlmUsageStats,
    start: i64,
)
    requires
        call_ensures(get_vault_llm_usage_today, (now, calls, tokens, per_market), r),
        call_ensures(usage_day_start, (now,), start),
        0 <= now,
        calls <= u32::MAX,
    ensures
        start <= now < start + 86_400 && start % 86_400 == 0,
        r.day_start_ts == start,
        calls >= 0 ==> r.calls_today == calls,
        calls < 0 ==> r.calls_today == 0,
        tokens >= 0 ==> r.tokens_today == tokens,
        tokens < 0 ==> r.tokens_today == 0,
        r.per_market_calls_today == per_market,
{
}

/// An order stands under its own key, else under that of its transaction, else under one made
/// of its fields; only one with its own key replaces the made one.
pub proof fn law_order_stands_under_its_key(
    hash: &str,
    tx: &str,
    slug: &str,
    at: i64,
    side: &str,
    price: &str,
    r: OrderKeys,
)
    requires
        call_ensures(order_keys, (hash, tx, slug, at, side, price), r),
    ensures
        ({
            let own = trimmed(hash@).len() > 0;
            let paid = trimmed(tx@).len() > 0;
            &&& own ==> r.order_hash@ == hash@ && r.replaces_legacy
            &&& !own && paid ==> r.order_hash@ == "tx_"@ + tx@
            &&& !own && !paid ==> r.order_hash@ == r.legacy@
            &&& !own ==> !r.replaces_legacy
            &&& r.legacy@ == "api_"@ + slug@ + "_"@ + decimal(at as int) + "_"@ + side@ + "_"@ + price@
        }),
{
}

/// An order for a replay is what the database holds of it; without a price it is at one half.
pub proof fn law_replayed_order_is_as_stored(
    at: i64,
    slug: Option<String>,
    side: Option<String>,
    outcome: Option<String>,
    price: Option<Scalar>,
    r: DomeOrderForBacktest,
)
    requires
        call_ensures(backtest_order, (at, slug, side, outcome, price), r),
    ensures
        r.timestamp == at,
        slug is Some ==> r.market_slug@ == slug->0@,
        side is Some ==> r.side@ == side->0@,
        outcome is Some ==> r.outcome@ == outcome->0@,
        slug is None ==> r.market_slug@.len() == 0,
        side is None ==> r.side@.len() == 0,
        outcome is None ==> r.outcome@.len() == 0,
        price is Some ==> r.price == price->0,
        price is None ==> r.price == Scalar::Rank(HALF_RANK),
{
}

/// A yes or no that is written is read back as it was.
pub proof fn law_written_flags_are_read(b: Option<bool>, c: Option<i64>, r: Option<bool>, v: Option<i64>, s: Option<bool>)
    requires
        call_ensures(flag_column, (b,), c),
        call_ensures(column_flag, (c,), r),
        call_ensures(column_flag, (v,), s),
    ensures
        r == b,
        b == Some(true) ==> c == Some(1i64),
        v is Some ==> s == Some(v->0 != 0),
        v is None ==> s is None,
{
}

/// The wallet of a kind is the same wherever it is asked for, and pages are read newest first
/// from their cursor on.
pub proof fn law_pages_are_read_newest_first(c: SignalCursor, r: String, t: SignalType, w: WalletFields)
    requires
        call_ensures(cursor_clause, (&c,), r),
        call_ensures(wallet_fields, (&t,), w),
    ensures
        c is Newest ==> r@ == "ORDER BY detected_at DESC, id LIMIT ?1"@,
        c is Before ==> r@ == "WHERE detected_at < ?1 ORDER BY detected_at DESC, id LIMIT ?2"@,
        c is After ==> r@
            == "WHERE detected_at < ?1 OR (detected_at = ?1 AND id > ?2) ORDER BY detected_at DESC, id LIMIT ?3"@,
        w.wallet_address is Some <==> t is TrackedWalletEntry || t is WhaleFollowing || t is EliteWallet || t is InsiderWallet,
        w.wallet_label is Some <==> t is TrackedWalletEntry,
{
}

} // verus!
