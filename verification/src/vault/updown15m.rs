//! The quarter-hour markets on whether a price goes up or down.
use crate::base::text::{decimal, decimal_i64, joined, same};
use vstd::prelude::*;

verus! {

/// The length of a market's window in seconds.
pub const WINDOW_SECS: i64 = 900;

/// What a market is about.
#[derive(Clone, Copy, Debug, PartialEq, Eq, Structural)]
pub enum UpDownAsset {
    Btc,
    Eth,
    Sol,
    Xrp,
}

/// A market and its window.
#[derive(Clone, Copy, Debug, PartialEq, Eq, Structural)]
pub struct UpDown15mMarket {
    pub asset: UpDownAsset,
    pub start_ts: i64,
    pub end_ts: i64,
}

impl UpDownAsset {
    /// The name that market slugs use.
    pub open spec fn name(self) -> Seq<char> {
        match self {
            UpDownAsset::Btc => "btc"@,
            UpDownAsset::Eth => "eth"@,
            UpDownAsset::Sol => "sol"@,
            UpDownAsset::Xrp => "xrp"@,
        }
    }

    /// The name that the price feed uses.
    pub open spec fn symbol(self) -> Seq<char> {
        match self {
            UpDownAsset::Btc => "BTCUSDT"@,
            UpDownAsset::Eth => "ETHUSDT"@,
            UpDownAsset::Sol => "SOLUSDT"@,
            UpDownAsset::Xrp => "XRPUSDT"@,
        }
    }

    pub fn as_str(self) -> (r: &'static str)
        ensures
            r@ == self.name(),
    {
        match self {
            UpDownAsset::Btc => "btc",
            UpDownAsset::Eth => "eth",
            UpDownAsset::Sol => "sol",
            UpDownAsset::Xrp => "xrp",
        }
    }

    pub fn binance_symbol(self) -> (r: &'static str)
        ensures
            r@ == self.symbol(),
    {
        match self {
            UpDownAsset::Btc => "BTCUSDT",
            UpDownAsset::Eth => "ETHUSDT",
            UpDownAsset::Sol => "SOLUSDT",
            UpDownAsset::Xrp => "XRPUSDT",
        }
    }

    /// The asset with a symbol of the price feed.
    pub fn from_symbol(symbol: &str) -> (r: Option<UpDownAsset>)
        ensures
            match r {
                Some(found) => found.symbol() == symbol@,
                None => forall|a: UpDownAsset| (#[trigger] a.symbol()) != symbol@,
            },
    {
        if same(symbol, "BTCUSDT") {
            Some(UpDownAsset::Btc)
        } else if same(symbol, "ETHUSDT") {
            Some(UpDownAsset::Eth)
        } else if same(symbol, "SOLUSDT") {
            Some(UpDownAsset::Sol)
        } else if same(symbol, "XRPUSDT") {
            Some(UpDownAsset::Xrp)
        } else {
            None
        }
    }
}

/// The assets have different symbols.
pub proof fn lemma_symbols_differ(a: UpDownAsset, b: UpDownAsset)
    requires
        a.symbol() == b.symbol(),
    ensures
        a == b,
{
    reveal_strlit("BTCUSDT");
    reveal_strlit("ETHUSDT");
    reveal_strlit("SOLUSDT");
    reveal_strlit("XRPUSDT");
    assert("BTCUSDT"@[0] == 'B' && "ETHUSDT"@[0] == 'E' && "SOLUSDT"@[0] == 'S' && "XRPUSDT"@[0] == 'X');
}

/// The multiple of a window's length that lies next to `now` on the side of zero.
pub open spec fn window_start_of(now: int) -> int {
    if now >= 0 {
        now - now % 900
    } else {
        now + (-now) % 900
    }
}

/// The start of the window that holds `now`.
pub fn window_start(now: i64) -> (r: i64)
    ensures
        r == window_start_of(now as int),
{
    if now >= 0 {
        now - now % WINDOW_SECS
    } else {
        let m: i128 = -(now as i128);
        (now as i128 + m % 900) as i64
    }
}

/// The slug of the market on an asset whose window starts at `start`.
pub open spec fn slug_of(asset: Seq<char>, start: int) -> Seq<char> {
    asset + "-updown-15m-"@ + decimal(start)
}

/// The slug of the market on an asset whose window starts at `start_ts`.
pub fn market_slug(asset: &str, start_ts: i64) -> (r: String)
    ensures
        r@ == slug_of(asset@, start_ts as int),
{
    let head = joined(asset, "-updown-15m-");
    let n = decimal_i64(start_ts);
    joined(head.as_str(), n.as_str())
}

/// From the epoch on, a window holds the instant for which it was computed, and
/// the windows of two instants are the same or a window's length apart at least.
pub proof fn law_window_holds_instant(now: int, other: int)
    requires
        0 <= now <= other,
    ensures
        window_start_of(now) <= now < window_start_of(now) + 900,
        window_start_of(now) % 900 == 0,
        window_start_of(window_start_of(now)) == window_start_of(now),
        window_start_of(now) == window_start_of(other) || window_start_of(now) + 900
            <= window_start_of(other),
{
}

/// Each asset has its own name and its own symbol, and a symbol finds its asset.
pub proof fn law_symbols_find_their_assets(symbol: &str, r: Option<UpDownAsset>, a: UpDownAsset, name: &str, feed: &str)
    requires
        call_ensures(UpDownAsset::from_symbol, (symbol,), r),
        call_ensures(UpDownAsset::as_str, (a,), name),
        call_ensures(UpDownAsset::binance_symbol, (a,), feed),
    ensures
        symbol@ == "BTCUSDT"@ <==> r == Some(UpDownAsset::Btc),
        symbol@ == "ETHUSDT"@ <==> r == Some(UpDownAsset::Eth),
        symbol@ == "SOLUSDT"@ <==> r == Some(UpDownAsset::Sol),
        symbol@ == "XRPUSDT"@ <==> r == Some(UpDownAsset::Xrp),
        symbol@ == feed@ ==> r == Some(a),
        a == UpDownAsset::Btc <==> name@ == "btc"@,
        a == UpDownAsset::Eth <==> name@ == "eth"@,
        a == UpDownAsset::Sol <==> name@ == "sol"@,
        a == UpDownAsset::Xrp <==> name@ == "xrp"@,
{
    reveal_strlit("BTCUSDT");
    reveal_strlit("ETHUSDT");
    reveal_strlit("SOLUSDT");
    reveal_strlit("XRPUSDT");
    reveal_strlit("btc");
    reveal_strlit("eth");
    reveal_strlit("sol");
    reveal_strlit("xrp");
    assert("BTCUSDT"@[0] == 'B' && "ETHUSDT"@[0] == 'E' && "SOLUSDT"@[0] == 'S' && "XRPUSDT"@[0] == 'X');
    assert("btc"@[0] == 'b' && "eth"@[0] == 'e' && "sol"@[0] == 's' && "xrp"@[0] == 'x');
    assert(UpDownAsset::Btc.symbol() == "BTCUSDT"@);
    assert(UpDownAsset::Eth.symbol() == "ETHUSDT"@);
    assert(UpDownAsset::Sol.symbol() == "SOLUSDT"@);
    assert(UpDownAsset::Xrp.symbol() == "XRPUSDT"@);
    assert(a.symbol() == feed@);
}

/// A window starts at a quarter of an hour, no later than the instant that it was computed
/// for and less than a quarter of an hour before it.
pub proof fn law_window_starts_at_a_quarter(now: i64, start: i64)
    requires
        now >= 0,
        call_ensures(window_start, (now,), start),
    ensures
        start % 900 == 0,
        start <= now < start + 900,
{
}

/// The slug of a market names its asset, the kind of market and the second at which its
/// window starts.
pub proof fn law_slug_names_asset_and_start(asset: &str, start_ts: i64, slug: String)
    requires
        call_ensures(market_slug, (asset, start_ts), slug),
    ensures
        slug@ == asset@ + "-updown-15m-"@ + decimal(start_ts as int),
{
}

} // verus!
