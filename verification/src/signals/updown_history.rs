//! The quarter-hour windows of assets, one after the other.
use crate::base::clock::{div_toward_zero, toward_zero};
use crate::base::table::Table;
use vstd::prelude::*;

verus! {

/// What a tick means for an asset.
#[derive(Clone, Copy, Debug, PartialEq, Eq, Structural)]
pub enum WindowStep {
    /// The first window begins.
    Start { start: i64, end: i64 },
    /// The last window is over and another one begins.
    Roll { start: i64, end: i64 },
    Stay,
}

/// The ends of the windows that are open, by asset.
pub struct UpDown15mHistory {
    pub last_window_end: Table<i64>,
}

/// The start of the window that holds an instant.
pub open spec fn history_start(now: int) -> int {
    toward_zero(now, 900) * 900
}

impl UpDown15mHistory {
    pub fn new() -> (r: UpDown15mHistory)
        ensures
            r.last_window_end@ == Map::<Seq<char>, i64>::empty(),
    {
        UpDown15mHistory { last_window_end: Table::new() }
    }

    /// The end of the window of an asset that is open, zero where none is.
    pub open spec fn open_end(self, asset: Seq<char>) -> i64 {
        if self.last_window_end@.contains_key(asset) {
            self.last_window_end@[asset]
        } else {
            0
        }
    }

    /// What an instant means for an asset.
    pub open spec fn step_at(self, asset: Seq<char>, now: int) -> WindowStep {
        let start = history_start(now) as i64;
        let end = (history_start(now) + 900) as i64;
        if self.open_end(asset) == 0 {
            WindowStep::Start { start, end }
        } else if self.open_end(asset) != end {
            WindowStep::Roll { start, end }
        } else {
            WindowStep::Stay
        }
    }

    /// Takes a tick in for an asset.
    pub fn tick(&mut self, asset: &str, now: i64) -> (r: WindowStep)
        requires
            now <= i64::MAX - 900,
        ensures
            r == old(self).step_at(asset@, now as int),
            final(self).last_window_end@ == if r is Stay {
                old(self).last_window_end@
            } else {
                old(self).last_window_end@.insert(asset@, (history_start(now as int) + 900) as i64)
            },
    {
        let q: i64 = div_toward_zero(now, 900);
        proof {
            lemma_history_start(now as int);
        }
        let start: i64 = q * 900;
        let end: i64 = start + 900;
        let prev: i64 = match self.last_window_end.get(asset) {
            Some(e) => *e,
            None => 0,
        };
        if prev == 0 {
            self.last_window_end.insert(asset.to_owned(), end);
            return WindowStep::Start { start, end };
        }
        if end != prev {
            self.last_window_end.insert(asset.to_owned(), end);
            return WindowStep::Roll { start, end };
        }
        WindowStep::Stay
    }
}

/// The prices that a window has: at its start and at its end, by both sources.
#[derive(Clone, Copy, Debug, PartialEq, Eq, Structural)]
pub struct WindowPrices {
    pub chainlink_start: bool,
    pub chainlink_end: bool,
    pub binance_start: bool,
    pub binance_end: bool,
}

/// Whether a window that is over is worth keeping: one of the sources has both prices.
pub fn worth_keeping(p: &WindowPrices) -> (r: bool)
    ensures
        r == ((p.chainlink_start && p.chainlink_end) || (p.binance_start && p.binance_end)),
{
    (p.chainlink_start && p.chainlink_end) || (p.binance_start && p.binance_end)
}

proof fn lemma_history_start(now: int)
    ensures
        now >= 0 ==> 0 <= history_start(now) <= now,
        now < 0 ==> now <= history_start(now) <= 0,
{
}

/// From the epoch on, a window is opened once: the next tick in the same window changes
/// nothing.
pub proof fn law_window_opens_once(
    before: UpDown15mHistory,
    after: UpDown15mHistory,
    asset: Seq<char>,
    now: int,
    later: int,
)
    requires
        0 <= now <= later <= i64::MAX - 900,
        history_start(now) == history_start(later),
        after.last_window_end@ == before.last_window_end@.insert(
            asset,
            (history_start(now) + 900) as i64,
        ),
    ensures
        after.step_at(asset, later) is Stay,
{
    lemma_history_start(now);
}

/// A tick opens the window that holds it: the first of an asset starts, another one rolls,
/// and the open one stays. No other asset is touched.
pub proof fn law_tick_opens_the_window_that_holds_it(
    h: &mut UpDown15mHistory,
    asset: &str,
    now: i64,
    r: WindowStep,
    other: Seq<char>,
)
    requires
        0 <= now <= i64::MAX - 900,
        call_ensures(UpDown15mHistory::tick, (h, asset, now), r),
        other != asset@,
    ensures
        ({
            let start = now - now % 900;
            let known = old(h).last_window_end@.contains_key(asset@) && old(h).last_window_end@[asset@] != 0;
            let end = old(h).last_window_end@[asset@];
            &&& r is Start <==> !known
            &&& r is Stay <==> known && end == start + 900
            &&& r is Roll <==> known && end != start + 900
            &&& r is Start ==> r->Start_start == start && r->Start_end == start + 900
            &&& r is Roll ==> r->Roll_start == start && r->Roll_end == start + 900
            &&& final(h).last_window_end@.contains_key(asset@) && final(h).last_window_end@[asset@] == start + 900
            &&& final(h).last_window_end@.contains_key(other) <==> old(h).last_window_end@.contains_key(other)
            &&& old(h).last_window_end@.contains_key(other) ==> final(h).last_window_end@[other] == old(h).last_window_end@[other]
        }),
{
}

/// A window is kept where one source has both of its prices.
pub proof fn law_kept_windows_have_both_prices(p: WindowPrices, r: bool)
    requires
        call_ensures(worth_keeping, (&p,), r),
    ensures
        p.chainlink_start && p.chainlink_end ==> r,
        p.binance_start && p.binance_end ==> r,
        r ==> (p.chainlink_start || p.binance_start) && (p.chainlink_end || p.binance_end),
        p.chainlink_start && p.binance_end && !p.chainlink_end && !p.binance_start ==> !r,
        p.binance_start && p.chainlink_end && !p.binance_end && !p.chainlink_start ==> !r,
{
}

} // verus!
