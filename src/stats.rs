use vstd::prelude::*;
use crate::history::{surviving, surviving_histories, FetchError, StockHistory};
use crate::signals::{
    seq_max, seq_min, relative_change, window_mean, Fraction, MaxPrice, MinPrice, PriceDiff,
    WindowedSMA,
};

verus! {

/// The number of closing prices the trailing moving average spans.
pub const AVERAGE_WINDOW: usize = 30;

/// The summary of one symbol's closing prices.
#[derive(Debug)]
pub struct StockStats {
    pub symbol: String,
    pub last_price: i64,
    pub pct_change: Fraction,
    pub period_min: i64,
    pub period_max: i64,
    pub thirty_day_avg: Fraction,
}

/// The trailing moving average of a series: the mean of its last
/// `AVERAGE_WINDOW` prices, or zero when it is shorter than that.
pub open spec fn trailing_average(closes: Seq<i64>) -> Fraction {
    if closes.len() >= AVERAGE_WINDOW {
        window_mean(closes, AVERAGE_WINDOW as nat, closes.len() - AVERAGE_WINDOW)
    } else {
        Fraction { num: 0, den: 1 }
    }
}

/// What the statistics of `symbol` over the non-empty series `closes` are.
pub open spec fn stats_of(r: StockStats, symbol: String, closes: Seq<i64>) -> bool {
    &&& r.symbol == symbol
    &&& r.last_price == closes.last()
    &&& r.pct_change == relative_change(closes[0], closes.last())
    &&& r.period_min == seq_min(closes)
    &&& r.period_max == seq_max(closes)
    &&& r.thirty_day_avg == trailing_average(closes)
}

impl StockStats {
    /// The statistics of one symbol over its (non-empty) closing prices: the
    /// last price, the relative change from first to last, the minimum, the
    /// maximum and the trailing moving average.
    pub fn new(symbol: String, closes: Vec<i64>) -> (r: StockStats)
        requires
            closes@.len() > 0,
        ensures
            stats_of(r, symbol, closes@),
    {
        let windowed_sma = WindowedSMA { window_size: AVERAGE_WINDOW };
        let last_price = closes[closes.len() - 1];
        let pct_change = match PriceDiff.calculate(closes.as_slice()) {
            Some((_, rel)) => rel,
            None => Fraction { num: 0, den: 1 },
        };
        let period_min = match MinPrice.calculate(closes.as_slice()) {
            Some(m) => m,
            None => 0,
        };
        let period_max = match MaxPrice.calculate(closes.as_slice()) {
            Some(m) => m,
            None => 0,
        };
        let thirty_day_avg = match windowed_sma.calculate(closes.as_slice()) {
            Some(sma) => if sma.len() > 0 {
                sma[sma.len() - 1]
            } else {
                Fraction { num: 0, den: 1 }
            },
            None => Fraction { num: 0, den: 1 },
        };
        StockStats { symbol, last_price, pct_change, period_min, period_max, thirty_day_avg }
    }
}

/// The statistics of each history, in the same order.
pub fn compute_stats(histories: Vec<StockHistory>) -> (r: Vec<StockStats>)
    requires
        forall|i: int| 0 <= i < histories@.len() ==> histories@[i].closes@.len() > 0,
    ensures
        r@.len() == histories@.len(),
        forall|i: int|
            0 <= i < r@.len() ==> stats_of(r@[i], histories@[i].symbol, histories@[i].closes@),
{
    // the length of a vector is a usize
    let _len = histories.len();
    let ghost all = histories@;
    let mut rest = histories;
    let mut out: Vec<StockStats> = Vec::new();
    let mut k: usize = 0;
    while rest.len() > 0
        invariant
            k <= all.len() <= usize::MAX,
            rest@ == all.subrange(k as int, all.len() as int),
            out@.len() == k,
            forall|i: int| 0 <= i < all.len() ==> all[i].closes@.len() > 0,
            forall|i: int| 0 <= i < k ==> stats_of(out@[i], all[i].symbol, all[i].closes@),
        decreases rest@.len(),
    {
        let h = rest.remove(0);
        assert(h == all[k as int]);
        out.push(StockStats::new(h.symbol, h.closes));
        k = k + 1;
        assert(rest@ =~= all.subrange(k as int, all.len() as int));
    }
    out
}


/// The statistics of one round of fetches: a record for each symbol whose
/// fetch succeeded with at least one price, in the order of the fetches.
/// Failed fetches are dropped without a trace.
pub fn report_stats(results: Vec<Result<StockHistory, FetchError>>) -> (r: Vec<StockStats>)
    ensures
        r@.len() == surviving(results@).len(),
        forall|i: int|
            0 <= i < r@.len() ==> stats_of(
                r@[i],
                surviving(results@)[i].symbol,
                surviving(results@)[i].closes@,
            ),
{
    compute_stats(surviving_histories(results))
}

} // verus!
