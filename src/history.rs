use vstd::prelude::*;

verus! {

/// One quote of a provider: when it was taken and its adjusted closing price.
#[derive(Clone, Copy, Debug, PartialEq, Eq, Structural)]
pub struct Quote {
    pub timestamp: u64,
    pub adjclose: i64,
}

/// The closing prices of one symbol, oldest first.
#[derive(Debug)]
pub struct StockHistory {
    pub symbol: String,
    pub closes: Vec<i64>,
}

/// Why the quotes of a symbol could not be had.
#[derive(Clone, Copy, Debug, PartialEq, Eq, Structural)]
pub enum FetchError {
    DataUnavailable,
}

/// Quotes in ascending order of their timestamps.
pub open spec fn sorted_by_time(s: Seq<Quote>) -> bool {
    forall|i: int, j: int| 0 <= i < j < s.len() ==> s[i].timestamp <= s[j].timestamp
}

/// The adjusted closing prices of a run of quotes, in the same order.
pub open spec fn closes_of(s: Seq<Quote>) -> Seq<i64> {
    s.map_values(|q: Quote| q.adjclose)
}

/// The closing prices that a run of quotes yields: those of the same quotes
/// put in ascending order of time.
pub open spec fn is_closing_series(quotes: Seq<Quote>, closes: Seq<i64>) -> bool {
    exists|sorted: Seq<Quote>|
        #![trigger closes_of(sorted)]
        sorted.to_multiset() == quotes.to_multiset() && sorted_by_time(sorted) && closes
            == closes_of(sorted)
}

/// Relies on `slice::sort_by_key` of std: it permutes the quotes into
/// ascending order of their timestamps.
#[verifier::external_body]
fn sort_by_timestamp(quotes: &mut Vec<Quote>)
    ensures
        final(quotes)@.to_multiset() == old(quotes)@.to_multiset(),
        sorted_by_time(final(quotes)@),
{
    quotes.sort_by_key(|q| q.timestamp);
}

impl StockHistory {
    /// The history of `symbol` from the quotes a provider returned, which may
    /// come in any order: their closing prices, oldest first. No quotes give
    /// an empty history.
    pub fn from_quotes(symbol: String, quotes: Vec<Quote>) -> (r: StockHistory)
        ensures
            r.symbol == symbol,
            r.closes@.len() == quotes@.len(),
            is_closing_series(quotes@, r.closes@),
    {
        let ghost given = quotes@;
        let mut sorted = quotes;
        sort_by_timestamp(&mut sorted);
        proof {
            given.to_multiset_ensures();
            sorted@.to_multiset_ensures();
        }
        let mut closes: Vec<i64> = Vec::new();
        let mut i: usize = 0;
        while i < sorted.len()
            invariant
                i <= sorted@.len(),
                closes@.len() == i,
                forall|j: int| 0 <= j < i ==> closes@[j] == sorted@[j].adjclose,
            decreases sorted@.len() - i,
        {
            closes.push(sorted[i].adjclose);
            i = i + 1;
        }
        assert(closes@ =~= closes_of(sorted@));
        StockHistory { symbol, closes }
    }
}

/// The histories that a round of fetches leaves for statistics: those that
/// were fetched and hold at least one price, in their order.
pub open spec fn surviving(rs: Seq<Result<StockHistory, FetchError>>) -> Seq<StockHistory>
    decreases rs.len(),
{
    if rs.len() == 0 {
        seq![]
    } else {
        let rest = surviving(rs.drop_last());
        match rs.last() {
            Ok(h) => if h.closes@.len() > 0 {
                rest.push(h)
            } else {
                rest
            },
            Err(_) => rest,
        }
    }
}

/// Drops the failed fetches and the empty histories, keeping the order of
/// the others.
pub fn surviving_histories(results: Vec<Result<StockHistory, FetchError>>) -> (r: Vec<
    StockHistory,
>)
    ensures
        r@ == surviving(results@),
        forall|i: int| 0 <= i < r@.len() ==> r@[i].closes@.len() > 0,
{
    // the length of a vector is a usize
    let _len = results.len();
    let ghost all = results@;
    let mut rest = results;
    let mut out: Vec<StockHistory> = Vec::new();
    let mut k: usize = 0;
    while rest.len() > 0
        invariant
            k <= all.len() <= usize::MAX,
            rest@ == all.subrange(k as int, all.len() as int),
            out@ == surviving(all.subrange(0, k as int)),
            forall|i: int| 0 <= i < out@.len() ==> out@[i].closes@.len() > 0,
        decreases rest@.len(),
    {
        let item = rest.remove(0);
        assert(all.subrange(0, k as int + 1).drop_last() =~= all.subrange(0, k as int));
        assert(item == all[k as int]);
        match item {
            Ok(h) => {
                if h.closes.len() > 0 {
                    out.push(h);
                }
            },
            Err(_) => {},
        }
        k = k + 1;
        assert(rest@ =~= all.subrange(k as int, all.len() as int));
    }
    assert(all.subrange(0, k as int) =~= all);
    out
}

} // verus!
