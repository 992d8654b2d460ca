use vstd::prelude::*;

verus! {

/// The smallest value of a non-empty series.
pub open spec fn seq_min(s: Seq<i64>) -> i64
    recommends
        s.len() > 0,
    decreases s.len(),
{
    if s.len() <= 1 {
        s[0]
    } else {
        let m = seq_min(s.drop_last());
        if s.last() < m {
            s.last()
        } else {
            m
        }
    }
}

/// The largest value of a non-empty series.
pub open spec fn seq_max(s: Seq<i64>) -> i64
    recommends
        s.len() > 0,
    decreases s.len(),
{
    if s.len() <= 1 {
        s[0]
    } else {
        let m = seq_max(s.drop_last());
        if s.last() > m {
            s.last()
        } else {
            m
        }
    }
}

/// Finds the minimum of a price series.
pub struct MinPrice;

impl MinPrice {
    /// `None` on an empty series, else its smallest price.
    pub fn calculate(&self, series: &[i64]) -> (r: Option<i64>)
        ensures
            series@.len() == 0 <==> r.is_none(),
            series@.len() > 0 ==> r == Some(seq_min(series@)),
    {
        if series.len() == 0 {
            return None;
        }
        let mut acc: i64 = series[0];
        let mut i: usize = 1;
        while i < series.len()
            invariant
                1 <= i <= series@.len(),
                acc == seq_min(series@.subrange(0, i as int)),
            decreases series@.len() - i,
        {
            assert(series@.subrange(0, i as int + 1).drop_last() =~= series@.subrange(0, i as int));
            if series[i] < acc {
                acc = series[i];
            }
            i = i + 1;
        }
        assert(series@.subrange(0, series@.len() as int) =~= series@);
        Some(acc)
    }
}


/// Finds the maximum of a price series.
pub struct MaxPrice;

impl MaxPrice {
    /// `None` on an empty series, else its largest price.
    pub fn calculate(&self, series: &[i64]) -> (r: Option<i64>)
        ensures
            series@.len() == 0 <==> r.is_none(),
            series@.len() > 0 ==> r == Some(seq_max(series@)),
    {
        if series.len() == 0 {
            return None;
        }
        let mut acc: i64 = series[0];
        let mut i: usize = 1;
        while i < series.len()
            invariant
                1 <= i <= series@.len(),
                acc == seq_max(series@.subrange(0, i as int)),
            decreases series@.len() - i,
        {
            assert(series@.subrange(0, i as int + 1).drop_last() =~= series@.subrange(0, i as int));
            if series[i] > acc {
                acc = series[i];
            }
            i = i + 1;
        }
        assert(series@.subrange(0, series@.len() as int) =~= series@);
        Some(acc)
    }
}

/// An exact quotient `num / den`; `den` is never zero.
#[derive(Clone, Copy, Debug, PartialEq, Eq, Structural)]
pub struct Fraction {
    pub num: i128,
    pub den: i128,
}

/// The change from the first to the last price, relative to the first one; a
/// first price of zero leaves the change as it is (divided by one).
pub open spec fn relative_change(first: i64, last: i64) -> Fraction {
    Fraction {
        num: (last - first) as i128,
        den: if first == 0 {
            1
        } else {
            first as i128
        },
    }
}

/// Computes the absolute and the relative difference between the first and
/// the last price of a series.
pub struct PriceDiff;

impl PriceDiff {
    /// `None` on an empty series, else `(last - first, relative change)`.
    pub fn calculate(&self, series: &[i64]) -> (r: Option<(i128, Fraction)>)
        ensures
            series@.len() == 0 <==> r.is_none(),
            series@.len() > 0 ==> r == Some(
                (
                    (series@.last() - series@[0]) as i128,
                    relative_change(series@[0], series@.last()),
                ),
            ),
    {
        if series.len() == 0 {
            return None;
        }
        let first = series[0];
        let last = series[series.len() - 1];
        let abs_diff: i128 = last as i128 - first as i128;
        let den: i128 = if first == 0 {
            1
        } else {
            first as i128
        };
        Some((abs_diff, Fraction { num: abs_diff, den }))
    }
}

/// The sum of a series.
pub open spec fn seq_sum(s: Seq<i64>) -> int
    decreases s.len(),
{
    if s.len() == 0 {
        0
    } else {
        seq_sum(s.drop_last()) + s.last()
    }
}

/// The mean of the window of `w` prices that starts at index `i`.
pub open spec fn window_mean(s: Seq<i64>, w: nat, i: int) -> Fraction {
    Fraction { num: seq_sum(s.subrange(i, i + w)) as i128, den: w as i128 }
}

/// How many windows of size `w` a series of length `n` has, with window sizes
/// of one or less counted as degenerate (no window).
pub open spec fn window_count(n: nat, w: nat) -> nat {
    if w <= 1 || w > n {
        0
    } else {
        (n - w + 1) as nat
    }
}

/// Computes a simple moving average with a sliding window of fixed size.
pub struct WindowedSMA {
    pub window_size: usize,
}

impl WindowedSMA {
    /// The sum of `series[start..start + len]`.
    fn window_sum(series: &[i64], start: usize, len: usize) -> (r: i128)
        requires
            start + len <= series@.len(),
        ensures
            r == seq_sum(series@.subrange(start as int, start + len)),
    {
        // the length of a slice is a usize
        let _len = series.len();
        let mut acc: i128 = 0;
        let mut k: usize = 0;
        while k < len
            invariant
                start + len <= series@.len() <= usize::MAX,
                k <= len,
                acc == seq_sum(series@.subrange(start as int, start + k)),
                -(k as int) * 0x8000_0000_0000_0000 <= acc <= (k as int) * 0x8000_0000_0000_0000,
            decreases len - k,
        {
            let x = series[start + k];
            assert(series@.subrange(start as int, start + k + 1).drop_last()
                =~= series@.subrange(start as int, start + k));
            let ghost kk = k as int;
            assert(kk + 1 <= 0x1_0000_0000_0000_0000);
            assert((kk + 1) * 0x8000_0000_0000_0000 <= 0x8000_0000_0000_0000_0000_0000_0000_0000)
                by (nonlinear_arith)
                requires
                    kk + 1 <= 0x1_0000_0000_0000_0000,
            ;
            acc = acc + x as i128;
            k = k + 1;
        }
        acc
    }

    /// `None` on an empty series; otherwise the mean of each window of
    /// `window_size` consecutive prices, in sliding order. A window size of one
    /// or less, or one larger than the series, gives an empty sequence.
    pub fn calculate(&self, series: &[i64]) -> (r: Option<Vec<Fraction>>)
        ensures
            series@.len() == 0 <==> r.is_none(),
            series@.len() > 0 ==> {
                let v = r.unwrap()@;
                &&& v.len() == window_count(series@.len(), self.window_size as nat)
                &&& forall|i: int|
                    0 <= i < v.len() ==> v[i] == window_mean(
                        series@,
                        self.window_size as nat,
                        i,
                    )
            },
    {
        if series.len() == 0 {
            return None;
        }
        let w = self.window_size;
        let mut out: Vec<Fraction> = Vec::new();
        if w <= 1 || w > series.len() {
            return Some(out);
        }
        let n = series.len() - w + 1;
        let mut i: usize = 0;
        while i < n
            invariant
                n == series@.len() - w + 1,
                2 <= w <= series@.len(),
                i <= n,
                out@.len() == i,
                forall|j: int| 0 <= j < i ==> out@[j] == window_mean(series@, w as nat, j),
            decreases n - i,
        {
            let total = Self::window_sum(series, i, w);
            out.push(Fraction { num: total, den: w as i128 });
            i = i + 1;
        }
        Some(out)
    }
}


/// The minimum of a non-empty series is at most each of its prices and is one
/// of them; the minimum of a single price is that price.
pub proof fn lemma_min_is_least_element(s: Seq<i64>)
    requires
        s.len() > 0,
    ensures
        forall|i: int| 0 <= i < s.len() ==> seq_min(s) <= s[i],
        exists|i: int| 0 <= i < s.len() && s[i] == seq_min(s),
        s.len() == 1 ==> seq_min(s) == s[0],
    decreases s.len(),
{
    if s.len() > 1 {
        let t = s.drop_last();
        lemma_min_is_least_element(t);
        let k = choose|k: int| 0 <= k < t.len() && t[k] == seq_min(t);
        assert(s[k] == t[k]);
        if s.last() < seq_min(t) {
            assert(s[s.len() - 1] == seq_min(s));
        } else {
            assert(s[k] == seq_min(s));
        }
        assert forall|i: int| 0 <= i < s.len() implies seq_min(s) <= s[i] by {
            if i < s.len() - 1 {
                assert(s[i] == t[i]);
            }
        }
    } else {
        assert(s[0] == seq_min(s));
    }
}

/// The maximum of a non-empty series is at least each of its prices and is
/// one of them; the maximum of a single price is that price.
pub proof fn lemma_max_is_greatest_element(s: Seq<i64>)
    requires
        s.len() > 0,
    ensures
        forall|i: int| 0 <= i < s.len() ==> seq_max(s) >= s[i],
        exists|i: int| 0 <= i < s.len() && s[i] == seq_max(s),
        s.len() == 1 ==> seq_max(s) == s[0],
    decreases s.len(),
{
    if s.len() > 1 {
        let t = s.drop_last();
        lemma_max_is_greatest_element(t);
        let k = choose|k: int| 0 <= k < t.len() && t[k] == seq_max(t);
        assert(s[k] == t[k]);
        if s.last() > seq_max(t) {
            assert(s[s.len() - 1] == seq_max(s));
        } else {
            assert(s[k] == seq_max(s));
        }
        assert forall|i: int| 0 <= i < s.len() implies seq_max(s) >= s[i] by {
            if i < s.len() - 1 {
                assert(s[i] == t[i]);
            }
        }
    } else {
        assert(s[0] == seq_max(s));
    }
}

/// A series of a single price has no change: the absolute difference that
/// `PriceDiff` reports is zero, and so is the relative one.
pub proof fn lemma_single_price_has_no_change(s: Seq<i64>)
    requires
        s.len() == 1,
    ensures
        s.last() - s[0] == 0,
        relative_change(s[0], s.last()).num == 0,
        relative_change(s[0], s.last()).den != 0,
{
}

/// On a non-empty series and a window size of at least two, the number of
/// moving averages is the series length minus the window size plus one, or
/// zero when the window is longer than the series.
pub proof fn lemma_window_count_formula(n: nat, w: nat)
    requires
        n >= 1,
        w >= 2,
    ensures
        window_count(n, w) == if n + 1 >= w {
            (n + 1 - w) as nat
        } else {
            0nat
        },
{
}

} // verus!
