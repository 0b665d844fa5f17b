//! Technical indicators.

use crate::arith::lemma_toward_zero;
use crate::arith::toward_zero;
use crate::arith::trunc_div;
use crate::datas::Data;
use vstd::prelude::*;

verus! {

/// The value of a trace at a bar at which it has none.
pub const NO_VALUE: i64 = -1;

/// An indicator trace beside the market data it was computed from, to
/// check the one against the other.
pub struct Indicator {
    pub indicator: Vec<i64>,
    pub quotes: Data,
}

impl Clone for Indicator {
    fn clone(&self) -> (copy: Self)
        ensures
            copy.indicator@ == self.indicator@,
            copy.quotes@ == self.quotes@,
    {
        Indicator { indicator: self.indicator.clone(), quotes: self.quotes.clone() }
    }
}

impl Indicator {
    /// The market data.
    pub fn quotes(&self) -> (quotes: Data)
        ensures
            quotes@ == self.quotes@,
    {
        self.quotes.clone()
    }

    /// The trace.
    pub fn indicator(&self) -> (trace: Vec<i64>)
        ensures
            trace@ == self.indicator@,
    {
        self.indicator.clone()
    }
}

/// The sum of `series[first..end]`.
pub open spec fn window_sum(series: Seq<i64>, first: int, end: int) -> int
    decreases end - first,
{
    if end <= first {
        0
    } else {
        window_sum(series, first, end - 1) + series[end - 1]
    }
}

/// The simple moving average at bar `i`: the mean of the last `period`
/// closing prices up to and including bar `i`, its fraction dropped; no
/// value while fewer than `period` bars have passed.
pub open spec fn sma_at(close: Seq<i64>, period: int, i: int) -> int {
    if i < period - 1 {
        NO_VALUE as int
    } else {
        toward_zero(window_sum(close, i + 1 - period, i + 1), period)
    }
}

/// The length of a moving average trace: one entry per bar, and never
/// fewer than the `period - 1` entries without a value that it starts with.
pub open spec fn sma_len(bars: int, period: int) -> int {
    if period - 1 <= bars {
        bars
    } else {
        period - 1
    }
}

/// The moving average trace over `period` bars of the closing prices.
pub open spec fn sma_trace(close: Seq<i64>, period: int) -> Seq<i64> {
    Seq::new(sma_len(close.len() as int, period) as nat, |i: int| sma_at(close, period, i) as i64)
}

/// A window's sum lies within the bounds that its length allows.
proof fn lemma_window_bounds(series: Seq<i64>, first: int, end: int)
    requires
        0 <= first <= end <= series.len(),
    ensures
        (end - first) * (i64::MIN as int) <= window_sum(series, first, end) <= (end - first) * (
        i64::MAX as int),
    decreases end - first,
{
    if first < end {
        lemma_window_bounds(series, first, end - 1);
    }
}

/// The mean of `count` values of type `i64` is an `i64`.
proof fn lemma_mean_fits(total: int, count: int)
    requires
        count >= 1,
        count * (i64::MIN as int) <= total <= count * (i64::MAX as int),
    ensures
        i64::MIN <= toward_zero(total, count) <= i64::MAX,
{
    lemma_toward_zero(total, count);
    let mean = toward_zero(total, count);
    if total >= 0 {
        assert(mean <= i64::MAX) by (nonlinear_arith)
            requires
                count >= 1,
                0 <= mean * count <= total,
                total <= count * (i64::MAX as int),
        ;
    } else {
        assert(mean >= i64::MIN) by (nonlinear_arith)
            requires
                count >= 1,
                total <= mean * count <= 0,
                count * (i64::MIN as int) <= total,
        ;
    }
}

/// The simple moving average of the closing prices over `period` bars.
pub fn sma(quotes: &Data, period: usize) -> (trace: Vec<i64>)
    requires
        period >= 1,
    ensures
        trace@ == sma_trace(quotes@.close, period as int),
        trace.len() == sma_len(quotes@.close.len() as int, period as int),
        forall|i: int|
            0 <= i < trace.len() ==> trace[i] == #[trigger] sma_at(quotes@.close, period as int, i),
{
    let close: Vec<i64> = quotes.close();
    let bars: usize = close.len();
    let mut trace: Vec<i64> = vec![NO_VALUE; period - 1];
    let mut bar: usize = period - 1;
    while bar < bars
        invariant
            period >= 1,
            bars == close.len(),
            close@ == quotes@.close,
            period - 1 <= bar,
            bar <= bars || bar == period - 1,
            trace.len() == bar,
            forall|i: int|
                0 <= i < trace.len() ==> trace[i] == #[trigger] sma_at(close@, period as int, i),
        decreases bars - bar,
    {
        let first: usize = bar + 1 - period;
        let mut total: i128 = 0;
        let mut at: usize = first;
        while at <= bar
            invariant
                first <= at <= bar + 1,
                bar < bars,
                bars == close.len(),
                first == bar + 1 - period,
                total == window_sum(close@, first as int, at as int),
                (at - first) * (i64::MIN as int) <= total <= (at - first) * (i64::MAX as int),
            decreases bar + 1 - at,
        {
            total = total + close[at] as i128;
            at = at + 1;
        }
        proof {
            lemma_mean_fits(total as int, period as int);
        }
        let mean: i128 = trunc_div(total, period as i128);
        trace.push(mean as i64);
        bar = bar + 1;
    }
    assert(trace@ =~= sma_trace(quotes@.close, period as int));
    trace
}

} // verus!
