//! Strategies: the order decided at each bar, with the indicator traces
//! that led to it.

use crate::datas::Data;
use crate::errors::Error;
use crate::orders::Order;
use crate::ta::sma;
use crate::ta::sma_trace;
use crate::ta::NO_VALUE;
use vstd::prelude::*;

verus! {

/// The decisions of a strategy over a price series.
///
/// `choices` holds one order per bar. `indicator` holds the traces to show
/// beside the prices, one series per trace, where `-1` marks a bar at which
/// the trace has no value. A strategy is made by a function that returns
/// one; the functions of this module are examples.
pub struct Strategy {
    pub name: String,
    pub choices: Vec<Order>,
    pub indicator: Option<Vec<Vec<i64>>>,
}

/// What a [`Strategy`] holds, as mathematical sequences.
pub struct StrategyView {
    pub name: Seq<char>,
    pub choices: Seq<Order>,
    pub indicator: Option<Seq<Seq<i64>>>,
}

/// The traces of an indicator field, as sequences.
pub open spec fn traces(indicator: Option<Vec<Vec<i64>>>) -> Option<Seq<Seq<i64>>> {
    match indicator {
        Some(series) => Some(series.deep_view()),
        None => None,
    }
}

impl View for Strategy {
    type V = StrategyView;

    open spec fn view(&self) -> StrategyView {
        StrategyView { name: self.name@, choices: self.choices@, indicator: traces(self.indicator) }
    }
}

impl Clone for Strategy {
    fn clone(&self) -> (copy: Self)
        ensures
            copy@ == self@,
    {
        let copy = Strategy {
            name: self.name.clone(),
            choices: self.choices.clone(),
            indicator: self.indicator.clone(),
        };
        copy
    }
}

/// An indicator value above which [`rsi_strategy`] sells short.
pub const RSI_OVERBOUGHT: i64 = 70;

/// An indicator value below which [`rsi_strategy`] buys.
pub const RSI_OVERSOLD: i64 = 30;

/// The text of one decimal digit.
pub open spec fn digit(d: int) -> Seq<char> {
    if d == 0 {
        "0"@
    } else if d == 1 {
        "1"@
    } else if d == 2 {
        "2"@
    } else if d == 3 {
        "3"@
    } else if d == 4 {
        "4"@
    } else if d == 5 {
        "5"@
    } else if d == 6 {
        "6"@
    } else if d == 7 {
        "7"@
    } else if d == 8 {
        "8"@
    } else {
        "9"@
    }
}

/// The decimal text of `n`, without leading zeros.
pub open spec fn decimal(n: int) -> Seq<char>
    decreases n,
{
    if n < 10 {
        digit(n)
    } else {
        decimal(n / 10) + digit(n % 10)
    }
}

/// The traces of a strategy that shows none: one series without a value
/// at any of the `bars` bars.
pub open spec fn no_traces(bars: nat) -> Option<Seq<Seq<i64>>> {
    Some(seq![Seq::new(bars, |i: int| NO_VALUE)])
}

/// The order that [`simple_sma`] takes at a bar: none while the average
/// has no value, long while it is at or above the opening price, short
/// while it is below.
pub open spec fn sma_choice(average: i64, open: i64) -> Order {
    if average == NO_VALUE {
        Order::NULL
    } else if average >= open {
        Order::BUY
    } else {
        Order::SHORTSELL
    }
}

/// The order that [`sma_cross`] takes at a bar: none while the slow
/// average has no value, long while the fast average is above the slow
/// one, short otherwise.
pub open spec fn cross_choice(fast: i64, slow: i64) -> Order {
    if slow == NO_VALUE {
        Order::NULL
    } else if fast > slow {
        Order::BUY
    } else {
        Order::SHORTSELL
    }
}

/// The order that [`rsi_strategy`] takes at a bar: short above
/// `RSI_OVERBOUGHT`, long below `RSI_OVERSOLD`, none in between and none
/// while the index has no value.
pub open spec fn rsi_choice(index: i64) -> Order {
    if index == NO_VALUE {
        Order::NULL
    } else if index > RSI_OVERBOUGHT {
        Order::SHORTSELL
    } else if index < RSI_OVERSOLD {
        Order::BUY
    } else {
        Order::NULL
    }
}

/// The text of the digit `d`.
fn digit_text(d: usize) -> (text: &'static str)
    requires
        d < 10,
    ensures
        text@ == digit(d as int),
{
    if d == 0 {
        "0"
    } else if d == 1 {
        "1"
    } else if d == 2 {
        "2"
    } else if d == 3 {
        "3"
    } else if d == 4 {
        "4"
    } else if d == 5 {
        "5"
    } else if d == 6 {
        "6"
    } else if d == 7 {
        "7"
    } else if d == 8 {
        "8"
    } else {
        "9"
    }
}

/// The decimal text of `n`.
pub fn decimal_text(n: usize) -> (text: String)
    ensures
        text@ == decimal(n as int),
    decreases n,
{
    if n < 10 {
        digit_text(n).to_string()
    } else {
        decimal_text(n / 10).concat(digit_text(n % 10))
    }
}

/// `bars` copies of `order`.
fn constant_choices(order: Order, bars: usize) -> (choices: Vec<Order>)
    ensures
        choices.len() == bars,
        forall|i: int| 0 <= i < bars ==> choices[i] == order,
{
    let mut choices: Vec<Order> = Vec::new();
    let mut bar: usize = 0;
    while bar < bars
        invariant
            bar <= bars,
            choices.len() == bar,
            forall|i: int| 0 <= i < bar ==> choices[i] == order,
        decreases bars - bar,
    {
        choices.push(order);
        bar = bar + 1;
    }
    choices
}

/// One trace without a value at any of the `bars` bars.
fn blank_traces(bars: usize) -> (indicator: Option<Vec<Vec<i64>>>)
    ensures
        traces(indicator) == no_traces(bars as nat),
{
    let blank: Vec<i64> = vec![NO_VALUE; bars];
    let mut all: Vec<Vec<i64>> = Vec::new();
    all.push(blank);
    assert(all.deep_view() =~~= seq![Seq::new(bars as nat, |i: int| NO_VALUE)]);
    Some(all)
}

impl Strategy {
    /// The order decided at each bar.
    pub fn choices(&self) -> (choices: Vec<Order>)
        ensures
            choices@ == self.choices@,
    {
        self.choices.clone()
    }

    /// The strategy's name.
    pub fn name(&self) -> (name: &String)
        ensures
            name@ == self.name@,
    {
        &self.name
    }

    /// The indicator traces.
    pub fn indicator(&self) -> (indicator: Option<Vec<Vec<i64>>>)
        ensures
            traces(indicator) == traces(self.indicator),
    {
        self.indicator.clone()
    }

    /// The strategy that takes the other side of every trade: short where
    /// this one is long and long where it is short. It is named `invert`
    /// and shows the same traces.
    pub fn invert(&self) -> (other: Self)
        ensures
            other@.name == "invert"@,
            other@.indicator == self@.indicator,
            other@.choices.len() == self@.choices.len(),
            forall|i: int|
                0 <= i < self@.choices.len() ==> other@.choices[i] == self@.choices[i].inverse(),
    {
        let length: usize = self.choices.len();
        let mut inv_choices: Vec<Order> = Vec::new();
        let mut i: usize = 0;
        while i < length
            invariant
                i <= length,
                length == self.choices.len(),
                inv_choices.len() == i,
                forall|k: int| 0 <= k < i ==> inv_choices[k] == self.choices[k].inverse(),
            decreases length - i,
        {
            inv_choices.push(self.choices[i].inverted());
            i = i + 1;
        }
        Strategy {
            name: "invert".to_string(),
            choices: inv_choices,
            indicator: self.indicator.clone(),
        }
    }
}

/// The strategy that is long at every bar.
pub fn buy_n_hold(quotes: Data) -> (strategy: Strategy)
    ensures
        strategy@.name == "buy and hold"@,
        strategy@.choices.len() == quotes@.len(),
        forall|i: int| 0 <= i < quotes@.len() ==> strategy@.choices[i] == Order::BUY,
        strategy@.indicator == no_traces(quotes@.len()),
{
    let length: usize = quotes.len();
    Strategy {
        name: "buy and hold".to_string(),
        choices: constant_choices(Order::BUY, length),
        indicator: blank_traces(length),
    }
}

/// The strategy that is short at every bar.
pub fn short_n_hold(quotes: Data) -> (strategy: Strategy)
    ensures
        strategy@.name == "short and hold"@,
        strategy@.choices.len() == quotes@.len(),
        forall|i: int| 0 <= i < quotes@.len() ==> strategy@.choices[i] == Order::SHORTSELL,
        strategy@.indicator == no_traces(quotes@.len()),
{
    let length: usize = quotes.len();
    Strategy {
        name: "short and hold".to_string(),
        choices: constant_choices(Order::SHORTSELL, length),
        indicator: blank_traces(length),
    }
}

/// The strategy that never holds anything.
pub fn do_nothing(quotes: Data) -> (strategy: Strategy)
    ensures
        strategy@.name == "do nothing"@,
        strategy@.choices.len() == quotes@.len(),
        forall|i: int| 0 <= i < quotes@.len() ==> strategy@.choices[i] == Order::NULL,
        strategy@.indicator == no_traces(quotes@.len()),
{
    let length: usize = quotes.len();
    Strategy {
        name: "do nothing".to_string(),
        choices: constant_choices(Order::NULL, length),
        indicator: blank_traces(length),
    }
}

/// The strategy that compares the moving average over `period` bars with
/// the opening price: see [`sma_choice`]. It is named `simple_sma_` and the
/// period, and shows the average.
pub fn simple_sma(quotes: Data, period: usize) -> (strategy: Strategy)
    requires
        quotes.wf(),
        period >= 1,
    ensures
        strategy@.name == "simple_sma_"@ + decimal(period as int),
        strategy@.choices.len() == quotes@.len(),
        forall|i: int|
            0 <= i < quotes@.len() ==> strategy@.choices[i] == sma_choice(
                sma_trace(quotes@.close, period as int)[i],
                quotes@.open[i],
            ),
        strategy@.indicator == Some(seq![sma_trace(quotes@.close, period as int)]),
{
    let average: Vec<i64> = sma(&quotes, period);
    let open: Vec<i64> = quotes.open();
    let length: usize = quotes.len();
    let mut choices: Vec<Order> = Vec::new();
    let mut i: usize = 0;
    while i < length
        invariant
            i <= length,
            length == open.len(),
            length <= average.len(),
            choices.len() == i,
            forall|k: int| 0 <= k < i ==> choices[k] == sma_choice(average[k], open[k]),
        decreases length - i,
    {
        let choice = if average[i] != NO_VALUE {
            if average[i] >= open[i] {
                Order::BUY
            } else {
                Order::SHORTSELL
            }
        } else {
            Order::NULL
        };
        choices.push(choice);
        i = i + 1;
    }
    let name: String = "simple_sma_".to_string().concat(decimal_text(period).as_str());
    let mut shown: Vec<Vec<i64>> = Vec::new();
    shown.push(average);
    assert(shown.deep_view() =~~= seq![sma_trace(quotes@.close, period as int)]);
    Strategy { name, choices, indicator: Some(shown) }
}

/// The strategy that compares a fast moving average with a slow one: see
/// [`cross_choice`]. It is named `sma_cross_` and the two periods, and
/// shows both averages, the fast one first.
pub fn sma_cross(quotes: Data, short_period: usize, long_period: usize) -> (strategy: Strategy)
    requires
        quotes.wf(),
        short_period >= 1,
        long_period >= 1,
    ensures
        strategy@.name == "sma_cross_"@ + decimal(short_period as int) + "_"@ + decimal(
            long_period as int,
        ),
        strategy@.choices.len() == quotes@.len(),
        forall|i: int|
            0 <= i < quotes@.len() ==> strategy@.choices[i] == cross_choice(
                sma_trace(quotes@.close, short_period as int)[i],
                sma_trace(quotes@.close, long_period as int)[i],
            ),
        strategy@.indicator == Some(
            seq![
                sma_trace(quotes@.close, short_period as int),
                sma_trace(quotes@.close, long_period as int),
            ],
        ),
{
    let fast: Vec<i64> = sma(&quotes, short_period);
    let slow: Vec<i64> = sma(&quotes, long_period);
    let length: usize = quotes.len();
    let mut choices: Vec<Order> = Vec::new();
    let mut i: usize = 0;
    while i < length
        invariant
            i <= length,
            length <= fast.len(),
            length <= slow.len(),
            choices.len() == i,
            forall|k: int| 0 <= k < i ==> choices[k] == cross_choice(fast[k], slow[k]),
        decreases length - i,
    {
        let choice = if slow[i] != NO_VALUE {
            if fast[i] > slow[i] {
                Order::BUY
            } else {
                Order::SHORTSELL
            }
        } else {
            Order::NULL
        };
        choices.push(choice);
        i = i + 1;
    }
    let name: String = "sma_cross_".to_string().concat(decimal_text(short_period).as_str()).concat(
        "_",
    ).concat(decimal_text(long_period).as_str());
    let mut shown: Vec<Vec<i64>> = Vec::new();
    shown.push(fast);
    shown.push(slow);
    assert(shown.deep_view() =~~= seq![
        sma_trace(quotes@.close, short_period as int),
        sma_trace(quotes@.close, long_period as int),
    ]);
    Strategy { name, choices, indicator: Some(shown) }
}

/// The strategy that trades against an extreme relative strength index:
/// see [`rsi_choice`]. `rsi` is the index over `period` bars, in whole
/// points from 0 to 100, with at least one entry per bar. The strategy is
/// named `rsi_` and the period, and shows the index.
pub fn rsi_strategy(quotes: Data, rsi: Vec<i64>, period: usize) -> (made: Result<Strategy, Error>)
    ensures
        made is Ok <==> rsi.len() >= quotes@.len(),
        made matches Err(e) ==> e == Error::ShapeMismatch,
        made matches Ok(strategy) ==> {
            &&& strategy@.name == "rsi_"@ + decimal(period as int)
            &&& strategy@.choices.len() == quotes@.len()
            &&& forall|i: int|
                0 <= i < quotes@.len() ==> strategy@.choices[i] == rsi_choice(rsi[i])
            &&& strategy@.indicator == Some(seq![rsi@])
        },
{
    let length: usize = quotes.len();
    if rsi.len() < length {
        return Err(Error::ShapeMismatch);
    }
    let mut choices: Vec<Order> = Vec::new();
    let mut i: usize = 0;
    while i < length
        invariant
            i <= length,
            length <= rsi.len(),
            choices.len() == i,
            forall|k: int| 0 <= k < i ==> choices[k] == rsi_choice(rsi[k]),
        decreases length - i,
    {
        let choice = if rsi[i] != NO_VALUE {
            if rsi[i] > RSI_OVERBOUGHT {
                Order::SHORTSELL
            } else if rsi[i] < RSI_OVERSOLD {
                Order::BUY
            } else {
                Order::NULL
            }
        } else {
            Order::NULL
        };
        choices.push(choice);
        i = i + 1;
    }
    let name: String = "rsi_".to_string().concat(decimal_text(period).as_str());
    let mut shown: Vec<Vec<i64>> = Vec::new();
    shown.push(rsi);
    assert(shown.deep_view() =~~= seq![rsi@]);
    Ok(Strategy { name, choices, indicator: Some(shown) })
}

} // verus!
