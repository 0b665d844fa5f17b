//! The series derived from a simulation for reporting: market value, net
//! worth, cash flow, commission and the price of the last trade.
//!
//! Each function takes the series it needs, aligned bar for bar, and
//! returns one value per bar. Series of different lengths are refused with
//! `ShapeMismatch`, and a value that does not fit in an `i64` with
//! `Overflow`.

use crate::arith::fits_i64;
use crate::arith::lemma_commission_bounds;
use crate::arith::product;
use crate::engine::charged_at;
use crate::engine::lemma_error_persists;
use crate::engine::lemma_trade_costs_commission;
use crate::engine::simulation;
use crate::engine::state_at;
use crate::engine::trades_at;
use crate::engine::worth_before;
use crate::errors::Error;
use crate::orders::Order;
use vstd::prelude::*;

verus! {

/// The series of `len` values given by `value`, if every one of them fits
/// in an `i64`.
pub open spec fn derived(len: nat, value: spec_fn(int) -> int) -> Result<Seq<i64>, Error> {
    if forall|i: int| 0 <= i < len ==> fits_i64(#[trigger] value(i)) {
        Ok(Seq::new(len, |i: int| value(i) as i64))
    } else {
        Err(Error::Overflow)
    }
}

/// `series` is what a derivation with the given outcome returns.
pub open spec fn yields(series: Result<Vec<i64>, Error>, outcome: Result<Seq<i64>, Error>) -> bool {
    match (series, outcome) {
        (Ok(values), Ok(model)) => values@ == model,
        (Err(e), Err(f)) => e == f,
        _ => false,
    }
}

/// The market value of the position at bar `i`: the position times the
/// closing price.
pub open spec fn market_value_at(position: Seq<i64>, close: Seq<i64>, i: int) -> int {
    position[i] * close[i]
}

/// The market value series.
pub open spec fn market_values(position: Seq<i64>, close: Seq<i64>) -> Result<Seq<i64>, Error> {
    if position.len() != close.len() {
        Err(Error::ShapeMismatch)
    } else {
        derived(position.len(), |i: int| market_value_at(position, close, i))
    }
}

/// The net worth at bar `i`: the market value of the position plus the
/// cash balance.
pub open spec fn net_worth_at(position: Seq<i64>, account: Seq<i64>, close: Seq<i64>, i: int) -> int {
    market_value_at(position, close, i) + account[i]
}

/// The net worth series.
pub open spec fn net_worths(position: Seq<i64>, account: Seq<i64>, close: Seq<i64>) -> Result<
    Seq<i64>,
    Error,
> {
    if position.len() != close.len() || account.len() != close.len() {
        Err(Error::ShapeMismatch)
    } else {
        derived(position.len(), |i: int| net_worth_at(position, account, close, i))
    }
}

/// The cash moved by trading at bar `i`, commission aside: nothing at the
/// first bar, and after it the change of the position, valued at the bar's
/// opening price, with cash paid out counted as negative.
pub open spec fn flow_at(position: Seq<i64>, open: Seq<i64>, i: int) -> int {
    if i <= 0 {
        0
    } else {
        -((position[i] - position[i - 1]) * open[i])
    }
}

/// The cash flow series.
pub open spec fn cash_flows(position: Seq<i64>, open: Seq<i64>) -> Result<Seq<i64>, Error> {
    if position.len() != open.len() {
        Err(Error::ShapeMismatch)
    } else {
        derived(position.len(), |i: int| flow_at(position, open, i))
    }
}

/// The change of the cash balance at bar `i` that trading does not
/// explain: nothing at the first bar, and after it
/// `-(account[i - 1] - account[i] + flow[i])`. What a trade costs in
/// commission appears here as a negative amount.
pub open spec fn commission_at(position: Seq<i64>, account: Seq<i64>, open: Seq<i64>, i: int) -> int {
    if i <= 0 {
        0
    } else {
        -(account[i - 1] - account[i] + flow_at(position, open, i))
    }
}

/// The commission series.
pub open spec fn commissions(position: Seq<i64>, account: Seq<i64>, open: Seq<i64>) -> Result<
    Seq<i64>,
    Error,
> {
    if position.len() != open.len() || account.len() != open.len() {
        Err(Error::ShapeMismatch)
    } else {
        derived(position.len(), |i: int| commission_at(position, account, open, i))
    }
}

/// The opening price of the last bar, up to bar `i`, at which cash flowed:
/// the price at which the lot now held was traded. Zero while no trade has
/// taken place.
pub open spec fn historical_price_at(position: Seq<i64>, open: Seq<i64>, i: int) -> i64
    decreases i,
{
    if i <= 0 {
        0
    } else if flow_at(position, open, i) != 0 {
        open[i]
    } else {
        historical_price_at(position, open, i - 1)
    }
}

/// The historical price series.
pub open spec fn historical_prices(position: Seq<i64>, open: Seq<i64>) -> Result<Seq<i64>, Error> {
    if position.len() != open.len() {
        Err(Error::ShapeMismatch)
    } else {
        Ok(Seq::new(position.len(), |i: int| historical_price_at(position, open, i)))
    }
}

/// `value` as an `i64`, if it fits.
fn narrow(value: i128) -> (small: Option<i64>)
    ensures
        small is Some <==> fits_i64(value as int),
        small matches Some(v) ==> v == value,
{
    if value > i64::MAX as i128 || value < i64::MIN as i128 {
        None
    } else {
        Some(value as i64)
    }
}

/// The change of the position at `bar`, valued at the bar's opening price.
fn traded(position: &Vec<i64>, open: &Vec<i64>, bar: usize) -> (value: i128)
    requires
        1 <= bar < position.len(),
        position.len() == open.len(),
    ensures
        value == -flow_at(position@, open@, bar as int),
        -i128::MAX <= value <= i128::MAX,
        value != 0 <==> position[bar as int] != position[bar - 1] && open[bar as int] != 0,
{
    let change: i128 = position[bar] as i128 - position[bar - 1] as i128;
    let price: i128 = open[bar] as i128;
    assert(-0x7fff_ffff_ffff_ffff_8000_0000_0000_0000 <= change * price
        <= 0x7fff_ffff_ffff_ffff_8000_0000_0000_0000 && (change * price != 0 <==> change != 0
        && price != 0)) by (nonlinear_arith)
        requires
            -0xffff_ffff_ffff_ffff <= change <= 0xffff_ffff_ffff_ffff,
            -0x8000_0000_0000_0000 <= price <= 0x7fff_ffff_ffff_ffff,
    ;
    change * price
}

/// The market value of the position at each bar.
pub fn market_value(position: &Vec<i64>, close: &Vec<i64>) -> (series: Result<Vec<i64>, Error>)
    ensures
        yields(series, market_values(position@, close@)),
{
    let bars: usize = position.len();
    if close.len() != bars {
        return Err(Error::ShapeMismatch);
    }
    let ghost value = |i: int| market_value_at(position@, close@, i);
    let mut series: Vec<i64> = Vec::new();
    let mut bar: usize = 0;
    while bar < bars
        invariant
            bar <= bars,
            bars == position.len(),
            bars == close.len(),
            series.len() == bar,
            value == |i: int| market_value_at(position@, close@, i),
            forall|i: int| 0 <= i < bar ==> fits_i64(#[trigger] value(i)) && series[i] == value(i),
        decreases bars - bar,
    {
        match narrow(product(position[bar], close[bar])) {
            Some(worth) => series.push(worth),
            None => {
                assert(!fits_i64(value(bar as int)));
                return Err(Error::Overflow);
            },
        }
        bar = bar + 1;
    }
    assert(series@ =~= Seq::new(bars as nat, |i: int| value(i) as i64));
    Ok(series)
}

/// The net worth at each bar.
pub fn net_worth(position: &Vec<i64>, account: &Vec<i64>, close: &Vec<i64>) -> (series: Result<
    Vec<i64>,
    Error,
>)
    ensures
        yields(series, net_worths(position@, account@, close@)),
{
    let bars: usize = position.len();
    if close.len() != bars || account.len() != bars {
        return Err(Error::ShapeMismatch);
    }
    let ghost value = |i: int| net_worth_at(position@, account@, close@, i);
    let mut series: Vec<i64> = Vec::new();
    let mut bar: usize = 0;
    while bar < bars
        invariant
            bar <= bars,
            bars == position.len(),
            bars == close.len(),
            bars == account.len(),
            series.len() == bar,
            value == |i: int| net_worth_at(position@, account@, close@, i),
            forall|i: int| 0 <= i < bar ==> fits_i64(#[trigger] value(i)) && series[i] == value(i),
        decreases bars - bar,
    {
        match narrow(product(position[bar], close[bar]) + account[bar] as i128) {
            Some(worth) => series.push(worth),
            None => {
                assert(!fits_i64(value(bar as int)));
                return Err(Error::Overflow);
            },
        }
        bar = bar + 1;
    }
    assert(series@ =~= Seq::new(bars as nat, |i: int| value(i) as i64));
    Ok(series)
}

/// The cash moved by trading at each bar.
pub fn flows(position: &Vec<i64>, open: &Vec<i64>) -> (series: Result<Vec<i64>, Error>)
    ensures
        yields(series, cash_flows(position@, open@)),
{
    let bars: usize = position.len();
    if open.len() != bars {
        return Err(Error::ShapeMismatch);
    }
    let ghost value = |i: int| flow_at(position@, open@, i);
    let mut series: Vec<i64> = Vec::new();
    let mut bar: usize = 0;
    while bar < bars
        invariant
            bar <= bars,
            bars == position.len(),
            bars == open.len(),
            series.len() == bar,
            value == |i: int| flow_at(position@, open@, i),
            forall|i: int| 0 <= i < bar ==> fits_i64(#[trigger] value(i)) && series[i] == value(i),
        decreases bars - bar,
    {
        let flow: i128 = if bar == 0 {
            0
        } else {
            -traded(position, open, bar)
        };
        match narrow(flow) {
            Some(cash) => series.push(cash),
            None => {
                assert(!fits_i64(value(bar as int)));
                return Err(Error::Overflow);
            },
        }
        bar = bar + 1;
    }
    assert(series@ =~= Seq::new(bars as nat, |i: int| value(i) as i64));
    Ok(series)
}

/// The commission at each bar, derived from the account and the flows.
pub fn commission_paid(position: &Vec<i64>, account: &Vec<i64>, open: &Vec<i64>) -> (series:
    Result<Vec<i64>, Error>)
    ensures
        yields(series, commissions(position@, account@, open@)),
{
    let bars: usize = position.len();
    if open.len() != bars || account.len() != bars {
        return Err(Error::ShapeMismatch);
    }
    let ghost value = |i: int| commission_at(position@, account@, open@, i);
    let mut series: Vec<i64> = Vec::new();
    let mut bar: usize = 0;
    while bar < bars
        invariant
            bar <= bars,
            bars == position.len(),
            bars == open.len(),
            bars == account.len(),
            series.len() == bar,
            value == |i: int| commission_at(position@, account@, open@, i),
            forall|i: int| 0 <= i < bar ==> fits_i64(#[trigger] value(i)) && series[i] == value(i),
        decreases bars - bar,
    {
        let mut paid: i128 = 0;
        if bar > 0 {
            let bought: i128 = traded(position, open, bar);
            if bought > 0x2_0000_0000_0000_0000 || bought < -0x2_0000_0000_0000_0000 {
                assert(!fits_i64(value(bar as int)));
                return Err(Error::Overflow);
            }
            paid = account[bar] as i128 - account[bar - 1] as i128 + bought;
        }
        match narrow(paid) {
            Some(cash) => series.push(cash),
            None => {
                assert(!fits_i64(value(bar as int)));
                return Err(Error::Overflow);
            },
        }
        bar = bar + 1;
    }
    assert(series@ =~= Seq::new(bars as nat, |i: int| value(i) as i64));
    Ok(series)
}

/// The price of the last trade at each bar.
pub fn historical_price(position: &Vec<i64>, open: &Vec<i64>) -> (series: Result<Vec<i64>, Error>)
    ensures
        yields(series, historical_prices(position@, open@)),
{
    let bars: usize = position.len();
    if open.len() != bars {
        return Err(Error::ShapeMismatch);
    }
    let mut series: Vec<i64> = Vec::new();
    let mut last: i64 = 0;
    let mut bar: usize = 0;
    while bar < bars
        invariant
            bar <= bars,
            bars == position.len(),
            bars == open.len(),
            series.len() == bar,
            last == historical_price_at(position@, open@, bar - 1),
            forall|i: int|
                0 <= i < bar ==> series[i] == #[trigger] historical_price_at(position@, open@, i),
        decreases bars - bar,
    {
        if bar > 0 {
            let bought: i128 = traded(position, open, bar);
            if bought != 0 {
                last = open[bar];
            }
        }
        series.push(last);
        bar = bar + 1;
    }
    assert(series@ =~= Seq::new(bars as nat, |i: int| historical_price_at(position@, open@, i)));
    Ok(series)
}

/// The commission recovered from the series is the commission charged.
/// At every bar after the first, [`commission_at`] is the negative of what
/// the engine charged there, [`charged_at`], provided that the net worth at
/// the open of a bar with a trade is not negative.
pub proof fn lemma_commission_is_charged(
    opens: Seq<i64>,
    orders: Seq<Order>,
    cash: i64,
    rate: u32,
    position: Seq<i64>,
    account: Seq<i64>,
    i: int,
)
    requires
        simulation(opens, orders, cash, rate) == Ok::<(Seq<i64>, Seq<i64>), Error>(
            (position, account),
        ),
        1 <= i < opens.len(),
        trades_at(opens, orders, cash, rate, i) ==> worth_before(opens, orders, cash, rate, i) >= 0,
    ensures
        commission_at(position, account, opens, i) == -charged_at(
            opens,
            orders,
            cash,
            rate,
            position,
            i,
        ),
        charged_at(opens, orders, cash, rate, position, i) >= 0,
{
    lemma_error_persists(opens, orders, cash, rate, i as nat, (opens.len() - 1) as nat);
    lemma_error_persists(opens, orders, cash, rate, (i - 1) as nat, (opens.len() - 1) as nat);
    let held = state_at(opens, orders, cash, rate, (i - 1) as nat)->Ok_0;
    let open = opens[i] as int;
    assert((position[i] - position[i - 1]) * open == position[i] * open - position[i - 1] * open)
        by (nonlinear_arith);
    if trades_at(opens, orders, cash, rate, i) {
        lemma_trade_costs_commission(held, orders[i - 1], open, rate as int);
        lemma_commission_bounds(position[i - 1] * open, rate as int);
        lemma_commission_bounds(position[i] * open, rate as int);
    }
}

} // verus!
