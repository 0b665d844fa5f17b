//! The simulation engine: how a sequence of orders becomes a position and
//! a cash balance, bar by bar.
//!
//! The order decided at bar `i - 1` is executed at the opening price of bar
//! `i`. An order that asks for the stance already held changes nothing. Any
//! other order first unwinds the holding at the opening price, paying
//! commission on its notional value, and then enters the new stance with as
//! many whole lots as that net worth pays for.

use crate::arith::commission;
use crate::arith::commission_on;
use crate::arith::fits_i64;
use crate::arith::floor_div;
use crate::arith::lemma_commission_bounds;
use crate::arith::lemma_toward_zero;
use crate::arith::magnitude;
use crate::arith::product;
use crate::arith::toward_zero;
use crate::arith::trunc_div;
use crate::arith::RATE_SCALE;
use crate::errors::Error;
use crate::orders::Order;
use vstd::prelude::*;

verus! {

/// The direction of the holding that the engine carries from bar to bar.
#[allow(clippy::upper_case_acronyms)]
#[derive(Clone, Copy, Debug, PartialEq, Eq, Structural)]
pub enum Stance {
    /// The last executed order was a buy.
    LONG,
    /// Nothing is held: no order was executed yet, or the last one
    /// liquidated.
    NULL,
    /// The last executed order was a short sale.
    SHORT,
}

/// The engine's state after a bar: the stance, the signed number of lots
/// held and the cash balance.
#[derive(Clone, Copy, Debug, PartialEq, Eq, Structural)]
pub struct Holding {
    pub stance: Stance,
    pub position: i64,
    pub account: i64,
}

/// The stance that an order asks for.
pub open spec fn stance_for(order: Order) -> Stance {
    match order {
        Order::BUY => Stance::LONG,
        Order::SHORTSELL => Stance::SHORT,
        Order::NULL => Stance::NULL,
    }
}

/// The state at the first bar: nothing held, and all of the starting cash.
pub open spec fn opening(cash: i64) -> Holding {
    Holding { stance: Stance::NULL, position: 0, account: cash }
}

/// The cash that the holding is worth at `open`, after commission on its
/// notional value: `account + position * open * (1 - sign(position) * r)`
/// for the rate `r = rate / RATE_SCALE`, rounded down.
pub open spec fn worth_at_open(position: int, account: int, open: int, rate: int) -> int {
    account + position * open - commission_on(position * open, rate)
}

/// What one lot costs on entry, times `RATE_SCALE`: the opening price
/// raised by the rate for a buy, lowered by it for a short sale.
pub open spec fn lot_cost(order: Order, open: int, rate: int) -> int {
    match order {
        Order::BUY => open * (RATE_SCALE + rate),
        Order::SHORTSELL => open * (RATE_SCALE - rate),
        Order::NULL => open * RATE_SCALE,
    }
}

/// The position that `order` leaves when `worth` is available at `open`:
/// `worth / (open * (1 + r))` lots for a buy and `worth / (open * (1 - r))`
/// lots sold for a short sale, fractions of a lot dropped.
pub open spec fn position_after(order: Order, worth: int, open: int, rate: int) -> int {
    let lots = toward_zero(worth * RATE_SCALE, lot_cost(order, open, rate));
    match order {
        Order::BUY => lots,
        Order::SHORTSELL => -lots,
        Order::NULL => 0,
    }
}

/// The cash that `order` leaves: `worth - position * open * (1 + r)` after
/// a buy, `worth - position * open * (1 - r)` after a short sale, rounded
/// down, and all of `worth` after a liquidation.
pub open spec fn account_after(order: Order, worth: int, open: int, rate: int) -> int {
    let position = position_after(order, worth, open, rate);
    match order {
        Order::NULL => worth,
        _ => (worth * RATE_SCALE - position * lot_cost(order, open, rate)) / (RATE_SCALE as int),
    }
}

/// One bar of the simulation: the state that `order`, executed at `open`,
/// makes of `held`.
///
/// An order for the stance already held is not executed. Otherwise the bar
/// is refused when `open` is not positive, and when the net worth at open,
/// the new position or the new balance does not fit in an `i64`.
pub open spec fn step(held: Holding, order: Order, open: i64, rate: u32) -> Result<Holding, Error> {
    if stance_for(order) == held.stance {
        Ok(held)
    } else if open <= 0 {
        Err(Error::NonPositivePrice)
    } else {
        let worth = worth_at_open(held.position as int, held.account as int, open as int, rate as int);
        let position = position_after(order, worth, open as int, rate as int);
        let account = account_after(order, worth, open as int, rate as int);
        if fits_i64(worth) && fits_i64(position) && fits_i64(account) {
            Ok(Holding { stance: stance_for(order), position: position as i64, account: account as i64 })
        } else {
            Err(Error::Overflow)
        }
    }
}

/// See [`stance_for`].
pub fn stance_of(order: Order) -> (stance: Stance)
    ensures
        stance == stance_for(order),
{
    match order {
        Order::BUY => Stance::LONG,
        Order::SHORTSELL => Stance::SHORT,
        Order::NULL => Stance::NULL,
    }
}

/// Executes `order` at the opening price `open` on the holding `held`.
///
/// The result is [`step`]: the holding itself when it already has the
/// stance that the order asks for; otherwise `NonPositivePrice` when `open`
/// is not positive, `Overflow` when an amount leaves the range of an
/// `i64`, and else the new holding.
pub fn execute(held: Holding, order: Order, open: i64, rate: u32) -> (next: Result<Holding, Error>)
    requires
        rate < RATE_SCALE,
    ensures
        next == step(held, order, open, rate),
{
    let stance = stance_of(order);
    if stance == held.stance {
        return Ok(held);
    }
    if open <= 0 {
        return Err(Error::NonPositivePrice);
    }
    let notional: i128 = product(held.position, open);
    let fee: i128 = commission(notional, rate);
    let value: i128 = notional - fee;
    if value > 0x1_0000_0000_0000_0000 || value < -0x1_0000_0000_0000_0000 {
        return Err(Error::Overflow);
    }
    let worth: i128 = held.account as i128 + value;
    if worth > i64::MAX as i128 || worth < i64::MIN as i128 {
        return Err(Error::Overflow);
    }
    let scale: i128 = RATE_SCALE as i128;
    let funds: i128 = worth * scale;
    match order {
        Order::NULL => {
            Ok(Holding { stance, position: 0, account: worth as i64 })
        },
        Order::BUY => {
            let factor: i128 = scale + rate as i128;
            assert(scale <= open * factor <= 0x8000_0000_0000_0000 * 2_000_000) by (nonlinear_arith)
                requires
                    1 <= open <= 0x8000_0000_0000_0000,
                    scale == 1_000_000,
                    scale <= factor <= 2_000_000,
            ;
            let cost: i128 = open as i128 * factor;
            let lots: i128 = trunc_div(funds, cost);
            proof {
                lemma_long_entry(worth as int, open as int, rate as int);
            }
            let rest: i128 = funds - lots * cost;
            let account: i128 = floor_div(rest, scale);
            Ok(Holding { stance, position: lots as i64, account: account as i64 })
        },
        Order::SHORTSELL => {
            let factor: i128 = scale - rate as i128;
            assert(1 <= open * factor <= 0x8000_0000_0000_0000 * 1_000_000) by (nonlinear_arith)
                requires
                    1 <= open <= 0x8000_0000_0000_0000,
                    1 <= factor <= 1_000_000,
            ;
            let cost: i128 = open as i128 * factor;
            let lots: i128 = trunc_div(funds, cost);
            proof {
                lemma_toward_zero(funds as int, cost as int);
            }
            if lots > 0x8000_0000_0000_0000 || lots < -0x7fff_ffff_ffff_ffff {
                return Err(Error::Overflow);
            }
            let position: i128 = -lots;
            assert(position * cost == -(lots * cost)) by (nonlinear_arith)
                requires
                    position == -lots,
            ;
            let rest: i128 = funds + lots * cost;
            let account: i128 = floor_div(rest, scale);
            if account > i64::MAX as i128 || account < i64::MIN as i128 {
                return Err(Error::Overflow);
            }
            Ok(Holding { stance, position: position as i64, account: account as i64 })
        },
    }
}

/// A buy at a positive price never runs out of range: the lots bought and
/// the cash left both lie between zero and the net worth that paid for
/// them. When that net worth is not negative, the lots are the most that
/// it pays for, commission included: one lot more would cost more than
/// there is.
pub proof fn lemma_long_entry(worth: int, open: int, rate: int)
    requires
        open >= 1,
        0 <= rate < RATE_SCALE,
    ensures
        ({
            let position = position_after(Order::BUY, worth, open, rate);
            let account = account_after(Order::BUY, worth, open, rate);
            let cost = lot_cost(Order::BUY, open, rate);
            &&& magnitude(position) <= magnitude(worth)
            &&& magnitude(position * cost) <= magnitude(worth * RATE_SCALE)
            &&& worth >= 0 ==> 0 <= position && 0 <= account <= worth
            &&& worth >= 0 ==> position * cost <= worth * RATE_SCALE < (position + 1) * cost
            &&& worth <= 0 ==> position <= 0 && worth <= account <= 0
        }),
{
    let cost = lot_cost(Order::BUY, open, rate);
    let funds = worth * RATE_SCALE;
    assert(cost >= RATE_SCALE) by (nonlinear_arith)
        requires
            cost == open * (RATE_SCALE + rate),
            open >= 1,
            rate >= 0,
    ;
    lemma_toward_zero(funds, cost);
    let lots = toward_zero(funds, cost);
    let rest = funds - lots * cost;
    assert((lots + 1) * cost == lots * cost + cost) by (nonlinear_arith);
    if worth >= 0 {
        assert(lots * RATE_SCALE <= lots * cost) by (nonlinear_arith)
            requires
                lots >= 0,
                cost >= RATE_SCALE,
        ;
        assert(0 <= rest <= funds);
    } else {
        assert(lots * RATE_SCALE >= lots * cost) by (nonlinear_arith)
            requires
                lots <= 0,
                cost >= RATE_SCALE,
        ;
        assert(funds <= rest <= 0);
    }
}

/// The engine's state after bar `bar`, or the error that stopped the run
/// at or before it. Bar 0 holds nothing and all the cash; the order of bar
/// `bar - 1` is executed at the opening price of bar `bar`.
pub open spec fn state_at(
    opens: Seq<i64>,
    orders: Seq<Order>,
    cash: i64,
    rate: u32,
    bar: nat,
) -> Result<Holding, Error>
    decreases bar,
{
    if bar == 0 {
        Ok(opening(cash))
    } else {
        match state_at(opens, orders, cash, rate, (bar - 1) as nat) {
            Ok(held) => step(held, orders[bar - 1], opens[bar as int], rate),
            Err(e) => Err(e),
        }
    }
}

/// The position held after each of the first `bars` bars of a run that
/// reaches them.
pub open spec fn positions(
    opens: Seq<i64>,
    orders: Seq<Order>,
    cash: i64,
    rate: u32,
    bars: nat,
) -> Seq<i64> {
    Seq::new(bars, |i: int| state_at(opens, orders, cash, rate, i as nat)->Ok_0.position)
}

/// The cash balance after each of the first `bars` bars of a run that
/// reaches them.
pub open spec fn accounts(
    opens: Seq<i64>,
    orders: Seq<Order>,
    cash: i64,
    rate: u32,
    bars: nat,
) -> Seq<i64> {
    Seq::new(bars, |i: int| state_at(opens, orders, cash, rate, i as nat)->Ok_0.account)
}

/// The whole simulation: the position and account series of a run over all
/// bars, or the reason why there is none.
///
/// The orders must be as many as the bars and the rate must be below
/// `RATE_SCALE`; after that the first bar that cannot be executed decides
/// the error.
pub open spec fn simulation(opens: Seq<i64>, orders: Seq<Order>, cash: i64, rate: u32) -> Result<
    (Seq<i64>, Seq<i64>),
    Error,
> {
    if orders.len() != opens.len() {
        Err(Error::ShapeMismatch)
    } else if rate >= RATE_SCALE {
        Err(Error::InvalidCommissionRate)
    } else {
        match state_at(opens, orders, cash, rate, (opens.len() - 1) as nat) {
            Ok(_) => Ok(
                (
                    positions(opens, orders, cash, rate, opens.len()),
                    accounts(opens, orders, cash, rate, opens.len()),
                ),
            ),
            Err(e) => Err(e),
        }
    }
}

/// An error, once met, is the outcome of every later bar; so a run that
/// reaches a bar has reached every bar before it.
pub proof fn lemma_error_persists(
    opens: Seq<i64>,
    orders: Seq<Order>,
    cash: i64,
    rate: u32,
    early: nat,
    late: nat,
)
    requires
        early <= late,
    ensures
        state_at(opens, orders, cash, rate, early) is Err ==> state_at(
            opens,
            orders,
            cash,
            rate,
            late,
        ) == state_at(opens, orders, cash, rate, early),
        state_at(opens, orders, cash, rate, late) is Ok ==> state_at(
            opens,
            orders,
            cash,
            rate,
            early,
        ) is Ok,
    decreases late,
{
    if early < late {
        lemma_error_persists(opens, orders, cash, rate, early, (late - 1) as nat);
    }
}

/// `run` is what a simulation with the given outcome returns: the two
/// series of a run that went through, or the error of one that did not.
pub open spec fn reports(
    run: Result<(Vec<i64>, Vec<i64>), Error>,
    outcome: Result<(Seq<i64>, Seq<i64>), Error>,
) -> bool {
    match (run, outcome) {
        (Ok(series), Ok(model)) => series.0@ == model.0 && series.1@ == model.1,
        (Err(e), Err(f)) => e == f,
        _ => false,
    }
}

/// Runs the simulation over all bars.
///
/// `opens` holds the opening price of each bar, `orders` the decision taken
/// at each bar, `cash` the starting balance and `rate` the commission rate
/// in parts per `RATE_SCALE`.
pub fn simulate(opens: &Vec<i64>, orders: &Vec<Order>, cash: i64, rate: u32) -> (run: Result<
    (Vec<i64>, Vec<i64>),
    Error,
>)
    requires
        opens.len() >= 1,
    ensures
        reports(run, simulation(opens@, orders@, cash, rate)),
        run matches Ok(series) ==> {
            &&& series.0@.len() == opens@.len()
            &&& series.1@.len() == opens@.len()
            &&& series.0@[0] == 0
            &&& series.1@[0] == cash
        },
{
    let bars: usize = opens.len();
    if orders.len() != bars {
        return Err(Error::ShapeMismatch);
    }
    if rate >= RATE_SCALE {
        return Err(Error::InvalidCommissionRate);
    }
    let mut held = Holding { stance: Stance::NULL, position: 0, account: cash };
    let mut position: Vec<i64> = Vec::new();
    let mut account: Vec<i64> = Vec::new();
    position.push(0);
    account.push(cash);
    let mut bar: usize = 1;
    while bar < bars
        invariant
            1 <= bar <= bars,
            bars == opens.len(),
            bars == orders.len(),
            rate < RATE_SCALE,
            position.len() == bar,
            account.len() == bar,
            state_at(opens@, orders@, cash, rate, (bar - 1) as nat) == Ok::<Holding, Error>(held),
            position@ == positions(opens@, orders@, cash, rate, bar as nat),
            account@ == accounts(opens@, orders@, cash, rate, bar as nat),
        decreases bars - bar,
    {
        match execute(held, orders[bar - 1], opens[bar], rate) {
            Ok(next) => {
                held = next;
                position.push(next.position);
                account.push(next.account);
            },
            Err(e) => {
                proof {
                    lemma_error_persists(opens@, orders@, cash, rate, bar as nat, (bars - 1) as nat);
                }
                return Err(e);
            },
        }
        bar = bar + 1;
    }
    Ok((position, account))
}

/// The simulation is a function of its inputs: two results for the same
/// bars, orders, starting cash and rate are the same error or hold the same
/// positions and balances.
pub proof fn lemma_same_inputs_same_run(
    first: Result<(Vec<i64>, Vec<i64>), Error>,
    second: Result<(Vec<i64>, Vec<i64>), Error>,
    opens: Seq<i64>,
    orders: Seq<Order>,
    cash: i64,
    rate: u32,
)
    requires
        reports(first, simulation(opens, orders, cash, rate)),
        reports(second, simulation(opens, orders, cash, rate)),
    ensures
        first is Ok <==> second is Ok,
        first matches Err(e) ==> second == Err::<(Vec<i64>, Vec<i64>), Error>(e),
        first matches Ok(a) ==> second matches Ok(b) && a.0@ == b.0@ && a.1@ == b.1@,
{
}

/// A run with a valid shape and rate starts with no position and with all
/// of the starting cash.
pub proof fn lemma_first_bar(opens: Seq<i64>, orders: Seq<Order>, cash: i64, rate: u32)
    requires
        opens.len() >= 1,
        simulation(opens, orders, cash, rate) is Ok,
    ensures
        simulation(opens, orders, cash, rate)->Ok_0.0[0] == 0,
        simulation(opens, orders, cash, rate)->Ok_0.1[0] == cash,
{
}

/// At a zero commission rate a bar neither creates nor destroys value:
/// valued at the bar's opening price, the holding after the bar is worth
/// what the holding before it was.
pub proof fn lemma_value_conserved(opens: Seq<i64>, orders: Seq<Order>, cash: i64, bar: nat)
    requires
        bar >= 1,
        state_at(opens, orders, cash, 0, bar) is Ok,
    ensures
        ({
            let before = state_at(opens, orders, cash, 0, (bar - 1) as nat)->Ok_0;
            let after = state_at(opens, orders, cash, 0, bar)->Ok_0;
            let open = opens[bar as int];
            after.account + after.position * open == before.account + before.position * open
        }),
{
    let before = state_at(opens, orders, cash, 0, (bar - 1) as nat)->Ok_0;
    let order = orders[bar - 1];
    let open = opens[bar as int] as int;
    if stance_for(order) != before.stance {
        let scale = RATE_SCALE as int;
        let worth = worth_at_open(before.position as int, before.account as int, open, 0);
        lemma_commission_bounds(before.position * open, 0);
        let position = position_after(order, worth, open, 0);
        let account = account_after(order, worth, open, 0);
        assert(position * (open * scale) == (position * open) * scale) by (nonlinear_arith);
        assert(0 * open == 0) by (nonlinear_arith);
    }
}

/// The same for the series of a whole run: at a zero commission rate,
/// `account[i] + position[i] * open[i]` equals
/// `account[i - 1] + position[i - 1] * open[i]` at every bar after the
/// first, whether the stance changed there or not.
pub proof fn lemma_series_conserve_value(
    opens: Seq<i64>,
    orders: Seq<Order>,
    cash: i64,
    position: Seq<i64>,
    account: Seq<i64>,
    i: int,
)
    requires
        simulation(opens, orders, cash, 0) == Ok::<(Seq<i64>, Seq<i64>), Error>(
            (position, account),
        ),
        1 <= i < opens.len(),
    ensures
        account[i] + position[i] * opens[i] == account[i - 1] + position[i - 1] * opens[i],
{
    lemma_error_persists(opens, orders, cash, 0, i as nat, (opens.len() - 1) as nat);
    lemma_value_conserved(opens, orders, cash, i as nat);
}

/// Orders that all ask to hold nothing leave the holding as it began:
/// no position, and the starting cash, at every bar.
pub proof fn lemma_all_flat(opens: Seq<i64>, orders: Seq<Order>, cash: i64, rate: u32, bar: nat)
    requires
        forall|i: int| 0 <= i < bar ==> orders[i] == Order::NULL,
    ensures
        state_at(opens, orders, cash, rate, bar) == Ok::<Holding, Error>(opening(cash)),
    decreases bar,
{
    if bar > 0 {
        lemma_all_flat(opens, orders, cash, rate, (bar - 1) as nat);
    }
}

/// The series of a run whose orders all ask to hold nothing: the position
/// is zero and the account is the starting cash throughout.
pub proof fn lemma_all_flat_series(opens: Seq<i64>, orders: Seq<Order>, cash: i64, rate: u32)
    requires
        opens.len() >= 1,
        orders.len() == opens.len(),
        rate < RATE_SCALE,
        forall|i: int| 0 <= i < orders.len() ==> orders[i] == Order::NULL,
    ensures
        simulation(opens, orders, cash, rate) is Ok,
        forall|i: int|
            0 <= i < opens.len() ==> simulation(opens, orders, cash, rate)->Ok_0.0[i] == 0,
        forall|i: int|
            0 <= i < opens.len() ==> simulation(opens, orders, cash, rate)->Ok_0.1[i] == cash,
{
    lemma_all_flat(opens, orders, cash, rate, (opens.len() - 1) as nat);
    assert forall|i: int| 0 <= i < opens.len() implies #[trigger] positions(
        opens,
        orders,
        cash,
        rate,
        opens.len(),
    )[i] == 0 by {
        lemma_all_flat(opens, orders, cash, rate, i as nat);
    }
    assert forall|i: int| 0 <= i < opens.len() implies #[trigger] accounts(
        opens,
        orders,
        cash,
        rate,
        opens.len(),
    )[i] == cash by {
        lemma_all_flat(opens, orders, cash, rate, i as nat);
    }
}

/// An order for the stance already held changes neither the position nor
/// the account, whatever the price.
pub proof fn lemma_hold(opens: Seq<i64>, orders: Seq<Order>, cash: i64, rate: u32, bar: nat)
    requires
        bar >= 1,
        state_at(opens, orders, cash, rate, (bar - 1) as nat) matches Ok(held) && stance_for(
            orders[bar - 1],
        ) == held.stance,
    ensures
        state_at(opens, orders, cash, rate, bar) == state_at(
            opens,
            orders,
            cash,
            rate,
            (bar - 1) as nat,
        ),
{
}

/// The same for the series of a whole run: where the order of bar `i - 1`
/// asks for the stance that the engine holds after that bar, bar `i`
/// repeats the position and the account of bar `i - 1`.
pub proof fn lemma_series_hold(
    opens: Seq<i64>,
    orders: Seq<Order>,
    cash: i64,
    rate: u32,
    position: Seq<i64>,
    account: Seq<i64>,
    i: int,
)
    requires
        simulation(opens, orders, cash, rate) == Ok::<(Seq<i64>, Seq<i64>), Error>(
            (position, account),
        ),
        1 <= i < opens.len(),
        stance_for(orders[i - 1]) == state_at(opens, orders, cash, rate, (i - 1) as nat)->Ok_0.stance,
    ensures
        position[i] == position[i - 1],
        account[i] == account[i - 1],
{
    lemma_error_persists(opens, orders, cash, rate, (i - 1) as nat, (opens.len() - 1) as nat);
}

/// The formula behind [`worth_at_open`]: at a positive price the net worth
/// at open is `account + position * open * (1 - sign(position) * r)` for
/// `r = rate / RATE_SCALE`, rounded down to a whole unit.
pub proof fn lemma_worth_formula(position: int, account: int, open: int, rate: int)
    requires
        open > 0,
        0 <= rate < RATE_SCALE,
    ensures
        ({
            let sign: int = if position > 0 {
                1
            } else if position < 0 {
                -1
            } else {
                0
            };
            worth_at_open(position, account, open, rate) == (account * RATE_SCALE + position * open
                * (RATE_SCALE - sign * rate)) / (RATE_SCALE as int)
        }),
{
    let scale = RATE_SCALE as int;
    let sign: int = if position > 0 {
        1
    } else if position < 0 {
        -1
    } else {
        0
    };
    let notional = position * open;
    let size = magnitude(notional);
    let fee = size * rate;
    assert(sign * notional == size && (position == 0 ==> notional == 0)) by (nonlinear_arith)
        requires
            open > 0,
            notional == position * open,
            size == magnitude(notional),
            sign == if position > 0 {
                1int
            } else if position < 0 {
                -1int
            } else {
                0int
            },
    ;
    assert(notional * (scale - sign * rate) == notional * scale - (sign * notional) * rate)
        by (nonlinear_arith);
    assert(0 <= fee) by (nonlinear_arith)
        requires
            fee == size * rate,
            0 <= size,
            0 <= rate,
    ;
}

/// What a trade costs. When the net worth at open is not negative, the new
/// holding, valued at the opening price, is worth exactly that net worth
/// less the commission on the new position's notional value; and the net
/// worth at open is the old holding's value less the commission on its
/// notional. So a trade destroys no value but the two commissions.
pub proof fn lemma_trade_costs_commission(held: Holding, order: Order, open: int, rate: int)
    requires
        open > 0,
        0 <= rate < RATE_SCALE,
        worth_at_open(held.position as int, held.account as int, open, rate) >= 0,
    ensures
        ({
            let worth = worth_at_open(held.position as int, held.account as int, open, rate);
            let position = position_after(order, worth, open, rate);
            let account = account_after(order, worth, open, rate);
            &&& account + position * open + commission_on(position * open, rate) == worth
            &&& worth + commission_on(held.position * open, rate) == held.account + held.position
                * open
            &&& order == Order::BUY ==> position >= 0
            &&& order == Order::SHORTSELL ==> position <= 0
        }),
{
    let scale = RATE_SCALE as int;
    let worth = worth_at_open(held.position as int, held.account as int, open, rate);
    let position = position_after(order, worth, open, rate);
    let cost = lot_cost(order, open, rate);
    match order {
        Order::NULL => {
            assert(0 * open == 0) by (nonlinear_arith);
            lemma_commission_bounds(0, rate);
        },
        _ => {
            assert(cost >= 1) by (nonlinear_arith)
                requires
                    open >= 1,
                    0 <= rate < scale,
                    cost == open * (scale + rate) || cost == open * (scale - rate),
            ;
            lemma_toward_zero(worth * scale, cost);
            let lots = toward_zero(worth * scale, cost);
            let size = lots * open;
            let fee = size * rate;
            assert(0 <= size && 0 <= fee) by (nonlinear_arith)
                requires
                    size == lots * open,
                    fee == size * rate,
                    lots >= 0,
                    open > 0,
                    rate >= 0,
            ;
            assert(lots * (open * (scale + rate)) == size * scale + fee && lots * (open * (scale
                - rate)) == size * scale - fee) by (nonlinear_arith)
                requires
                    size == lots * open,
                    fee == size * rate,
            ;
            assert((-lots) * open == -size && (-lots) * cost == -(lots * cost))
                by (nonlinear_arith)
                requires
                    size == lots * open,
            ;
        },
    }
}

/// The state before bar `bar` of a run and the order executed at it make
/// a trade: the order asks for a stance that is not held.
pub open spec fn trades_at(opens: Seq<i64>, orders: Seq<Order>, cash: i64, rate: u32, bar: int) -> bool {
    stance_for(orders[bar - 1]) != state_at(opens, orders, cash, rate, (bar - 1) as nat)->Ok_0.stance
}

/// The net worth at the open of bar `bar`, from the state before it.
pub open spec fn worth_before(opens: Seq<i64>, orders: Seq<Order>, cash: i64, rate: u32, bar: int) -> int {
    let held = state_at(opens, orders, cash, rate, (bar - 1) as nat)->Ok_0;
    worth_at_open(held.position as int, held.account as int, opens[bar] as int, rate as int)
}

/// The commission that the engine charges at bar `bar`: nothing where no
/// trade takes place, and otherwise the commission on the notional value
/// of the holding that is unwound plus that on the holding that is
/// entered, both at the bar's opening price.
pub open spec fn charged_at(
    opens: Seq<i64>,
    orders: Seq<Order>,
    cash: i64,
    rate: u32,
    position: Seq<i64>,
    bar: int,
) -> int {
    if trades_at(opens, orders, cash, rate, bar) {
        commission_on(position[bar - 1] * opens[bar], rate as int) + commission_on(
            position[bar] * opens[bar],
            rate as int,
        )
    } else {
        0
    }
}

/// Whenever the engine holds the stance `NULL`, the position is zero.
pub proof fn lemma_flat_holds_nothing(
    opens: Seq<i64>,
    orders: Seq<Order>,
    cash: i64,
    rate: u32,
    bar: nat,
)
    requires
        state_at(opens, orders, cash, rate, bar) matches Ok(held) && held.stance == Stance::NULL,
    ensures
        state_at(opens, orders, cash, rate, bar)->Ok_0.position == 0,
    decreases bar,
{
    if bar > 0 {
        let before = state_at(opens, orders, cash, rate, (bar - 1) as nat);
        if stance_for(orders[bar - 1]) == before->Ok_0.stance {
            lemma_flat_holds_nothing(opens, orders, cash, rate, (bar - 1) as nat);
        }
    }
}

/// The stance shows in the sign of the position: a long stance holds no
/// short position and a short stance no long one, in every run in which
/// the net worth at the open of each bar with a trade was not negative.
/// (A position of zero goes with any stance: an entry that pays for no
/// lot still takes its stance.)
pub proof fn lemma_stance_shows_in_position(
    opens: Seq<i64>,
    orders: Seq<Order>,
    cash: i64,
    rate: u32,
    bar: nat,
)
    requires
        rate < RATE_SCALE,
        state_at(opens, orders, cash, rate, bar) is Ok,
        forall|k: int|
            1 <= k <= bar && #[trigger] trades_at(opens, orders, cash, rate, k) ==> worth_before(
                opens,
                orders,
                cash,
                rate,
                k,
            ) >= 0,
    ensures
        ({
            let held = state_at(opens, orders, cash, rate, bar)->Ok_0;
            &&& held.stance == Stance::LONG ==> held.position >= 0
            &&& held.stance == Stance::SHORT ==> held.position <= 0
            &&& held.stance == Stance::NULL ==> held.position == 0
        }),
    decreases bar,
{
    if bar > 0 {
        lemma_stance_shows_in_position(opens, orders, cash, rate, (bar - 1) as nat);
        let before = state_at(opens, orders, cash, rate, (bar - 1) as nat)->Ok_0;
        let order = orders[bar - 1];
        if stance_for(order) != before.stance {
            assert(trades_at(opens, orders, cash, rate, bar as int));
            lemma_trade_costs_commission(before, order, opens[bar as int] as int, rate as int);
        }
    }
}

/// A run that never sells short stays solvent. When the starting cash is
/// not negative and no order is a short sale, the position and the account
/// are never negative, and neither is the net worth at the open of a bar
/// with a trade.
pub proof fn lemma_long_only_stays_solvent(
    opens: Seq<i64>,
    orders: Seq<Order>,
    cash: i64,
    rate: u32,
    bar: nat,
)
    requires
        rate < RATE_SCALE,
        cash >= 0,
        state_at(opens, orders, cash, rate, bar) is Ok,
        forall|k: int| 0 <= k < bar ==> orders[k] != Order::SHORTSELL,
    ensures
        state_at(opens, orders, cash, rate, bar)->Ok_0.position >= 0,
        state_at(opens, orders, cash, rate, bar)->Ok_0.account >= 0,
        bar >= 1 && trades_at(opens, orders, cash, rate, bar as int) ==> worth_before(
            opens,
            orders,
            cash,
            rate,
            bar as int,
        ) >= 0,
    decreases bar,
{
    if bar > 0 {
        lemma_long_only_stays_solvent(opens, orders, cash, rate, (bar - 1) as nat);
        let before = state_at(opens, orders, cash, rate, (bar - 1) as nat)->Ok_0;
        let order = orders[bar - 1];
        let open = opens[bar as int] as int;
        if stance_for(order) != before.stance {
            let notional = before.position * open;
            assert(notional >= 0) by (nonlinear_arith)
                requires
                    notional == before.position * open,
                    before.position >= 0,
                    open > 0,
            ;
            lemma_commission_bounds(notional, rate as int);
            let worth = worth_at_open(before.position as int, before.account as int, open, rate as int);
            assert(worth >= 0);
            lemma_long_entry(worth, open, rate as int);
        }
    }
}

} // verus!
