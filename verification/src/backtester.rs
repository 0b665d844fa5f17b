//! A backtest: a price series, a strategy, and the position and account
//! series that simulating the strategy on the prices gives.

use crate::arith::RATE_SCALE;
use crate::datas::Data;
use crate::datas::DataView;
use crate::engine::simulate;
use crate::engine::simulation;
use crate::errors::Error;
use crate::orders::Order;
use crate::strategies::Strategy;
use crate::strategies::StrategyView;
use vstd::prelude::*;

verus! {

/// The commission scheme: one proportional rate, charged on the notional
/// value of every trade, long or short, opening or closing. The rate is
/// given in parts per `RATE_SCALE`.
#[derive(Clone, Copy, Debug, PartialEq, Eq, Structural)]
pub struct Commission {
    pub rate: u32,
}

impl Default for Commission {
    /// No commission.
    fn default() -> (scheme: Self)
        ensures
            scheme.rate == 0,
    {
        Commission { rate: 0 }
    }
}

/// A series of a backtest that can be asked for by name when logging.
#[derive(Clone, Copy, Debug, PartialEq, Eq, Structural)]
pub enum LogField {
    /// The closing price.
    Close,
    /// The opening price.
    Open,
    /// The lowest price.
    Low,
    /// The highest price.
    High,
    /// The position held after the bar.
    Position,
    /// The cash balance after the bar.
    Account,
    /// The strategy's first two indicator traces.
    Indicator,
}

impl LogField {
    /// The field that `name` asks for, if it names one.
    pub open spec fn named(name: Seq<char>) -> Option<LogField> {
        if name == "close"@ {
            Some(LogField::Close)
        } else if name == "open"@ {
            Some(LogField::Open)
        } else if name == "low"@ {
            Some(LogField::Low)
        } else if name == "high"@ {
            Some(LogField::High)
        } else if name == "position"@ {
            Some(LogField::Position)
        } else if name == "account"@ {
            Some(LogField::Account)
        } else if name == "indicator"@ {
            Some(LogField::Indicator)
        } else {
            None
        }
    }

    /// The field that `name` asks for: one of `close`, `open`, `low`,
    /// `high`, `position`, `account` and `indicator`. Any other name asks
    /// for nothing.
    pub fn from_name(name: &str) -> (field: Option<LogField>)
        ensures
            field == LogField::named(name@),
    {
        if same_text(name, "close") {
            Some(LogField::Close)
        } else if same_text(name, "open") {
            Some(LogField::Open)
        } else if same_text(name, "low") {
            Some(LogField::Low)
        } else if same_text(name, "high") {
            Some(LogField::High)
        } else if same_text(name, "position") {
            Some(LogField::Position)
        } else if same_text(name, "account") {
            Some(LogField::Account)
        } else if same_text(name, "indicator") {
            Some(LogField::Indicator)
        } else {
            None
        }
    }
}

/// Whether two texts are the same.
fn same_text(left: &str, right: &str) -> (same: bool)
    ensures
        same == (left@ == right@),
{
    let left: String = left.to_owned();
    let right: String = right.to_owned();
    left == right
}

/// A computed backtest. Make one with [`Backtest::new`].
pub struct Backtest {
    quotes: Data,
    strategy: Strategy,
    position: Vec<i64>,
    account: Vec<i64>,
    commission: Commission,
}

/// What a [`Backtest`] holds, as mathematical values.
pub struct BacktestView {
    pub quotes: DataView,
    pub strategy: StrategyView,
    pub position: Seq<i64>,
    pub account: Seq<i64>,
    pub commission: Commission,
}

impl View for Backtest {
    type V = BacktestView;

    closed spec fn view(&self) -> BacktestView {
        BacktestView {
            quotes: self.quotes@,
            strategy: self.strategy@,
            position: self.position@,
            account: self.account@,
            commission: self.commission,
        }
    }
}

impl Clone for Backtest {
    fn clone(&self) -> (copy: Self)
        ensures
            copy@ == self@,
    {
        Backtest {
            quotes: self.quotes.clone(),
            strategy: self.strategy.clone(),
            position: self.position.clone(),
            account: self.account.clone(),
            commission: self.commission,
        }
    }
}

impl BacktestView {
    /// The number of bars.
    pub open spec fn len(self) -> nat {
        self.quotes.len()
    }

    /// The cash that the backtest started with.
    pub open spec fn cash(self) -> i64 {
        self.account[0]
    }

    /// The position and account series are the simulation of the strategy's
    /// orders on the opening prices, from the starting cash, at the
    /// commission rate; there is at least one bar and every series has one
    /// entry per bar.
    pub open spec fn simulated(self) -> bool {
        &&& self.quotes.aligned()
        &&& self.quotes.len() >= 1
        &&& self.position.len() == self.quotes.len()
        &&& self.account.len() == self.quotes.len()
        &&& self.strategy.choices.len() == self.quotes.len()
        &&& self.commission.rate < RATE_SCALE
        &&& simulation(self.quotes.open, self.strategy.choices, self.cash(), self.commission.rate)
            == Ok::<(Seq<i64>, Seq<i64>), Error>((self.position, self.account))
    }
}

impl BacktestView {
    /// The values to log for `field` at bar `bar`: the one value of a price,
    /// position or account series, and for the indicator the values of the
    /// first two traces, as far as there are traces. A trace that ends
    /// before the bar is a `ShapeMismatch`.
    pub open spec fn logged(self, field: LogField, bar: int) -> Result<Seq<i64>, Error> {
        match field {
            LogField::Close => Ok(seq![self.quotes.close[bar]]),
            LogField::Open => Ok(seq![self.quotes.open[bar]]),
            LogField::Low => Ok(seq![self.quotes.low[bar]]),
            LogField::High => Ok(seq![self.quotes.high[bar]]),
            LogField::Position => Ok(seq![self.position[bar]]),
            LogField::Account => Ok(seq![self.account[bar]]),
            LogField::Indicator => match self.strategy.indicator {
                None => Ok(seq![]),
                Some(traces) => if traces.len() == 0 {
                    Ok(seq![])
                } else if bar >= traces[0].len() {
                    Err(Error::ShapeMismatch)
                } else if traces.len() == 1 {
                    Ok(seq![traces[0][bar]])
                } else if bar >= traces[1].len() {
                    Err(Error::ShapeMismatch)
                } else {
                    Ok(seq![traces[0][bar], traces[1][bar]])
                },
            },
        }
    }
}

impl Backtest {
    /// The backtest is the simulation of its own inputs.
    pub open spec fn wf(&self) -> bool {
        self@.simulated()
    }

    /// Simulates `strategy` on `quotes`, starting with `account` in cash,
    /// and keeps the result with its inputs.
    pub fn new(quotes: Data, strategy: Strategy, account: i64, commission: Commission) -> (made:
        Result<Backtest, Error>)
        requires
            quotes.wf(),
            quotes@.len() >= 1,
        ensures
            made matches Ok(backtest) ==> {
                &&& backtest.wf()
                &&& backtest@.quotes == quotes@
                &&& backtest@.strategy == strategy@
                &&& backtest@.commission == commission
                &&& backtest@.position[0] == 0
                &&& backtest@.account[0] == account
                &&& simulation(quotes@.open, strategy@.choices, account, commission.rate) == Ok::<
                    (Seq<i64>, Seq<i64>),
                    Error,
                >((backtest@.position, backtest@.account))
            },
            made matches Err(e) ==> simulation(
                quotes@.open,
                strategy@.choices,
                account,
                commission.rate,
            ) == Err::<(Seq<i64>, Seq<i64>), Error>(e),
    {
        let opens: Vec<i64> = quotes.open();
        match simulate(&opens, &strategy.choices, account, commission.rate) {
            Ok((position, account)) => {
                let backtest = Backtest { quotes, strategy, position, account, commission };
                Ok(backtest)
            },
            Err(e) => Err(e),
        }
    }

    /// The price series.
    pub fn quotes(&self) -> (quotes: &Data)
        ensures
            quotes@ == self@.quotes,
    {
        &self.quotes
    }

    /// The order decided at each bar.
    pub fn orders(&self) -> (orders: Vec<Order>)
        ensures
            orders@ == self@.strategy.choices,
    {
        self.strategy.choices.clone()
    }

    /// The position held after each bar, in lots; negative when short.
    pub fn position(&self) -> (series: Vec<i64>)
        ensures
            series@ == self@.position,
    {
        self.position.clone()
    }

    /// The cash balance after each bar.
    pub fn account(&self) -> (series: Vec<i64>)
        ensures
            series@ == self@.account,
    {
        self.account.clone()
    }

    /// The commission rate, in parts per `RATE_SCALE`.
    pub fn commission_rate(&self) -> (rate: u32)
        ensures
            rate == self@.commission.rate,
    {
        self.commission.rate
    }

    /// The values to log for `field` at bar `bar`.
    pub fn log_values(&self, field: LogField, bar: usize) -> (values: Result<Vec<i64>, Error>)
        requires
            self.wf(),
            bar < self@.len(),
        ensures
            values matches Ok(row) ==> self@.logged(field, bar as int) == Ok::<Seq<i64>, Error>(
                row@,
            ),
            values matches Err(e) ==> self@.logged(field, bar as int) == Err::<Seq<i64>, Error>(e),
    {
        let mut row: Vec<i64> = Vec::new();
        match field {
            LogField::Close => row.push(self.quotes.bar(bar).close),
            LogField::Open => row.push(self.quotes.bar(bar).open),
            LogField::Low => row.push(self.quotes.bar(bar).low),
            LogField::High => row.push(self.quotes.bar(bar).high),
            LogField::Position => row.push(self.position[bar]),
            LogField::Account => row.push(self.account[bar]),
            LogField::Indicator => match &self.strategy.indicator {
                None => {},
                Some(traces) => {
                    if traces.len() >= 1 {
                        if bar >= traces[0].len() {
                            return Err(Error::ShapeMismatch);
                        }
                        row.push(traces[0][bar]);
                        if traces.len() >= 2 {
                            if bar >= traces[1].len() {
                                return Err(Error::ShapeMismatch);
                            }
                            row.push(traces[1][bar]);
                        }
                    }
                },
            },
        }
        assert(self@.logged(field, bar as int) == Ok::<Seq<i64>, Error>(row@)) by {
            assert(self@.logged(field, bar as int)->Ok_0 =~= row@);
        }
        Ok(row)
    }

    /// The strategy.
    pub fn strategy(&self) -> (strategy: Strategy)
        ensures
            strategy@ == self@.strategy,
    {
        self.strategy.clone()
    }
}

} // verus!
