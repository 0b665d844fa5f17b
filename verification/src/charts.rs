//! What a chart of a backtest needs to know before anything is drawn:
//! which panels to show, the range of each axis, and where a trace begins.

use crate::ta::NO_VALUE;
use vstd::prelude::*;

verus! {

/// Which optional parts of the chart are drawn.
#[allow(non_camel_case_types)]
#[derive(Clone, Copy, Debug, PartialEq, Eq, Structural)]
pub struct Plot_Config {
    display_indic: bool,
    display_networth: bool,
}

impl Default for Plot_Config {
    /// Prices and orders only.
    fn default() -> (config: Self)
        ensures
            !config.shows_indicators(),
            !config.shows_net_worth(),
    {
        Plot_Config { display_indic: false, display_networth: false }
    }
}

impl Plot_Config {
    /// The indicator traces are drawn over the prices.
    pub closed spec fn shows_indicators(&self) -> bool {
        self.display_indic
    }

    /// The net worth is drawn in a panel of its own below the prices.
    pub closed spec fn shows_net_worth(&self) -> bool {
        self.display_networth
    }

    /// A configuration that draws the given parts.
    pub fn new(display_indic: bool, display_networth: bool) -> (config: Self)
        ensures
            config.shows_indicators() == display_indic,
            config.shows_net_worth() == display_networth,
    {
        Plot_Config { display_indic, display_networth }
    }

    /// See [`Plot_Config::shows_indicators`].
    pub fn display_indic(&self) -> (shown: bool)
        ensures
            shown == self.shows_indicators(),
    {
        self.display_indic
    }

    /// See [`Plot_Config::shows_net_worth`].
    pub fn display_networth(&self) -> (shown: bool)
        ensures
            shown == self.shows_net_worth(),
    {
        self.display_networth
    }
}

/// `bound` is the least value of `series`.
pub open spec fn is_lowest(series: Seq<i64>, bound: i64) -> bool {
    &&& exists|i: int| 0 <= i < series.len() && series[i] == bound
    &&& forall|i: int| 0 <= i < series.len() ==> bound <= series[i]
}

/// `bound` is the greatest value of `series`.
pub open spec fn is_highest(series: Seq<i64>, bound: i64) -> bool {
    &&& exists|i: int| 0 <= i < series.len() && series[i] == bound
    &&& forall|i: int| 0 <= i < series.len() ==> series[i] <= bound
}

/// `x` brought into the range of an `i64`.
pub open spec fn clamped(x: int) -> int {
    if x < i64::MIN {
        i64::MIN as int
    } else if x > i64::MAX {
        i64::MAX as int
    } else {
        x
    }
}

/// `x` as the nearest `i64`.
fn saturate(x: i128) -> (near: i64)
    ensures
        near == clamped(x as int),
{
    if x < i64::MIN as i128 {
        i64::MIN
    } else if x > i64::MAX as i128 {
        i64::MAX
    } else {
        x as i64
    }
}

/// The least value of `series`, if it has any.
pub fn lowest(series: &Vec<i64>) -> (bound: Option<i64>)
    ensures
        bound is None <==> series.len() == 0,
        bound matches Some(least) ==> is_lowest(series@, least),
{
    if series.len() == 0 {
        return None;
    }
    let mut least: i64 = series[0];
    let mut at: usize = 1;
    while at < series.len()
        invariant
            1 <= at <= series.len(),
            exists|i: int| 0 <= i < at && series[i] == least,
            forall|i: int| 0 <= i < at ==> least <= series[i],
        decreases series.len() - at,
    {
        if series[at] < least {
            least = series[at];
        }
        at = at + 1;
    }
    Some(least)
}

/// The greatest value of `series`, if it has any.
pub fn highest(series: &Vec<i64>) -> (bound: Option<i64>)
    ensures
        bound is None <==> series.len() == 0,
        bound matches Some(greatest) ==> is_highest(series@, greatest),
{
    if series.len() == 0 {
        return None;
    }
    let mut greatest: i64 = series[0];
    let mut at: usize = 1;
    while at < series.len()
        invariant
            1 <= at <= series.len(),
            exists|i: int| 0 <= i < at && series[i] == greatest,
            forall|i: int| 0 <= i < at ==> series[i] <= greatest,
        decreases series.len() - at,
    {
        if series[at] > greatest {
            greatest = series[at];
        }
        at = at + 1;
    }
    Some(greatest)
}

/// The range of an axis that shows everything between the least value of
/// `low` and the greatest of `high` with `margin` to spare on both sides,
/// as far as an `i64` reaches. There is no range when either series is
/// empty.
pub fn axis_range(low: &Vec<i64>, high: &Vec<i64>, margin: i64) -> (range: Option<(i64, i64)>)
    ensures
        range is None <==> low.len() == 0 || high.len() == 0,
        range matches Some((from, to)) ==> exists|least: i64, greatest: i64|
            {
                &&& is_lowest(low@, least)
                &&& is_highest(high@, greatest)
                &&& from == clamped(least - margin)
                &&& to == clamped(greatest + margin)
            },
{
    match (lowest(low), highest(high)) {
        (Some(least), Some(greatest)) => {
            Some(
                (
                    saturate(least as i128 - margin as i128),
                    saturate(greatest as i128 + margin as i128),
                ),
            )
        },
        _ => None,
    }
}

/// The first bar at which `trace` has a value, if there is one.
pub fn first_value(trace: &Vec<i64>) -> (bar: Option<usize>)
    ensures
        bar matches Some(first) ==> first < trace.len() && trace[first as int] != NO_VALUE
            && forall|i: int| 0 <= i < first ==> trace[i] == NO_VALUE,
        bar is None ==> forall|i: int| 0 <= i < trace.len() ==> trace[i] == NO_VALUE,
{
    let mut at: usize = 0;
    while at < trace.len()
        invariant
            at <= trace.len(),
            forall|i: int| 0 <= i < at ==> trace[i] == NO_VALUE,
        decreases trace.len() - at,
    {
        if trace[at] != NO_VALUE {
            return Some(at);
        }
        at = at + 1;
    }
    None
}

} // verus!
