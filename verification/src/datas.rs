//! Market data: the price bars of one instrument.

use crate::errors::Error;
use vstd::prelude::*;

verus! {

/// All the market data of one backtest: the ticker and, bar by bar in time
/// order, the bar's time in seconds since the Unix epoch and its open,
/// high, low and close price in minor units.
pub struct Data {
    ticker: String,
    datetime: Vec<i64>,
    open: Vec<i64>,
    high: Vec<i64>,
    low: Vec<i64>,
    close: Vec<i64>,
}

/// One bar: its time in seconds since the Unix epoch and its four prices.
#[derive(Clone, Copy, Debug, PartialEq, Eq, Structural)]
pub struct Bar {
    pub timestamp: i64,
    pub open: i64,
    pub high: i64,
    pub low: i64,
    pub close: i64,
}

/// What a [`Data`] holds, as mathematical sequences.
pub struct DataView {
    pub ticker: Seq<char>,
    pub datetime: Seq<i64>,
    pub open: Seq<i64>,
    pub high: Seq<i64>,
    pub low: Seq<i64>,
    pub close: Seq<i64>,
}

/// The calendar date, in UTC, of the time `seconds` after the Unix epoch,
/// written as year, month and day with `-` between them; none where the
/// time lies outside the calendar that `chrono` covers.
pub uninterp spec fn utc_date(seconds: int) -> Option<Seq<char>>;

/// Calls `chrono::DateTime::from_timestamp` and formats what it returns
/// with `%Y-%m-%d`. The result is the date that [`utc_date`] names, and
/// there is none exactly where `from_timestamp` returns `None`.
#[verifier::external_body]
fn date_text(seconds: i64) -> (text: Option<String>)
    ensures
        text is Some <==> utc_date(seconds as int) is Some,
        text matches Some(date) ==> utc_date(seconds as int) == Some(date@),
{
    match chrono::DateTime::from_timestamp(seconds, 0) {
        Some(moment) => Some(moment.format("%Y-%m-%d").to_string()),
        None => None,
    }
}

/// The dates of a series of times: the date of each, if each has one.
pub open spec fn dated(found: Seq<Option<Seq<char>>>) -> Result<Seq<Seq<char>>, Error> {
    if forall|i: int| 0 <= i < found.len() ==> (#[trigger] found[i]) is Some {
        Ok(Seq::new(found.len(), |i: int| found[i]->Some_0))
    } else {
        Err(Error::InvalidTimestamp)
    }
}

/// The texts of `found`, as sequences.
pub open spec fn texts_of(found: Seq<Option<String>>) -> Seq<Option<Seq<char>>> {
    Seq::new(
        found.len(),
        |i: int|
            match found[i] {
                Some(text) => Some(text@),
                None => None,
            },
    )
}

/// The dates looked up for the times `datetime`.
pub open spec fn utc_dates(datetime: Seq<i64>) -> Seq<Option<Seq<char>>> {
    Seq::new(datetime.len(), |i: int| utc_date(datetime[i] as int))
}

/// Takes the dates out of `found`, or fails with `InvalidTimestamp` if one
/// of them is missing.
pub fn all_dates(found: Vec<Option<String>>) -> (dates: Result<Vec<String>, Error>)
    ensures
        dates matches Ok(texts) ==> dated(texts_of(found@)) == Ok::<Seq<Seq<char>>, Error>(
            texts.deep_view(),
        ),
        dates matches Err(e) ==> dated(texts_of(found@)) == Err::<Seq<Seq<char>>, Error>(e),
{
    let ghost model = texts_of(found@);
    let mut texts: Vec<String> = Vec::new();
    let mut at: usize = 0;
    while at < found.len()
        invariant
            at <= found.len(),
            texts.len() == at,
            model == texts_of(found@),
            forall|i: int| 0 <= i < at ==> (#[trigger] model[i]) == Some(texts[i]@),
        decreases found.len() - at,
    {
        match &found[at] {
            Some(text) => texts.push(text.clone()),
            None => {
                assert(model[at as int] is None);
                return Err(Error::InvalidTimestamp);
            },
        }
        at = at + 1;
    }
    assert(texts.deep_view() =~~= Seq::new(model.len(), |i: int| model[i]->Some_0));
    Ok(texts)
}

impl DataView {
    /// The number of bars.
    pub open spec fn len(self) -> nat {
        self.datetime.len()
    }

    /// The bar at index `i`.
    pub open spec fn bar(self, i: int) -> Bar {
        Bar {
            timestamp: self.datetime[i],
            open: self.open[i],
            high: self.high[i],
            low: self.low[i],
            close: self.close[i],
        }
    }

    /// Every series has one entry per bar.
    pub open spec fn aligned(self) -> bool {
        &&& self.open.len() == self.datetime.len()
        &&& self.high.len() == self.datetime.len()
        &&& self.low.len() == self.datetime.len()
        &&& self.close.len() == self.datetime.len()
    }
}

impl View for Data {
    type V = DataView;

    closed spec fn view(&self) -> DataView {
        DataView {
            ticker: self.ticker@,
            datetime: self.datetime@,
            open: self.open@,
            high: self.high@,
            low: self.low@,
            close: self.close@,
        }
    }
}

impl Clone for Data {
    fn clone(&self) -> (copy: Self)
        ensures
            copy@ == self@,
    {
        Data {
            ticker: self.ticker.clone(),
            datetime: self.datetime.clone(),
            open: self.open.clone(),
            high: self.high.clone(),
            low: self.low.clone(),
            close: self.close.clone(),
        }
    }
}

impl Data {
    /// The series are aligned: each has one entry per bar.
    pub open spec fn wf(&self) -> bool {
        self@.aligned()
    }

    /// Builds the data of `ticker` from its columns, which must all have
    /// the same length.
    pub fn new(
        ticker: String,
        datetime: Vec<i64>,
        open: Vec<i64>,
        high: Vec<i64>,
        low: Vec<i64>,
        close: Vec<i64>,
    ) -> (made: Result<Data, Error>)
        ensures
            made is Ok <==> open.len() == datetime.len() && high.len() == datetime.len()
                && low.len() == datetime.len() && close.len() == datetime.len(),
            made matches Ok(data) ==> data.wf() && data@ == (DataView {
                ticker: ticker@,
                datetime: datetime@,
                open: open@,
                high: high@,
                low: low@,
                close: close@,
            }),
            made matches Err(e) ==> e == Error::ShapeMismatch,
    {
        let bars: usize = datetime.len();
        if open.len() != bars || high.len() != bars || low.len() != bars || close.len() != bars {
            return Err(Error::ShapeMismatch);
        }
        Ok(Data { ticker, datetime, open, high, low, close })
    }

    /// The number of bars.
    pub fn len(&self) -> (bars: usize)
        ensures
            bars == self@.len(),
    {
        self.datetime.len()
    }

    /// The bar at index `i`.
    pub fn bar(&self, i: usize) -> (bar: Bar)
        requires
            self.wf(),
            i < self@.len(),
        ensures
            bar == self@.bar(i as int),
    {
        Bar {
            timestamp: self.datetime[i],
            open: self.open[i],
            high: self.high[i],
            low: self.low[i],
            close: self.close[i],
        }
    }

    /// The instrument's ticker.
    pub fn ticker(&self) -> (name: &str)
        ensures
            name@ == self@.ticker,
    {
        self.ticker.as_str()
    }

    /// The time of each bar, in seconds since the Unix epoch.
    pub fn timestamps(&self) -> (series: Vec<i64>)
        ensures
            series@ == self@.datetime,
    {
        self.datetime.clone()
    }

    /// The opening price of each bar.
    pub fn open(&self) -> (series: Vec<i64>)
        ensures
            series@ == self@.open,
    {
        self.open.clone()
    }

    /// The highest price of each bar.
    pub fn high(&self) -> (series: Vec<i64>)
        ensures
            series@ == self@.high,
    {
        self.high.clone()
    }

    /// The lowest price of each bar.
    pub fn low(&self) -> (series: Vec<i64>)
        ensures
            series@ == self@.low,
    {
        self.low.clone()
    }

    /// The calendar date of each bar, in UTC, or `InvalidTimestamp` if the
    /// time of a bar has none.
    pub fn dates(&self) -> (dates: Result<Vec<String>, Error>)
        ensures
            dates matches Ok(texts) ==> dated(utc_dates(self@.datetime)) == Ok::<
                Seq<Seq<char>>,
                Error,
            >(texts.deep_view()),
            dates matches Err(e) ==> dated(utc_dates(self@.datetime)) == Err::<
                Seq<Seq<char>>,
                Error,
            >(e),
    {
        let mut found: Vec<Option<String>> = Vec::new();
        let mut at: usize = 0;
        while at < self.datetime.len()
            invariant
                at <= self.datetime.len(),
                found.len() == at,
                forall|i: int|
                    0 <= i < at ==> (#[trigger] texts_of(found@)[i]) == utc_date(
                        self.datetime[i] as int,
                    ),
            decreases self.datetime.len() - at,
        {
            let ghost before = found@;
            found.push(date_text(self.datetime[at]));
            assert forall|i: int| 0 <= i < at + 1 implies (#[trigger] texts_of(found@)[i])
                == utc_date(self.datetime[i] as int) by {
                if i < at {
                    assert(texts_of(before)[i] == utc_date(self.datetime[i] as int));
                }
            }
            at = at + 1;
        }
        assert(texts_of(found@) =~= utc_dates(self@.datetime));
        all_dates(found)
    }

    /// The closing price of each bar.
    pub fn close(&self) -> (series: Vec<i64>)
        ensures
            series@ == self@.close,
    {
        self.close.clone()
    }
}

} // verus!
