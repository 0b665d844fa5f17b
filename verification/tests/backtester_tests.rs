use rs_backtester::backtester::{Backtest, Commission, LogField};
use rs_backtester::datas::Data;
use rs_backtester::errors::Error;
use rs_backtester::orders::Order;
use rs_backtester::strategies::{buy_n_hold, do_nothing, Strategy};

fn month(ticker: &str) -> Data {
    let close: Vec<i64> = (0..21).map(|day| 18_000 + 37 * day - day * day).collect();
    let open: Vec<i64> = close.iter().map(|price| price - 25).collect();
    let high: Vec<i64> = close.iter().map(|price| price + 40).collect();
    let low: Vec<i64> = close.iter().map(|price| price - 60).collect();
    let times: Vec<i64> = (0..21).map(|day| 1_700_000_000 + day * 86_400).collect();
    Data::new(ticker.to_string(), times, open, high, low, close).unwrap()
}

fn three_bars() -> Data {
    Data::new(
        "T".to_string(),
        vec![0, 86_400, 172_800],
        vec![100, 100, 110],
        vec![120, 121, 122],
        vec![90, 91, 92],
        vec![105, 106, 107],
    )
    .unwrap()
}

fn with_orders(orders: &[Order], indicator: Option<Vec<Vec<i64>>>) -> Strategy {
    Strategy { name: "given".to_string(), choices: orders.to_vec(), indicator }
}

#[test]
fn init_backtester() -> Result<(), Box<dyn std::error::Error>> {
    // One month ("1mo") of daily bars.
    let quotes = month("AAPL");
    let strategy = buy_n_hold(quotes.clone());
    let made = Backtest::new(quotes.clone(), strategy.clone(), 100000, Commission::default());
    let backtest = made.map_err(|e| e.message())?;
    // 100000 buys 5 lots at the second bar's open of 18011.
    assert_eq!(backtest.position()[0], 0);
    assert_eq!(backtest.position()[1..], vec![5; 20]);
    assert_eq!(backtest.account()[0], 100000);
    assert_eq!(backtest.account()[1..], vec![100000 - 5 * 18011; 20]);
    Ok(())
}

#[test]
fn backtest_keeps_its_inputs() {
    let strategy = with_orders(&[Order::BUY, Order::NULL, Order::NULL], None);
    let backtest = Backtest::new(three_bars(), strategy, 1000, Commission { rate: 0 }).unwrap();
    assert_eq!(backtest.position(), vec![0, 10, 0]);
    assert_eq!(backtest.account(), vec![1000, 0, 1100]);
    assert_eq!(backtest.orders(), vec![Order::BUY, Order::NULL, Order::NULL]);
    assert_eq!(backtest.commission_rate(), 0);
    assert_eq!(backtest.quotes().ticker(), "T");
    assert_eq!(backtest.quotes().open(), vec![100, 100, 110]);
    assert_eq!(backtest.strategy().name(), "given");
    assert_eq!(backtest.strategy().choices(), backtest.orders());
}

#[test]
fn backtest_with_commission() {
    let strategy = with_orders(&[Order::BUY, Order::BUY, Order::BUY], None);
    let backtest = Backtest::new(three_bars(), strategy, 1000, Commission { rate: 10_000 }).unwrap();
    assert_eq!(backtest.position(), vec![0, 9, 9]);
    assert_eq!(backtest.account(), vec![1000, 91, 91]);
    assert_eq!(backtest.commission_rate(), 10_000);
}

#[test]
fn backtest_of_doing_nothing() {
    let quotes = month("MSFT");
    let backtest = Backtest::new(quotes.clone(), do_nothing(quotes), 4321, Commission { rate: 5_000 }).unwrap();
    assert_eq!(backtest.position(), vec![0; 21]);
    assert_eq!(backtest.account(), vec![4321; 21]);
}

#[test]
fn backtest_refuses_what_the_engine_refuses() {
    let short = with_orders(&[Order::BUY, Order::NULL], None);
    assert_eq!(Backtest::new(three_bars(), short, 1000, Commission::default()).err(), Some(Error::ShapeMismatch));
    let orders = [Order::BUY, Order::NULL, Order::NULL];
    let made = Backtest::new(three_bars(), with_orders(&orders, None), 1000, Commission { rate: 1_000_000 });
    assert_eq!(made.err(), Some(Error::InvalidCommissionRate));
    let made = Backtest::new(three_bars(), with_orders(&orders, None), i64::MAX, Commission::default());
    assert_eq!(made.err(), Some(Error::Overflow));
    let free = Data::new("F".to_string(), vec![0, 1], vec![1, 0], vec![1, 1], vec![1, 1], vec![1, 1]).unwrap();
    let made = Backtest::new(free, with_orders(&[Order::SHORTSELL, Order::NULL], None), 1000, Commission::default());
    assert_eq!(made.err(), Some(Error::NonPositivePrice));
}

#[test]
fn a_copy_of_a_backtest_holds_the_same() {
    let strategy = with_orders(&[Order::SHORTSELL, Order::NULL, Order::NULL], Some(vec![vec![1, 2, 3]]));
    let backtest = Backtest::new(three_bars(), strategy, 1000, Commission { rate: 10_000 }).unwrap();
    let copy = backtest.clone();
    assert_eq!(copy.position(), backtest.position());
    assert_eq!(copy.account(), backtest.account());
    assert_eq!(copy.orders(), backtest.orders());
    assert_eq!(copy.commission_rate(), 10_000);
    assert_eq!(copy.quotes().close(), backtest.quotes().close());
    assert_eq!(copy.strategy().indicator(), Some(vec![vec![1, 2, 3]]));
}

#[test]
fn default_commission_is_zero() {
    assert_eq!(Commission::default(), Commission { rate: 0 });
}

#[test]
fn log_fields_by_name() {
    assert_eq!(LogField::from_name("close"), Some(LogField::Close));
    assert_eq!(LogField::from_name("open"), Some(LogField::Open));
    assert_eq!(LogField::from_name("low"), Some(LogField::Low));
    assert_eq!(LogField::from_name("high"), Some(LogField::High));
    assert_eq!(LogField::from_name("position"), Some(LogField::Position));
    assert_eq!(LogField::from_name("account"), Some(LogField::Account));
    assert_eq!(LogField::from_name("indicator"), Some(LogField::Indicator));
    assert_eq!(LogField::from_name("date"), None);
    assert_eq!(LogField::from_name("Close"), None);
    assert_eq!(LogField::from_name(""), None);
}

#[test]
fn log_values_of_each_field() {
    let orders = [Order::BUY, Order::NULL, Order::NULL];
    let traces = Some(vec![vec![1, 2, 3], vec![4, 5, 6], vec![7, 8, 9]]);
    let backtest = Backtest::new(three_bars(), with_orders(&orders, traces), 1000, Commission::default()).unwrap();
    assert_eq!(backtest.log_values(LogField::Close, 1), Ok(vec![106]));
    assert_eq!(backtest.log_values(LogField::Open, 2), Ok(vec![110]));
    assert_eq!(backtest.log_values(LogField::Low, 0), Ok(vec![90]));
    assert_eq!(backtest.log_values(LogField::High, 1), Ok(vec![121]));
    assert_eq!(backtest.log_values(LogField::Position, 1), Ok(vec![10]));
    assert_eq!(backtest.log_values(LogField::Account, 2), Ok(vec![1100]));
    assert_eq!(backtest.log_values(LogField::Indicator, 1), Ok(vec![2, 5]));
}

#[test]
fn log_values_of_few_or_short_traces() {
    let orders = [Order::NULL, Order::NULL, Order::NULL];
    let made = |traces| Backtest::new(three_bars(), with_orders(&orders, traces), 1000, Commission::default()).unwrap();
    assert_eq!(made(None).log_values(LogField::Indicator, 2), Ok(vec![]));
    assert_eq!(made(Some(vec![])).log_values(LogField::Indicator, 2), Ok(vec![]));
    assert_eq!(made(Some(vec![vec![1, 2, 3]])).log_values(LogField::Indicator, 2), Ok(vec![3]));
    assert_eq!(made(Some(vec![vec![1, 2]])).log_values(LogField::Indicator, 1), Ok(vec![2]));
    assert_eq!(made(Some(vec![vec![1, 2]])).log_values(LogField::Indicator, 2), Err(Error::ShapeMismatch));
    let uneven = Some(vec![vec![1, 2, 3], vec![4]]);
    assert_eq!(made(uneven.clone()).log_values(LogField::Indicator, 0), Ok(vec![1, 4]));
    assert_eq!(made(uneven).log_values(LogField::Indicator, 1), Err(Error::ShapeMismatch));
}
