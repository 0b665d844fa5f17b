use rs_backtester::arith::RATE_SCALE;
use rs_backtester::engine::{execute, simulate, stance_of, Holding, Stance};
use rs_backtester::errors::Error;
use rs_backtester::orders::Order;

fn run(opens: &[i64], orders: &[Order], cash: i64, rate: u32) -> Result<(Vec<i64>, Vec<i64>), Error> {
    simulate(&opens.to_vec(), &orders.to_vec(), cash, rate)
}

#[test]
fn buy_and_keep_holding() {
    let run = run(&[100, 100, 110], &[Order::BUY, Order::BUY, Order::BUY], 1000, 0);
    assert_eq!(run, Ok((vec![0, 10, 10], vec![1000, 0, 0])));
}

#[test]
fn buy_then_liquidate() {
    let run = run(&[100, 100, 110], &[Order::BUY, Order::NULL, Order::NULL], 1000, 0);
    assert_eq!(run, Ok((vec![0, 10, 0], vec![1000, 0, 1100])));
}

#[test]
fn buy_with_one_percent_commission() {
    let run = run(&[100, 100], &[Order::BUY, Order::BUY], 1000, 10_000);
    assert_eq!(run, Ok((vec![0, 9], vec![1000, 91])));
}

#[test]
fn buy_rounds_commission_up() {
    // 141 lots at 7 cost 987; one percent of that is 9.87, charged as 10.
    let run = run(&[7, 7], &[Order::BUY, Order::BUY], 1000, 10_000);
    assert_eq!(run, Ok((vec![0, 141], vec![1000, 3])));
}

#[test]
fn short_then_liquidate_without_commission() {
    let run = run(&[100, 100, 80], &[Order::SHORTSELL, Order::NULL, Order::NULL], 1000, 0);
    assert_eq!(run, Ok((vec![0, -10, 0], vec![1000, 2000, 1200])));
}

#[test]
fn short_then_liquidate_with_commission() {
    let run = run(&[100, 100, 80], &[Order::SHORTSELL, Order::NULL, Order::NULL], 1000, 10_000);
    assert_eq!(run, Ok((vec![0, -10, 0], vec![1000, 1990, 1182])));
}

#[test]
fn reversal_unwinds_before_entering() {
    // Long 10 at 100, then short at 120: the long is worth 1200, which sells 10 lots short.
    let run = run(&[100, 100, 120], &[Order::BUY, Order::SHORTSELL, Order::NULL], 1000, 0);
    assert_eq!(run, Ok((vec![0, 10, -10], vec![1000, 0, 2400])));
}

#[test]
fn first_bar_is_flat() {
    for orders in [[Order::BUY, Order::SHORTSELL], [Order::NULL, Order::BUY], [Order::SHORTSELL, Order::NULL]] {
        let (position, account) = run(&[50, 60], &orders, 777, 2_500).unwrap();
        assert_eq!(position[0], 0);
        assert_eq!(account[0], 777);
    }
    assert_eq!(run(&[50], &[Order::BUY], 777, 0), Ok((vec![0], vec![777])));
}

#[test]
fn same_inputs_give_same_run() {
    let opens = [100, 90, 120, 80, 95];
    let orders = [Order::BUY, Order::SHORTSELL, Order::NULL, Order::BUY, Order::BUY];
    let first = run(&opens, &orders, 100_000, 1_500);
    let second = run(&opens, &orders, 100_000, 1_500);
    assert!(first.is_ok());
    assert_eq!(first, second);
}

#[test]
fn value_is_conserved_without_commission() {
    let opens = [100, 90, 120, 80, 95, 101];
    let orders = [Order::BUY, Order::SHORTSELL, Order::SHORTSELL, Order::NULL, Order::BUY, Order::NULL];
    let (position, account) = run(&opens, &orders, 100_000, 0).unwrap();
    for i in 1..opens.len() {
        assert_eq!(
            account[i] as i128 + position[i] as i128 * opens[i] as i128,
            account[i - 1] as i128 + position[i - 1] as i128 * opens[i] as i128
        );
    }
}

#[test]
fn all_flat_changes_nothing() {
    let run = run(&[100, 0, -5, 120], &[Order::NULL; 4], 1234, 999_999);
    assert_eq!(run, Ok((vec![0; 4], vec![1234; 4])));
}

#[test]
fn holding_repeats_the_previous_bar() {
    let opens = [100, 100, 250, 3, 70];
    let orders = [Order::BUY, Order::BUY, Order::BUY, Order::SHORTSELL, Order::SHORTSELL];
    let (position, account) = run(&opens, &orders, 5_000, 20_000).unwrap();
    assert_eq!(position[2], position[1]);
    assert_eq!(account[2], account[1]);
    assert_eq!(position[3], position[1]);
    assert_eq!(account[3], account[1]);
    assert_ne!(position[4], position[3]);
}

#[test]
fn an_order_for_the_held_stance_ignores_the_price() {
    let held = Holding { stance: Stance::LONG, position: 9, account: 91 };
    assert_eq!(execute(held, Order::BUY, 0, 10_000), Ok(held));
    assert_eq!(execute(held, Order::BUY, -3, 10_000), Ok(held));
}

#[test]
fn a_buy_that_affords_nothing_still_takes_the_long_stance() {
    let held = Holding { stance: Stance::NULL, position: 0, account: 50 };
    let next = execute(held, Order::BUY, 100, 0).unwrap();
    assert_eq!(next, Holding { stance: Stance::LONG, position: 0, account: 50 });
    assert_eq!(execute(next, Order::BUY, 10, 0), Ok(next));
}

#[test]
fn lots_are_truncated_toward_zero() {
    // A short position that lost more than the account held leaves a negative net worth.
    let held = Holding { stance: Stance::SHORT, position: -10, account: 1000 };
    let next = execute(held, Order::BUY, 125, 0).unwrap();
    assert_eq!(next, Holding { stance: Stance::LONG, position: -2, account: 0 });
    let next = execute(held, Order::BUY, 126, 0).unwrap();
    assert_eq!(next, Holding { stance: Stance::LONG, position: -2, account: -8 });
}

#[test]
fn stance_of_each_order() {
    assert_eq!(stance_of(Order::BUY), Stance::LONG);
    assert_eq!(stance_of(Order::SHORTSELL), Stance::SHORT);
    assert_eq!(stance_of(Order::NULL), Stance::NULL);
}

#[test]
fn shape_mismatch_is_refused() {
    assert_eq!(run(&[100, 100, 110], &[Order::BUY, Order::BUY], 1000, 0), Err(Error::ShapeMismatch));
    assert_eq!(run(&[100], &[], 1000, 0), Err(Error::ShapeMismatch));
    assert_eq!(run(&[100], &[Order::NULL, Order::NULL], 1000, 0), Err(Error::ShapeMismatch));
}

#[test]
fn shape_mismatch_comes_before_the_rate() {
    assert_eq!(run(&[100, 100], &[Order::BUY], 1000, RATE_SCALE), Err(Error::ShapeMismatch));
}

#[test]
fn commission_rate_must_be_below_one() {
    assert_eq!(run(&[100, 100], &[Order::BUY, Order::BUY], 1000, RATE_SCALE), Err(Error::InvalidCommissionRate));
    assert_eq!(run(&[100, 100], &[Order::NULL, Order::NULL], 1000, u32::MAX), Err(Error::InvalidCommissionRate));
    assert!(run(&[100, 100], &[Order::BUY, Order::BUY], 1000, RATE_SCALE - 1).is_ok());
}

#[test]
fn trade_at_a_price_that_is_not_positive_is_refused() {
    assert_eq!(run(&[100, 0], &[Order::BUY, Order::BUY], 1000, 0), Err(Error::NonPositivePrice));
    assert_eq!(run(&[100, -1], &[Order::SHORTSELL, Order::BUY], 1000, 0), Err(Error::NonPositivePrice));
    assert_eq!(run(&[100, 100, 0], &[Order::BUY, Order::NULL, Order::NULL], 1000, 0), Err(Error::NonPositivePrice));
    // The first bar's price is never traded at, nor is the price of a bar that only holds.
    assert_eq!(run(&[0, 100, 0], &[Order::BUY, Order::BUY, Order::BUY], 1000, 0), Ok((vec![0, 10, 10], vec![1000, 0, 0])));
}

#[test]
fn net_worth_out_of_range_is_refused() {
    let run = run(&[1, 1, 2], &[Order::BUY, Order::NULL, Order::NULL], i64::MAX, 0);
    assert_eq!(run, Err(Error::Overflow));
}

#[test]
fn short_lots_out_of_range_are_refused() {
    let run = run(&[1, 1], &[Order::SHORTSELL, Order::NULL], i64::MAX, RATE_SCALE - 1);
    assert_eq!(run, Err(Error::Overflow));
}

#[test]
fn short_balance_out_of_range_is_refused() {
    let run = run(&[1, 1], &[Order::SHORTSELL, Order::NULL], i64::MAX, 0);
    assert_eq!(run, Err(Error::Overflow));
}

#[test]
fn largest_buy_fits() {
    let run = run(&[1, 1], &[Order::BUY, Order::NULL], i64::MAX, 0);
    assert_eq!(run, Ok((vec![0, i64::MAX], vec![i64::MAX, 0])));
}

#[test]
fn error_messages_differ() {
    let all = [
        Error::ShapeMismatch,
        Error::NonPositivePrice,
        Error::Overflow,
        Error::InvalidCommissionRate,
        Error::InvalidTimestamp,
    ];
    for (i, a) in all.iter().enumerate() {
        assert!(!a.message().is_empty());
        for b in &all[i + 1..] {
            assert_ne!(a.message(), b.message());
        }
    }
    assert_eq!(Error::ShapeMismatch.message(), "series differ in length");
}

#[test]
fn order_names_and_inverses() {
    assert_eq!(Order::BUY.to_string(), "BUY");
    assert_eq!(Order::SHORTSELL.to_string(), "SHORTSELL");
    assert_eq!(Order::NULL.to_string(), "NULL");
    assert_eq!(Order::BUY.inverted(), Order::SHORTSELL);
    assert_eq!(Order::SHORTSELL.inverted(), Order::BUY);
    assert_eq!(Order::NULL.inverted(), Order::NULL);
}
