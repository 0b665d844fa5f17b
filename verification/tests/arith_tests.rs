use rs_backtester::arith::{commission, floor_div, product, trunc_div, PRODUCT_LIMIT, RATE_SCALE};
use rs_backtester::engine::simulate;
use rs_backtester::orders::Order;

#[test]
fn products_are_exact() {
    assert_eq!(product(3, -4), -12);
    assert_eq!(product(i64::MAX, i64::MAX), i64::MAX as i128 * i64::MAX as i128);
    assert_eq!(product(i64::MIN, i64::MIN), PRODUCT_LIMIT);
    assert_eq!(product(i64::MIN, i64::MAX), -PRODUCT_LIMIT - i64::MIN as i128);
}

#[test]
fn division_rounds_as_named() {
    assert_eq!(trunc_div(7, 2), 3);
    assert_eq!(trunc_div(-7, 2), -3);
    assert_eq!(trunc_div(-6, 2), -3);
    assert_eq!(floor_div(7, 2), 3);
    assert_eq!(floor_div(-7, 2), -4);
    assert_eq!(floor_div(-6, 2), -3);
    assert_eq!(floor_div(-1, 1_000_000), -1);
    assert_eq!(floor_div(0, 5), 0);
    assert_eq!(floor_div(-PRODUCT_LIMIT, 1), -PRODUCT_LIMIT);
    assert_eq!(floor_div(i128::MIN, 1), i128::MIN);
    assert_eq!(floor_div(i128::MIN, 3), i128::MIN / 3 - 1);
    assert_eq!(floor_div(i128::MAX, i128::MAX), 1);
    assert_eq!(floor_div(i128::MIN, i128::MAX), -2);
}

#[test]
fn commission_is_the_rate_rounded_up() {
    assert_eq!(commission(900, 10_000), 9);
    assert_eq!(commission(987, 10_000), 10);
    assert_eq!(commission(-800, 10_000), 8);
    assert_eq!(commission(-801, 10_000), 9);
    assert_eq!(commission(1, 1), 1);
    assert_eq!(commission(1_000_000, 1), 1);
    assert_eq!(commission(1_000_001, 1), 2);
    assert_eq!(commission(0, 999_999), 0);
    assert_eq!(commission(12_345, 0), 0);
    assert_eq!(commission(100, RATE_SCALE - 1), 100);
}

#[test]
fn commission_of_the_largest_notional() {
    let half = PRODUCT_LIMIT / 2;
    assert_eq!(commission(PRODUCT_LIMIT, 500_000), half);
    assert_eq!(commission(-PRODUCT_LIMIT, 500_000), half);
    assert_eq!(commission(PRODUCT_LIMIT, RATE_SCALE - 1), PRODUCT_LIMIT - PRODUCT_LIMIT / 1_000_000);
    assert_eq!(commission(i128::MIN, 500_000), PRODUCT_LIMIT);
    assert_eq!(commission(i128::MAX, 0), 0);
    assert_eq!(commission(i128::MAX, 1), i128::MAX / 1_000_000 + 1);
}

/// The transition written with decimal numbers, as a reader would do it by hand.
fn by_hand(opens: &[i64], orders: &[Order], cash: i64, rate: f64) -> (Vec<f64>, Vec<f64>) {
    let mut position = vec![0.0; opens.len()];
    let mut account = vec![cash as f64; opens.len()];
    let mut stance = Order::NULL;
    for i in 1..opens.len() {
        let open = opens[i] as f64;
        let (p, a) = (position[i - 1], account[i - 1]);
        if orders[i - 1] == stance {
            position[i] = p;
            account[i] = a;
            continue;
        }
        let sign = if p > 0.0 { 1.0 } else if p < 0.0 { -1.0 } else { 0.0 };
        let worth = a + p * open * (1.0 - sign * rate);
        match orders[i - 1] {
            Order::BUY => {
                position[i] = (worth / (open * (1.0 + rate))).trunc();
                account[i] = worth - position[i] * open * (1.0 + rate);
            }
            Order::SHORTSELL => {
                position[i] = -(worth / (open * (1.0 - rate))).trunc();
                account[i] = worth - position[i] * open * (1.0 - rate);
            }
            Order::NULL => {
                position[i] = 0.0;
                account[i] = worth;
            }
        }
        stance = orders[i - 1];
    }
    (position, account)
}

struct Dice(u64);

impl Dice {
    fn roll(&mut self, sides: u64) -> u64 {
        self.0 = self.0.wrapping_mul(6364136223846793005).wrapping_add(1442695040888963407);
        (self.0 >> 33) % sides
    }
}

#[test]
fn agrees_with_decimal_arithmetic_without_commission() {
    let mut dice = Dice(2024);
    for _ in 0..300 {
        let bars = 2 + dice.roll(30) as usize;
        let opens: Vec<i64> = (0..bars).map(|_| 1 + dice.roll(5_000) as i64).collect();
        let orders: Vec<Order> =
            (0..bars).map(|_| [Order::BUY, Order::SHORTSELL, Order::NULL][dice.roll(3) as usize]).collect();
        let cash = 1 + dice.roll(1_000_000) as i64;
        let (position, account) = simulate(&opens, &orders, cash, 0).unwrap();
        let (by_hand_position, by_hand_account) = by_hand(&opens, &orders, cash, 0.0);
        let position: Vec<f64> = position.iter().map(|&lots| lots as f64).collect();
        let account: Vec<f64> = account.iter().map(|&units| units as f64).collect();
        assert_eq!(position, by_hand_position);
        assert_eq!(account, by_hand_account);
    }
}

#[test]
fn first_trade_agrees_with_decimal_arithmetic_with_commission() {
    let mut dice = Dice(7);
    for _ in 0..300 {
        let open = 1 + dice.roll(5_000) as i64;
        let cash = 1 + dice.roll(1_000_000) as i64;
        let parts = dice.roll(50_000) as u32;
        let order = [Order::BUY, Order::SHORTSELL][dice.roll(2) as usize];
        let (position, account) = simulate(&vec![open, open], &vec![order, order], cash, parts).unwrap();
        let (by_hand_position, by_hand_account) =
            by_hand(&[open, open], &[order, order], cash, parts as f64 / RATE_SCALE as f64);
        let lots = by_hand_position[1];
        let exact = cash as f64 / (open as f64 * (1.0 + if order == Order::BUY { 1.0 } else { -1.0 } * parts as f64 / 1e6));
        if (exact - exact.round()).abs() > 1e-6 {
            assert_eq!(position[1] as f64, lots);
            let left = by_hand_account[1];
            if (left - left.round()).abs() > 1e-6 {
                assert_eq!(account[1] as f64, left.floor());
            }
        }
    }
}
