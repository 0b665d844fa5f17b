use rs_backtester::charts::{axis_range, first_value, highest, lowest, Plot_Config};

#[test]
fn default_plot_shows_prices_only() {
    let config = Plot_Config::default();
    assert!(!config.display_indic());
    assert!(!config.display_networth());
    let config = Plot_Config::new(true, false);
    assert!(config.display_indic());
    assert!(!config.display_networth());
    let config = Plot_Config::new(false, true);
    assert!(!config.display_indic());
    assert!(config.display_networth());
}

#[test]
fn bounds_of_a_series() {
    assert_eq!(lowest(&vec![3, -7, 12, -7, 0]), Some(-7));
    assert_eq!(highest(&vec![3, -7, 12, -7, 0]), Some(12));
    assert_eq!(lowest(&vec![5]), Some(5));
    assert_eq!(highest(&vec![5]), Some(5));
    assert_eq!(lowest(&vec![]), None);
    assert_eq!(highest(&vec![]), None);
}

#[test]
fn axis_leaves_a_margin() {
    assert_eq!(axis_range(&vec![90, 80, 95], &vec![120, 140, 110], 5), Some((75, 145)));
    assert_eq!(axis_range(&vec![1000], &vec![1000], 5000), Some((-4000, 6000)));
    assert_eq!(axis_range(&vec![], &vec![1], 5), None);
    assert_eq!(axis_range(&vec![1], &vec![], 5), None);
}

#[test]
fn axis_stops_at_the_range_of_the_numbers() {
    assert_eq!(axis_range(&vec![i64::MIN + 2], &vec![i64::MAX - 2], 5), Some((i64::MIN, i64::MAX)));
    assert_eq!(axis_range(&vec![0], &vec![0], i64::MIN), Some((i64::MAX, i64::MIN)));
}

#[test]
fn a_trace_begins_at_its_first_value() {
    assert_eq!(first_value(&vec![-1, -1, 15, -1, 20]), Some(2));
    assert_eq!(first_value(&vec![0, -1]), Some(0));
    assert_eq!(first_value(&vec![-1, -1]), None);
    assert_eq!(first_value(&vec![]), None);
}
