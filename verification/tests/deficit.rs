use devolt::deficit::{battery_deficit_pct, DEFICIT_THRESHOLD_PCT, UNIT};

#[test]
fn deficit_of_a_fifth_and_more_reaches_the_threshold() {
    let pct = battery_deficit_pct(100 * UNIT, 79 * UNIT);
    assert_eq!(pct, 21 * UNIT);
    assert!(pct >= DEFICIT_THRESHOLD_PCT * UNIT);
    let pct = battery_deficit_pct(100 * UNIT, 80 * UNIT);
    assert_eq!(pct, 20 * UNIT);
    assert!(pct >= DEFICIT_THRESHOLD_PCT * UNIT);
}

#[test]
fn deficit_under_a_fifth_stays_below_the_threshold() {
    let pct = battery_deficit_pct(100 * UNIT, 81 * UNIT);
    assert_eq!(pct, 19 * UNIT);
    assert!(pct < DEFICIT_THRESHOLD_PCT * UNIT);
    let pct = battery_deficit_pct(100 * UNIT, 80 * UNIT + 1);
    assert_eq!(pct, 19_999_999);
    assert!(pct < DEFICIT_THRESHOLD_PCT * UNIT);
}

#[test]
fn deficit_is_a_share_of_capacity() {
    assert_eq!(battery_deficit_pct(200, 50), 75 * UNIT);
    assert_eq!(battery_deficit_pct(3, 2), 33_333_333);
    assert_eq!(battery_deficit_pct(7, 0), 100 * UNIT);
    assert_eq!(battery_deficit_pct(u64::MAX, 0), 100 * UNIT);
    assert_eq!(battery_deficit_pct(u64::MAX, u64::MAX - 1), 0);
}

#[test]
fn no_deficit_without_capacity_or_when_full() {
    assert_eq!(battery_deficit_pct(0, 0), 0);
    assert_eq!(battery_deficit_pct(0, 5), 0);
    assert_eq!(battery_deficit_pct(100, 100), 0);
    assert_eq!(battery_deficit_pct(100, 250), 0);
}
