use aging_sim::stats::aggregate;
use aging_sim::stats::SimError;

#[test]
fn median_of_even_count_averages_central_pair() {
    // The chosen tie convention: the median of an even-sized set is the
    // average of its two central values, held doubled to stay exact.
    let s = aggregate(&vec![10, 20, 30, 40]).expect("non-empty");
    assert_eq!(s.count, 4);
    assert_eq!(s.min, 10);
    assert_eq!(s.max, 40);
    // median = 25, the average of 20 and 30.
    assert_eq!(s.median_times_two, 50);
    assert_eq!(s.sum, 100);
    // variance = 125 exactly: variance_num / count^2 = 2000 / 16.
    assert_eq!(s.variance_num, 2000);
}

#[test]
fn median_of_odd_count_is_central_value() {
    let s = aggregate(&vec![10, 20, 30]).expect("non-empty");
    assert_eq!(s.median_times_two, 40);
    assert_eq!(s.min, 10);
    assert_eq!(s.max, 30);
    assert_eq!(s.sum, 60);
    // 3 * (100 + 400 + 900) - 60^2 = 600.
    assert_eq!(s.variance_num, 600);
}

#[test]
fn unsorted_input_is_sorted_first() {
    let shuffled = aggregate(&vec![40, 10, 30, 20]).expect("non-empty");
    let sorted = aggregate(&vec![10, 20, 30, 40]).expect("non-empty");
    assert_eq!(shuffled, sorted);
    assert_eq!(shuffled.min, 10);
    assert_eq!(shuffled.max, 40);
    assert_eq!(shuffled.median_times_two, 50);
}

#[test]
fn single_value_has_zero_spread() {
    let s = aggregate(&vec![7]).expect("non-empty");
    assert_eq!(s.count, 1);
    assert_eq!(s.min, 7);
    assert_eq!(s.max, 7);
    assert_eq!(s.median_times_two, 14);
    assert_eq!(s.sum, 7);
    assert_eq!(s.variance_num, 0);
}

#[test]
fn equal_values_have_zero_variance() {
    let s = aggregate(&vec![5, 5, 5, 5, 5]).expect("non-empty");
    assert_eq!(s.median_times_two, 10);
    assert_eq!(s.variance_num, 0);
}

#[test]
fn empty_input_is_refused() {
    assert_eq!(aggregate(&Vec::new()), Err(SimError::EmptyResultSet));
}
