use rfsrs::error::FsrsError;
use rfsrs::rating::Rating;
use rfsrs::report::OptimizeReport;
use rfsrs::review::Review;
use rfsrs::training::{evaluation_set, history_items, training_items, training_set};

fn review(rating: Rating, elapsed_days: u32) -> Review {
    Review { rating, elapsed_days }
}

#[test]
fn each_card_gives_its_prefixes_with_signal() {
    let items = training_items(&vec![3, 3, 3, 1, 3], &vec![0, 1, 3, 0, 0], &vec![1, 4]);
    assert_eq!(items.len(), 2);
    assert_eq!(
        items[0].reviews,
        vec![review(Rating::Good, 0), review(Rating::Good, 1)]
    );
    assert_eq!(
        items[1].reviews,
        vec![review(Rating::Good, 0), review(Rating::Good, 1), review(Rating::Good, 3)]
    );
}

#[test]
fn prefixes_before_the_first_elapsed_time_are_dropped() {
    let items = training_items(&vec![1, 2, 3, 4], &vec![0, 0, 5, 0], &vec![1]);
    assert_eq!(items.len(), 2);
    assert_eq!(items[0].reviews.len(), 3);
    assert_eq!(items[1].reviews.len(), 4);
    assert_eq!(items[1].reviews[3], review(Rating::Easy, 0));
}

#[test]
fn single_review_cards_give_nothing() {
    let items = training_items(&vec![3, 3, 3], &vec![5, 5, 5], &vec![1, 2, 3]);
    assert!(items.is_empty());
}

#[test]
fn cards_with_bounds_out_of_order_are_skipped() {
    let items = training_items(&vec![3, 3, 3, 1, 3], &vec![0, 1, 3, 0, 0], &vec![4, 1]);
    assert_eq!(items.len(), 4);
    assert_eq!(items[0].reviews.len(), 2);
    assert_eq!(items[3].reviews.len(), 5);
    assert_eq!(items[3].reviews[3], review(Rating::Again, 0));
}

#[test]
fn cards_starting_before_the_log_are_skipped() {
    let items = training_items(&vec![3, 3, 3, 1, 3], &vec![0, 1, 3, 0, 0], &vec![0, 2]);
    assert_eq!(items.len(), 3);
    assert_eq!(
        items[0].reviews,
        vec![review(Rating::Good, 1), review(Rating::Good, 3)]
    );
    let none = training_items(&vec![3, 3], &vec![0, 1], &vec![-5]);
    assert!(none.is_empty());
    let lowest = training_items(&vec![3, 3], &vec![0, 1], &vec![i32::MIN]);
    assert!(lowest.is_empty());
}

#[test]
fn cards_reaching_beyond_the_log_are_skipped() {
    let items = training_items(&vec![3, 3, 3, 1, 3], &vec![0, 1, 3, 0, 0], &vec![1, 10]);
    assert!(items.is_empty());
}

#[test]
fn no_cards_no_items() {
    assert!(training_items(&vec![3, 3], &vec![0, 2], &vec![]).is_empty());
    assert!(training_items(&vec![], &vec![], &vec![1]).is_empty());
}

#[test]
fn longer_elapsed_sequence_is_cut_to_the_ratings() {
    let items = training_items(&vec![3, 4], &vec![0, 2, 7, 7], &vec![1]);
    assert_eq!(items.len(), 1);
    assert_eq!(
        items[0].reviews,
        vec![review(Rating::Good, 0), review(Rating::Easy, 2)]
    );
}

#[test]
fn shorter_elapsed_sequence_ends_the_log() {
    let items = training_items(&vec![3, 4, 3, 3], &vec![0, 2, 1], &vec![1, 3]);
    assert_eq!(items.len(), 1);
    assert_eq!(
        items[0].reviews,
        vec![review(Rating::Good, 0), review(Rating::Easy, 2)]
    );
    let beyond = training_items(&vec![3, 4, 3, 3], &vec![0, 2], &vec![1, 4]);
    assert!(beyond.is_empty());
}

#[test]
fn history_items_are_the_prefixes_with_signal() {
    let history = vec![
        review(Rating::Good, 0),
        review(Rating::Hard, 0),
        review(Rating::Again, 6),
        review(Rating::Good, 0),
    ];
    let items = history_items(&history);
    assert_eq!(items.len(), 2);
    assert_eq!(items[0].reviews, history[0..3].to_vec());
    assert_eq!(items[1].reviews, history);
    assert!(history_items(&vec![]).is_empty());
    assert!(history_items(&vec![review(Rating::Good, 9)]).is_empty());
}

#[test]
fn every_item_is_a_trainable_prefix_of_its_card() {
    let ratings = vec![3, 1, 3, 4, 2, 3, 3, 1, 4, 4];
    let delta_ts = vec![0, 0, 2, 9, 0, 0, 0, 0, 1, 30];
    let items = training_items(&ratings, &delta_ts, &vec![1, 5, 8]);
    assert_eq!(items.len(), 4);
    let lengths: Vec<usize> = items.iter().map(|item| item.reviews.len()).collect();
    assert_eq!(lengths, vec![3, 4, 2, 3]);
    for item in items.iter() {
        assert!(item.reviews.len() >= 2);
        assert!(item.reviews.iter().any(|r| r.elapsed_days > 0));
    }
    assert_eq!(items[2].reviews, vec![review(Rating::Again, 0), review(Rating::Easy, 1)]);
}

#[test]
fn out_of_range_ratings_saturate_in_items() {
    let items = training_items(&vec![0, 9, -2], &vec![0, 2, 1], &vec![1]);
    assert_eq!(
        items[0].reviews,
        vec![review(Rating::Again, 0), review(Rating::Easy, 2)]
    );
    assert_eq!(items[1].reviews[2], review(Rating::Again, 1));
}

#[test]
fn optimize_without_elapsed_time_has_no_trainable_data() {
    let set = training_set(&vec![3, 3, 3, 3], &vec![0, 0, 0, 0], &vec![1, 3]);
    assert_eq!(set.as_ref().err(), Some(&FsrsError::NoTrainableData));
    let report: OptimizeReport<f64> = OptimizeReport::from_result(set.map(|_| vec![0.5; 21]));
    assert!(!report.success);
    assert!(report.parameters.is_empty());
    assert_eq!(report.error, Some(FsrsError::NoTrainableData));
    assert_eq!(report.error_message(), Some("No valid review data provided"));
}

#[test]
fn training_set_with_signal_is_handed_out() {
    let set = training_set(&vec![3, 3], &vec![0, 2], &vec![1]);
    let items = set.expect("one item");
    assert_eq!(items.len(), 1);
    assert_eq!(items[0].reviews.len(), 2);
}

#[test]
fn evaluation_without_items_is_an_empty_history() {
    let set = evaluation_set(&vec![3], &vec![4], &vec![1]);
    assert_eq!(set.err(), Some(FsrsError::EmptyHistory));
    let set = evaluation_set(&vec![3, 1, 3], &vec![0, 4, 1], &vec![1]);
    assert_eq!(set.expect("two items").len(), 2);
}

#[test]
fn successful_run_reports_its_parameters() {
    let fitted: Vec<f64> = (0..21).map(|i| 0.25 * i as f64).collect();
    let report = OptimizeReport::from_result(Ok(fitted.clone()));
    assert!(report.success);
    assert_eq!(report.parameters, fitted);
    assert_eq!(report.error, None);
    assert_eq!(report.error_message(), None);
    let shortest = OptimizeReport::from_result(Ok(vec![1u8; 19]));
    assert!(shortest.success);
    assert_eq!(shortest.parameters.len(), 19);
}

#[test]
fn run_without_a_usable_vector_is_a_failure() {
    let empty: OptimizeReport<f64> = OptimizeReport::from_result(Ok(vec![]));
    assert!(!empty.success);
    assert!(empty.parameters.is_empty());
    assert_eq!(empty.error, Some(FsrsError::InvalidParameterVector));
    assert_eq!(empty.error_message(), Some("Invalid parameter vector"));
    let short = OptimizeReport::from_result(Ok(vec![0.25, 1.5]));
    assert!(!short.success);
    assert!(short.parameters.is_empty());
    assert_eq!(short.error, Some(FsrsError::InvalidParameterVector));
    let long = OptimizeReport::from_result(Ok(vec![0.5; 22]));
    assert!(!long.success);
    assert!(long.parameters.is_empty());
}

#[test]
fn failed_run_reports_no_parameters() {
    let report: OptimizeReport<f32> =
        OptimizeReport::from_result(Err(FsrsError::NumericalDivergence));
    assert!(!report.success);
    assert!(report.parameters.is_empty());
    assert_eq!(report.error, Some(FsrsError::NumericalDivergence));
    assert_eq!(report.error_message(), Some("Computation did not stay finite"));
}

#[test]
fn every_error_has_its_message() {
    assert_eq!(FsrsError::InvalidParameterVector.message(), "Invalid parameter vector");
    assert_eq!(
        FsrsError::InvalidRetention.message(),
        "Desired retention must be within (0, 1]"
    );
    assert_eq!(FsrsError::EmptyHistory.message(), "Review history is empty");
    assert_eq!(FsrsError::NoTrainableData.message(), "No valid review data provided");
    assert_eq!(FsrsError::NumericalDivergence.message(), "Computation did not stay finite");
}
