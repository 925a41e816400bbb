use profiler::response::ResponseProperties;
use profiler::stats::{median_of_ascending, percent_of, summarize};

fn response(time_taken: u64, status_code: i32, document: &str) -> ResponseProperties {
    ResponseProperties { time_taken, status_code, document: String::from(document) }
}

#[test]
fn statistics_of_even_count() {
    let rs = vec![response(30, 200, "abc"), response(10, 200, "a"), response(20, 200, "abcd"), response(40, 200, "ab")];
    let r = summarize(&rs, 0);
    assert_eq!(r.total_requests, 4);
    assert_eq!(r.succeeded, 4);
    assert_eq!(r.success_percent, Some(100));
    assert_eq!(r.fastest, Some(10));
    assert_eq!(r.slowest, Some(40));
    assert_eq!(r.mean, Some(25));
    assert_eq!(r.median, Some(25));
    assert_eq!(r.smallest_size, Some(1));
    assert_eq!(r.largest_size, Some(4));
    assert_eq!(r.representative, Some(2));
    let (lo, hi) = (r.fastest.unwrap(), r.slowest.unwrap());
    assert!(lo <= r.median.unwrap() && r.median.unwrap() <= hi);
    assert!(lo <= r.mean.unwrap() && r.mean.unwrap() <= hi);
}

#[test]
fn statistics_of_odd_count() {
    let rs = vec![response(5, 200, ""), response(1, 200, ""), response(4, 200, "")];
    let r = summarize(&rs, 1);
    assert_eq!(r.total_requests, 4);
    assert_eq!(r.success_percent, Some(75));
    assert_eq!(r.median, Some(4));
    assert_eq!(r.mean, Some(3));
}

#[test]
fn empty_collection_reports_nothing() {
    let r = summarize(&Vec::new(), 2);
    assert_eq!(r.total_requests, 2);
    assert_eq!(r.success_percent, Some(0));
    assert_eq!(r.non_200_percent, None);
    assert!(r.non_200_codes.is_empty());
    assert_eq!(r.fastest, None);
    assert_eq!(r.mean, None);
    assert_eq!(r.median, None);
    assert_eq!(r.slowest, None);
    assert_eq!(r.smallest_size, None);
    assert_eq!(r.largest_size, None);
    assert_eq!(r.representative, None);
}

#[test]
fn no_attempts_have_no_success_percentage() {
    let r = summarize(&Vec::new(), 0);
    assert_eq!(r.total_requests, 0);
    assert_eq!(r.success_percent, None);
}

#[test]
fn non_200_codes_are_distinct() {
    let rs = vec![response(1, 404, ""), response(1, 500, ""), response(1, 404, ""), response(1, 200, "")];
    let r = summarize(&rs, 0);
    assert_eq!(r.non_200_count, 3);
    assert_eq!(r.non_200_percent, Some(75));
    assert_eq!(r.non_200_codes, vec![404, 500]);
}

#[test]
fn representative_is_last_of_largest() {
    let rs = vec![response(1, 200, "xy"), response(2, 200, "z"), response(3, 200, "ab")];
    assert_eq!(summarize(&rs, 0).representative, Some(2));
}

#[test]
fn sizes_count_bytes() {
    let rs = vec![response(1, 200, "\u{e9}")];
    let r = summarize(&rs, 0);
    assert_eq!(r.smallest_size, Some(2));
    assert_eq!(r.largest_size, Some(2));
}

#[test]
fn median_of_two_middle_values_without_overflow() {
    assert_eq!(median_of_ascending(&vec![u64::MAX - 1, u64::MAX]), Some(u64::MAX - 1));
    assert_eq!(median_of_ascending(&vec![]), None);
    assert_eq!(median_of_ascending(&vec![7]), Some(7));
}

#[test]
fn median_after_sort_of_unsorted_latencies() {
    let rs = vec![response(9, 200, ""), response(2, 200, ""), response(7, 200, ""), response(1, 200, ""), response(8, 200, "")];
    assert_eq!(summarize(&rs, 0).median, Some(7));
}

#[test]
fn percentages_round_down() {
    assert_eq!(percent_of(1, 3), Some(33));
    assert_eq!(percent_of(2, 3), Some(66));
    assert_eq!(percent_of(0, 0), None);
}

#[test]
fn large_latencies_do_not_overflow_mean() {
    let rs = vec![response(u64::MAX, 200, ""), response(u64::MAX - 2, 200, "")];
    assert_eq!(summarize(&rs, 0).mean, Some(u64::MAX - 1));
}
