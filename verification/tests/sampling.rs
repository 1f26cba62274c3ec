use hfdl_autopilot::utils::{
    get_band, get_sampling_rate, parse_time, select_band, SpanTooWide,
};

#[test]
fn the_first_rate_that_fits_is_taken() {
    let rates = vec![250_000, 500_000, 5_000_000, 6_000_000];
    assert_eq!(get_sampling_rate(&vec![8912, 8991], &rates), Ok(250_000));
    assert_eq!(get_sampling_rate(&vec![8991, 8912], &rates), Ok(250_000));
    assert_eq!(get_sampling_rate(&vec![8800, 9100, 8900], &rates), Ok(500_000));
}

#[test]
fn a_span_of_nine_tenths_of_the_rate_does_not_fit() {
    let rates = vec![250_000, 500_000];
    assert_eq!(get_sampling_rate(&vec![1000, 1224], &rates), Ok(250_000));
    assert_eq!(get_sampling_rate(&vec![1000, 1225], &rates), Ok(500_000));
    assert_eq!(get_sampling_rate(&vec![1000, 1449], &rates), Ok(500_000));
    assert_eq!(get_sampling_rate(&vec![1000, 1450], &rates), Err(SpanTooWide));
}

#[test]
fn nine_tenths_are_rounded_down() {
    // Nine tenths of 1111 are 999.9: a span of 0 kHz fits, since 0 < 999.
    assert_eq!(get_sampling_rate(&vec![5000], &vec![1111]), Ok(1111));
    // Nine tenths of 1 are 0.9, rounded down 0: nothing fits.
    assert_eq!(get_sampling_rate(&vec![5000], &vec![1]), Err(SpanTooWide));
    assert_eq!(get_sampling_rate(&vec![5000], &vec![0, 2]), Ok(2));
}

#[test]
fn no_frequencies_span_nothing() {
    assert_eq!(get_sampling_rate(&vec![], &vec![250_000]), Ok(250_000));
}

#[test]
fn no_rates_fit_nothing() {
    assert_eq!(get_sampling_rate(&vec![8912], &vec![]), Err(SpanTooWide));
}

#[test]
fn the_widest_span_and_rate_do_not_overflow() {
    assert_eq!(get_sampling_rate(&vec![0, 65535], &vec![u32::MAX]), Ok(u32::MAX));
    assert_eq!(get_sampling_rate(&vec![0, 65535], &vec![72_816_666]), Err(SpanTooWide));
    assert_eq!(get_sampling_rate(&vec![0, 65535], &vec![72_816_680]), Ok(72_816_680));
}

#[test]
fn parse_time_reads_hour_and_minute() {
    assert_eq!(parse_time(&vec!["06", "00"]), Some((6, 0)));
    assert_eq!(parse_time(&vec!["23", "59"]), Some((23, 59)));
    assert_eq!(parse_time(&vec!["0", "0"]), Some((0, 0)));
    assert_eq!(parse_time(&vec!["+7", "+5", "ignored"]), Some((7, 5)));
}

#[test]
fn parse_time_refuses_what_is_no_time() {
    assert_eq!(parse_time(&vec!["24", "00"]), None);
    assert_eq!(parse_time(&vec!["12", "60"]), None);
    assert_eq!(parse_time(&vec!["", "00"]), None);
    assert_eq!(parse_time(&vec!["12", "xx"]), None);
    assert_eq!(parse_time(&vec!["-1", "00"]), None);
    assert_eq!(parse_time(&vec!["256", "00"]), None);
    assert_eq!(parse_time(&vec!["12", " 5"]), None);
}

#[test]
fn the_last_trigger_that_has_come_is_selected() {
    let triggers = vec![(6, 0, 100), (18, 0, 200)];
    assert_eq!(select_band(&triggers, 7, 0), Some(100));
    assert_eq!(select_band(&triggers, 19, 0), Some(200));
    assert_eq!(select_band(&triggers, 6, 0), Some(100));
    assert_eq!(select_band(&triggers, 18, 0), Some(200));
    assert_eq!(select_band(&triggers, 23, 59), Some(200));
}

#[test]
fn before_the_first_trigger_the_last_one_is_selected() {
    let triggers = vec![(6, 0, 100), (18, 0, 200)];
    assert_eq!(select_band(&triggers, 2, 0), Some(200));
    assert_eq!(select_band(&triggers, 5, 59), Some(200));
    assert_eq!(select_band(&triggers, 0, 0), Some(200));
}

#[test]
fn a_trigger_has_come_when_hour_and_minute_both_have() {
    let triggers = vec![(6, 30, 100), (18, 45, 200)];
    // At 07:00 the minute of neither trigger has come.
    assert_eq!(select_band(&triggers, 7, 0), Some(200));
    assert_eq!(select_band(&triggers, 7, 30), Some(100));
    assert_eq!(select_band(&triggers, 19, 44), Some(100));
    assert_eq!(select_band(&triggers, 19, 45), Some(200));
}

#[test]
fn an_empty_schedule_selects_nothing() {
    assert_eq!(select_band(&vec![], 12, 0), None);
    assert_eq!(get_band(&vec![]), None);
}

#[test]
fn get_band_selects_a_band_of_the_schedule() {
    let triggers = vec![(0, 0, 100), (12, 0, 200)];
    let band = get_band(&triggers).unwrap();
    assert!(band == 100 || band == 200);
    assert_eq!(get_band(&vec![(0, 0, 7)]), Some(7));
}
