use mobdtimer::store::{
    future_end_time, stop_record_end_time, store_future_time, timer_record_json, to_decimal,
};

#[test]
fn renders_decimal_numbers_exactly() {
    assert_eq!(to_decimal(0), "0");
    assert_eq!(to_decimal(7), "7");
    assert_eq!(to_decimal(1630000000), "1630000000");
    assert_eq!(to_decimal(-5), "-5");
    assert_eq!(to_decimal(i64::MAX), "9223372036854775807");
    assert_eq!(to_decimal(i64::MIN), "-9223372036854775808");
}

#[test]
fn frames_the_timer_record_as_the_store_expects() {
    assert_eq!(timer_record_json(0), "{\"endTime\":0}");
    assert_eq!(timer_record_json(1630000000), "{\"endTime\":1630000000}");
    assert_eq!(timer_record_json(-5), "{\"endTime\":-5}");
}

#[test]
fn the_end_time_is_sixty_seconds_per_minute_past_the_start() {
    assert_eq!(future_end_time(100, 2), Some(220));
    assert_eq!(future_end_time(0, 25), Some(1500));
    assert_eq!(future_end_time(-30, 0), Some(-30));
}

#[test]
fn an_unrepresentable_end_time_is_refused() {
    assert_eq!(future_end_time(i64::MAX, 1), None);
    assert_eq!(future_end_time(0, u64::MAX), None);
}

#[test]
fn a_given_start_time_is_used_as_it_stands() {
    assert_eq!(store_future_time(Some(100), 2), Some(220));
    assert_eq!(store_future_time(Some(1_700_000_000), 25), Some(1_700_001_500));
}

#[test]
fn the_stop_record_lies_one_second_in_the_past() {
    assert_eq!(stop_record_end_time(1_700_000_000), 1_699_999_999);
}
