use gen_gps_data::clock::{Timestamp, TIME_LAYOUT};

#[test]
fn layout_is_slashes_and_colons() {
    assert_eq!(TIME_LAYOUT, "%Y/%m/%d %H:%M:%S");
}

#[test]
fn parse_reads_seconds_since_1970() {
    assert_eq!(Timestamp::parse("1970/01/01 00:00:00"), Some(Timestamp { secs: 0 }));
    assert_eq!(Timestamp::parse("1970/01/01 00:00:01"), Some(Timestamp { secs: 1 }));
    assert_eq!(Timestamp::parse("2024/01/01 00:00:00"), Some(Timestamp { secs: 1_704_067_200 }));
    assert_eq!(Timestamp::parse("2024/02/29 12:34:56"), Some(Timestamp { secs: 1_709_210_096 }));
    assert_eq!(Timestamp::parse("1969/12/31 23:59:59"), Some(Timestamp { secs: -1 }));
}

#[test]
fn parse_refuses_other_layouts() {
    assert_eq!(Timestamp::parse(""), None);
    assert_eq!(Timestamp::parse("2024-01-01 00:00:00"), None);
    assert_eq!(Timestamp::parse("2024/01/01"), None);
    assert_eq!(Timestamp::parse("2024/01/01T00:00:00"), None);
    assert_eq!(Timestamp::parse("2024/01/01 00:00:00 UTC"), None);
    assert_eq!(Timestamp::parse("37.0,127.0"), None);
}

#[test]
fn parse_refuses_dates_that_do_not_exist() {
    assert_eq!(Timestamp::parse("2024/13/01 00:00:00"), None);
    assert_eq!(Timestamp::parse("2023/02/29 00:00:00"), None);
    assert_eq!(Timestamp::parse("2024/01/01 24:00:00"), None);
    assert_eq!(Timestamp::parse("2024/01/01 00:60:00"), None);
}

#[test]
fn parse_counts_a_leap_second_as_the_second_before() {
    assert_eq!(Timestamp::parse("2016/12/31 23:59:59"), Some(Timestamp { secs: 1_483_228_799 }));
    assert_eq!(Timestamp::parse("2016/12/31 23:59:60"), Some(Timestamp { secs: 1_483_228_799 }));
}

#[test]
fn text_writes_date_and_time() {
    assert_eq!(Timestamp { secs: 0 }.text(), Some("1970/01/01 00:00:00".to_string()));
    assert_eq!(Timestamp { secs: 1_704_067_200 }.text(), Some("2024/01/01 00:00:00".to_string()));
    assert_eq!(Timestamp { secs: 1_709_210_096 }.text(), Some("2024/02/29 12:34:56".to_string()));
    assert_eq!(Timestamp { secs: -1 }.text(), Some("1969/12/31 23:59:59".to_string()));
}

#[test]
fn text_is_missing_outside_the_calendar() {
    assert_eq!(Timestamp { secs: i64::MAX }.text(), None);
    assert_eq!(Timestamp { secs: i64::MIN }.text(), None);
}

#[test]
fn text_and_parse_agree() {
    for secs in [0i64, 59, 60, 86_399, 86_400, 951_782_400, 1_704_067_200, 4_102_444_799] {
        let time = Timestamp { secs };
        let text = time.text().unwrap();
        assert_eq!(Timestamp::parse(&text), Some(time));
    }
}

#[test]
fn after_adds_seconds() {
    let start = Timestamp { secs: 1_704_067_200 };
    assert_eq!(start.after(0), Some(start));
    assert_eq!(start.after(1), Some(Timestamp { secs: 1_704_067_201 }));
    assert_eq!(start.after(86_400), Some(Timestamp { secs: 1_704_153_600 }));
    assert_eq!(Timestamp { secs: -5 }.after(5), Some(Timestamp { secs: 0 }));
    assert_eq!(Timestamp { secs: i64::MIN }.after(u64::MAX), Some(Timestamp { secs: i64::MAX }));
}

#[test]
fn after_stops_where_the_counter_ends() {
    assert_eq!(Timestamp { secs: i64::MAX }.after(0), Some(Timestamp { secs: i64::MAX }));
    assert_eq!(Timestamp { secs: i64::MAX }.after(1), None);
    assert_eq!(Timestamp { secs: i64::MAX - 10 }.after(10), Some(Timestamp { secs: i64::MAX }));
    assert_eq!(Timestamp { secs: i64::MAX - 10 }.after(11), None);
    assert_eq!(Timestamp { secs: 0 }.after(u64::MAX), None);
}
