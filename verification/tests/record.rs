use gen_gps_data::clock::Timestamp;
use gen_gps_data::record::{compose_record, format_record, write_integer, write_speed};
use gen_gps_data::track::Fix;

#[test]
fn write_integer_writes_decimal_digits() {
    assert_eq!(write_integer(0), "0");
    assert_eq!(write_integer(7), "7");
    assert_eq!(write_integer(10), "10");
    assert_eq!(write_integer(45), "45");
    assert_eq!(write_integer(80), "80");
    assert_eq!(write_integer(100), "100");
    assert_eq!(write_integer(1_234_567_890), "1234567890");
    assert_eq!(write_integer(i32::MAX), "2147483647");
}

#[test]
fn write_integer_writes_a_minus_sign() {
    assert_eq!(write_integer(-1), "-1");
    assert_eq!(write_integer(-10), "-10");
    assert_eq!(write_integer(i32::MIN), "-2147483648");
}

#[test]
fn write_integer_agrees_with_the_standard_library() {
    for value in -1_000..=1_000 {
        assert_eq!(write_integer(value), value.to_string());
    }
}

#[test]
fn write_speed_has_three_decimals() {
    assert_eq!(write_speed(0), "0.000");
    assert_eq!(write_speed(5), "5.000");
    assert_eq!(write_speed(45), "45.000");
    assert_eq!(write_speed(80), "80.000");
}

#[test]
fn compose_record_lays_out_the_line() {
    assert_eq!(
        compose_record("2024/01/01 00:00:00", "37.000000", "127.000000", 45),
        "2024/01/01 00:00:00 37.000000N 127.000000E 45.000kmh V\n"
    );
    assert_eq!(
        compose_record("1999/12/31 23:59:59", "-33.868800", "151.209300", 0),
        "1999/12/31 23:59:59 -33.868800N 151.209300E 0.000kmh V\n"
    );
}

#[test]
fn compose_record_takes_its_parts_as_they_are() {
    assert_eq!(compose_record("", "", "", 7), " N E 7.000kmh V\n");
    assert_eq!(compose_record("t", "a", "b", 80), "t aN bE 80.000kmh V\n");
}

#[test]
fn format_record_writes_the_time_of_the_fix() {
    let fix = Fix { time: Timestamp { secs: 1_704_067_200 }, segment: 0, step: 0, steps: 7, speed: 42 };
    assert_eq!(
        format_record(&fix, "37.000000", "127.000000"),
        Some("2024/01/01 00:00:00 37.000000N 127.000000E 42.000kmh V\n".to_string())
    );
    let later = Fix { time: Timestamp { secs: 1_704_067_200 + 86_399 }, segment: 3, step: 2, steps: 9, speed: 80 };
    assert_eq!(
        format_record(&later, "37.000143", "127.000143"),
        Some("2024/01/01 23:59:59 37.000143N 127.000143E 80.000kmh V\n".to_string())
    );
}

#[test]
fn format_record_is_missing_outside_the_calendar() {
    let fix = Fix { time: Timestamp { secs: i64::MAX }, segment: 0, step: 0, steps: 1, speed: 0 };
    assert_eq!(format_record(&fix, "0.000000", "0.000000"), None);
}
