use gen_gps_data::speed::{
    draw_initial_speed, draw_speed_change, next_speed, MAX_SPEED_CHANGE_KMH, MAX_SPEED_KMH,
};

#[test]
fn limits_have_their_values() {
    assert_eq!(MAX_SPEED_KMH, 80);
    assert_eq!(MAX_SPEED_CHANGE_KMH, 10);
}

#[test]
fn next_speed_adds_the_change() {
    assert_eq!(next_speed(50, 5), 55);
    assert_eq!(next_speed(50, -10), 40);
    assert_eq!(next_speed(0, 0), 0);
    assert_eq!(next_speed(80, 0), 80);
    assert_eq!(next_speed(70, 10), 80);
    assert_eq!(next_speed(10, -10), 0);
}

#[test]
fn next_speed_stops_at_the_maximum() {
    assert_eq!(next_speed(75, 10), 80);
    assert_eq!(next_speed(80, 1), 80);
    assert_eq!(next_speed(80, 10), 80);
    assert_eq!(next_speed(i32::MAX, i32::MAX), 80);
}

#[test]
fn next_speed_stops_at_zero() {
    assert_eq!(next_speed(3, -10), 0);
    assert_eq!(next_speed(0, -1), 0);
    assert_eq!(next_speed(i32::MIN, i32::MIN), 0);
    assert_eq!(next_speed(-5, 2), 0);
}

#[test]
fn speed_stays_within_limits_over_a_long_walk() {
    let changes = [10, 10, 10, 10, 10, 10, 10, 10, 10, 10, -10, -10, -10, -10, -10, -10, -10, -10, -10, -10, 3, -7];
    for start in 0..=80 {
        let mut speed = start;
        for change in changes {
            speed = next_speed(speed, change);
            assert!((0..=80).contains(&speed));
        }
    }
}

#[test]
fn initial_speeds_are_drawn_from_the_whole_range() {
    let mut rng = rand::thread_rng();
    let mut seen = [false; 81];
    for _ in 0..20_000 {
        let speed = draw_initial_speed(&mut rng);
        assert!((0..=80).contains(&speed));
        seen[speed as usize] = true;
    }
    assert!(seen.iter().all(|&s| s));
}

#[test]
fn speed_changes_are_drawn_from_the_whole_range() {
    let mut rng = rand::thread_rng();
    let mut seen = [false; 21];
    for _ in 0..20_000 {
        let change = draw_speed_change(&mut rng);
        assert!((-10..=10).contains(&change));
        seen[(change + 10) as usize] = true;
    }
    assert!(seen.iter().all(|&s| s));
}
