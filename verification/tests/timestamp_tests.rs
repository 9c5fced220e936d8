use logon_watch::timestamp::{parse_time_string, render, Timestamp};

fn sample() -> Timestamp {
    Timestamp { year: 2024, month: 5, day: 1, hour: 10, minute: 34, second: 56, nanos: 789000000 }
}

#[test]
fn render_fixed_display_form() {
    assert_eq!(render(&sample()), "2024-05-01 10:34:56.789000000 UTC");
}

#[test]
fn render_pads_every_field() {
    let t = Timestamp { year: 987, month: 1, day: 2, hour: 3, minute: 4, second: 5, nanos: 6 };
    assert_eq!(render(&t), "0987-01-02 03:04:05.000000006 UTC");
}

#[test]
fn parse_recovers_rendered_value() {
    let t = sample();
    assert_eq!(parse_time_string(&render(&t)), Some(t));
}

#[test]
fn parse_exact_display_string() {
    let t = parse_time_string("2024-05-01 10:34:56.789000000 UTC").unwrap();
    assert_eq!(t, sample());
}

#[test]
fn parse_rejects_other_forms() {
    assert_eq!(parse_time_string(""), None);
    assert_eq!(parse_time_string("2024-05-01T10:34:56.789000000 UTC"), None);
    assert_eq!(parse_time_string("2024-05-01 10:34:56.789 UTC"), None);
    assert_eq!(parse_time_string("2024-05-01 10:34:56.789000000"), None);
    assert_eq!(parse_time_string("2024-05-01 10:34:56.789000000 utc"), None);
    assert_eq!(parse_time_string("not a time string at all, truly no"), None);
}

#[test]
fn parse_rejects_out_of_range_fields() {
    assert_eq!(parse_time_string("2024-13-01 10:34:56.789000000 UTC"), None);
    assert_eq!(parse_time_string("2024-00-01 10:34:56.789000000 UTC"), None);
    assert_eq!(parse_time_string("2024-04-31 10:34:56.789000000 UTC"), None);
    assert_eq!(parse_time_string("2024-05-01 24:34:56.789000000 UTC"), None);
    assert_eq!(parse_time_string("2024-05-01 10:60:56.789000000 UTC"), None);
    assert_eq!(parse_time_string("2024-05-01 10:34:60.789000000 UTC"), None);
}

#[test]
fn parse_handles_leap_days() {
    assert!(parse_time_string("2024-02-29 00:00:00.000000000 UTC").is_some());
    assert_eq!(parse_time_string("2023-02-29 00:00:00.000000000 UTC"), None);
    assert!(parse_time_string("2000-02-29 00:00:00.000000000 UTC").is_some());
    assert_eq!(parse_time_string("1900-02-29 00:00:00.000000000 UTC"), None);
}

#[test]
fn chronological_order_is_lexicographic() {
    let t1 = parse_time_string("2024-05-01 10:34:56.789000000 UTC").unwrap();
    let t2 = parse_time_string("2024-05-01 10:34:56.789000001 UTC").unwrap();
    let t3 = parse_time_string("2024-05-02 00:00:00.000000000 UTC").unwrap();
    assert!(t1.is_before(&t2));
    assert!(t2.is_before(&t3));
    assert!(!t2.is_before(&t1));
    assert!(!t1.is_before(&t1));
}
