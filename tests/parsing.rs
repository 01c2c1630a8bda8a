use push_gateway::scrape::{check_status, read_field, read_field_or_zero, scrape_url, FetchError};

#[test]
fn reads_simple_field() {
    assert_eq!(read_field("message_throughput=42.5", "message_throughput"), Some(42_500_000));
}

#[test]
fn field_order_does_not_matter() {
    let body = "memory_usage=80\n# comment\ncpu_usage=55\n";
    assert_eq!(read_field(body, "cpu_usage"), Some(55_000_000));
    assert_eq!(read_field(body, "memory_usage"), Some(80_000_000));
}

#[test]
fn duplicated_field_takes_first_line() {
    let body = "cpu_usage=1\ncpu_usage=2";
    assert_eq!(read_field(body, "cpu_usage"), Some(1_000_000));
}

#[test]
fn missing_field_defaults_to_zero() {
    assert_eq!(read_field("memory_usage=80", "cpu_usage"), None);
    assert_eq!(read_field_or_zero("memory_usage=80", "cpu_usage"), 0);
    assert_eq!(read_field_or_zero("", "cpu_usage"), 0);
}

#[test]
fn malformed_value_defaults_to_zero() {
    assert_eq!(read_field_or_zero("cpu_usage=high", "cpu_usage"), 0);
    assert_eq!(read_field_or_zero("cpu_usage 55", "cpu_usage"), 0);
    assert_eq!(read_field_or_zero("cpu_usage=1e3", "cpu_usage"), 0);
    assert_eq!(read_field_or_zero("cpu_usage=.", "cpu_usage"), 0);
    assert_eq!(read_field_or_zero("cpu_usage=", "cpu_usage"), 0);
}

#[test]
fn first_matching_line_decides_even_when_malformed() {
    assert_eq!(read_field("cpu_usage_help text\ncpu_usage=5", "cpu_usage"), None);
}

#[test]
fn value_is_trimmed_and_ends_at_next_separator() {
    assert_eq!(read_field("x = 1.5 \r\n", "x"), Some(1_500_000));
    assert_eq!(read_field("x=7=9", "x"), Some(7_000_000));
    assert_eq!(read_field("x=\t\u{a0}3", "x"), Some(3_000_000));
}

#[test]
fn signs_and_points() {
    assert_eq!(read_field("v=-2", "v"), Some(-2_000_000));
    assert_eq!(read_field("v=+2", "v"), Some(2_000_000));
    assert_eq!(read_field("v=.5", "v"), Some(500_000));
    assert_eq!(read_field("v=5.", "v"), Some(5_000_000));
    assert_eq!(read_field("v=0.000001", "v"), Some(1));
    assert_eq!(read_field("v=1.2345678", "v"), Some(1_234_567));
    assert_eq!(read_field("v=-0", "v"), Some(0));
    assert_eq!(read_field("v=+-1", "v"), None);
    assert_eq!(read_field("v=1.2.3", "v"), None);
}

#[test]
fn largest_reading() {
    assert_eq!(read_field("v=9223372036854.775807", "v"), Some(i64::MAX));
    assert_eq!(read_field("v=-9223372036854.775807", "v"), Some(-i64::MAX));
    assert_eq!(read_field("v=9223372036854.775808", "v"), None);
    assert_eq!(read_field("v=99999999999999", "v"), None);
}

#[test]
fn text_beyond_ascii() {
    assert_eq!(read_field("température=3\nmémoire=4", "mémoire"), Some(4_000_000));
    assert_eq!(read_field("ö=1\ncpu_usage=2", "cpu_usage"), Some(2_000_000));
}

#[test]
fn status_is_judged() {
    assert!(matches!(check_status(200, "b".to_string()), Ok(ref s) if s == "b"));
    assert!(matches!(check_status(299, String::new()), Ok(_)));
    assert!(matches!(check_status(199, String::new()), Err(FetchError::BadStatus(199))));
    assert!(matches!(check_status(300, String::new()), Err(FetchError::BadStatus(300))));
    assert!(matches!(check_status(500, String::new()), Err(FetchError::BadStatus(500))));
}

#[test]
fn url_of_source() {
    assert_eq!(scrape_url("172.16.192.110"), "http://172.16.192.110:9644/metrics");
    assert_eq!(scrape_url(""), "http://:9644/metrics");
}
