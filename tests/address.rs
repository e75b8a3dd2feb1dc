use uptime_probe::address::{parse_i32, split_host_port, DEFAULT_PORT};

#[test]
fn parses_like_std() {
    for s in ["0", "11010", "+7", "-12", "2147483647", "-2147483648", "007", "", "-", "+", "2147483648", "-2147483649", "1a", " 1", "99999999999999999999", "١"] {
        assert_eq!(parse_i32(s), s.parse::<i32>().ok(), "input {:?}", s);
    }
}

#[test]
fn splits_at_first_colon() {
    assert_eq!(split_host_port("10.0.0.1:8080"), ("10.0.0.1".to_string(), 8080));
    assert_eq!(split_host_port("10.0.0.1"), ("10.0.0.1".to_string(), DEFAULT_PORT));
    assert_eq!(split_host_port("h:"), ("h".to_string(), DEFAULT_PORT));
    assert_eq!(split_host_port("h:x"), ("h".to_string(), 11010));
    assert_eq!(split_host_port("a:1:2"), ("a".to_string(), 11010));
    assert_eq!(split_host_port(":5"), (String::new(), 5));
}
