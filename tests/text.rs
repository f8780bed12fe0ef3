use kr::text::{contains_ascii_ci, contains_str, is_valid_k8s_name, push_decimal};
use kr::utils::{age_of, format_age, get_resource_age};

#[test]
fn contains_ascii_ci_ignores_case() {
    assert!(contains_ascii_ci("a TARGET here", "target"));
    assert!(contains_ascii_ci("anything", ""));
    assert!(!contains_ascii_ci("abc", "abcd"));
    assert!(!contains_ascii_ci("line 7", "target"));
}

#[test]
fn contains_str_is_exact() {
    assert!(contains_str("nginx-proxy", "proxy"));
    assert!(!contains_str("nginx-proxy", "Proxy"));
}

#[test]
fn valid_names() {
    assert!(is_valid_k8s_name("my-ns"));
    assert!(is_valid_k8s_name("a"));
    assert!(!is_valid_k8s_name(""));
    assert!(!is_valid_k8s_name("my-ns-"));
    assert!(!is_valid_k8s_name("-ns"));
    assert!(!is_valid_k8s_name("My-ns"));
    assert!(!is_valid_k8s_name(&"a".repeat(64)));
    assert!(is_valid_k8s_name(&"a".repeat(63)));
}

#[test]
fn decimal_rendering() {
    let mut s = String::from("n=");
    push_decimal(&mut s, 0);
    assert_eq!(s, "n=0");
    let mut t = String::new();
    push_decimal(&mut t, 18446744073709551615);
    assert_eq!(t, "18446744073709551615");
}

#[test]
fn age_none_returns_question_mark() {
    assert_eq!(get_resource_age(None), "?");
}

#[test]
fn age_seconds() {
    assert_eq!(age_of(1_000_045, 1_000_000), "45s");
}

#[test]
fn age_minutes() {
    assert_eq!(age_of(7 * 60, 0), "7m");
}

#[test]
fn age_hours() {
    assert_eq!(age_of(3 * 3600 + 5, 5), "3h");
}

#[test]
fn age_days() {
    assert_eq!(age_of(5 * 86400, 0), "5d");
}

#[test]
fn age_zero_seconds() {
    assert_eq!(age_of(77, 77), "0s");
}

#[test]
fn age_boundary_59_minutes() {
    assert_eq!(age_of(59 * 60, 0), "59m");
}

#[test]
fn age_boundary_60_minutes_shows_hours() {
    assert_eq!(age_of(60 * 60, 0), "1h");
}

#[test]
fn age_boundary_24_hours_shows_days() {
    assert_eq!(age_of(24 * 3600, 0), "1d");
}

#[test]
fn age_of_future_creation_is_negative_seconds() {
    assert_eq!(age_of(100, 200), "-100s");
    assert_eq!(age_of(200, 100), "1m");
    assert_eq!(format_age(-3), "-3s");
    assert_eq!(age_of(i64::MAX, i64::MIN), "213503982334601d");
}

#[test]
fn age_of_recent_resource_from_clock() {
    let created = 0i64;
    let text = get_resource_age(Some(created));
    assert!(text.ends_with('d'));
}
