use kr::text::highlight_segments;

fn texts(segs: &[(String, bool)]) -> Vec<&str> {
    segs.iter().map(|(t, _)| t.as_str()).collect()
}

#[test]
fn empty_needle_returns_raw() {
    assert_eq!(highlight_segments("hello world", ""), vec![("hello world".to_string(), false)]);
}

#[test]
fn no_match_returns_raw() {
    assert_eq!(highlight_segments("hello world", "xyz"), vec![("hello world".to_string(), false)]);
}

#[test]
fn match_at_start() {
    let segs = highlight_segments("error: something", "error");
    assert_eq!(texts(&segs), vec!["error", ": something"]);
    assert!(segs[0].1);
    assert!(!segs[1].1);
}

#[test]
fn match_at_end() {
    let segs = highlight_segments("found an error", "error");
    assert_eq!(texts(&segs), vec!["found an ", "error"]);
    assert!(!segs[0].1);
    assert!(segs[1].1);
}

#[test]
fn multiple_matches() {
    let segs = highlight_segments("err foo err bar err", "err");
    assert_eq!(texts(&segs), vec!["err", " foo ", "err", " bar ", "err"]);
    assert!(segs[0].1);
    assert!(!segs[1].1);
    assert!(segs[2].1);
}

#[test]
fn case_insensitive() {
    let segs = highlight_segments("ERROR and Error", "error");
    assert_eq!(texts(&segs), vec!["ERROR", " and ", "Error"]);
    assert!(segs[0].1);
    assert!(segs[2].1);
}

#[test]
fn empty_text() {
    assert_eq!(highlight_segments("", "err"), vec![(String::new(), false)]);
}

#[test]
fn needle_longer_than_text() {
    assert_eq!(highlight_segments("ab", "abcdef"), vec![("ab".to_string(), false)]);
}

#[test]
fn exact_match() {
    let segs = highlight_segments("err", "err");
    assert_eq!(texts(&segs), vec!["err"]);
    assert!(segs[0].1);
}

#[test]
fn overlapping_candidates_take_leftmost() {
    let segs = highlight_segments("aaa", "aa");
    assert_eq!(segs, vec![("aa".to_string(), true), ("a".to_string(), false)]);
}
