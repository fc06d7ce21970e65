use cookie_commander::text::{decimal, exceeds_kb, join_lines, split_lines, trim};

#[test]
fn numbers_in_decimal() {
    assert_eq!(decimal(0), "0");
    assert_eq!(decimal(7), "7");
    assert_eq!(decimal(512), "512");
    assert_eq!(decimal(1000), "1000");
    assert_eq!(decimal(usize::MAX), usize::MAX.to_string());
}

#[test]
fn lines_join_with_newlines() {
    assert_eq!(join_lines(&vec![]), "");
    assert_eq!(join_lines(&vec!["a".to_string()]), "a");
    assert_eq!(join_lines(&vec!["a".to_string(), "".to_string(), "b".to_string()]), "a\n\nb");
    let text = "one\ntwo\n\nthree";
    assert_eq!(join_lines(&split_lines(text)), text);
}

#[test]
fn sizes_count_utf8_bytes() {
    assert!(!exceeds_kb("", 0));
    assert!(exceeds_kb("a", 0));
    assert!(!exceeds_kb(&"a".repeat(1024), 1));
    assert!(exceeds_kb(&"a".repeat(1025), 1));
    assert!(!exceeds_kb(&"€".repeat(341), 1));
    assert!(exceeds_kb(&"€".repeat(342), 1));
    assert!(!exceeds_kb(&"🍪".repeat(256), 1));
    assert!(exceeds_kb(&"🍪".repeat(257), 1));
    assert!(!exceeds_kb("a", usize::MAX));
}

#[test]
fn trimming_drops_outer_white_space() {
    assert_eq!(trim("  /tmp \n"), "/tmp");
    assert_eq!(trim("\u{3000}x\u{a0}"), "x");
}
