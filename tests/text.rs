use burden::collect::Diagnostic;
use burden::text::decimal;

fn lines(s: &str) -> Vec<String> {
    Diagnostic::new(s).lines
}

#[test]
fn lines_split_at_newlines() {
    assert_eq!(lines("a\nb\nc"), vec!["a", "b", "c"]);
}

#[test]
fn lines_drop_final_line_ending() {
    assert_eq!(lines("a\nb\n"), vec!["a", "b"]);
}

#[test]
fn lines_keep_empty_lines_between() {
    assert_eq!(lines("a\n\nb"), vec!["a", "", "b"]);
}

#[test]
fn lines_strip_carriage_return_before_newline() {
    assert_eq!(lines("a\r\nb\r\n"), vec!["a", "b"]);
}

#[test]
fn lines_of_empty_text() {
    assert!(lines("").is_empty());
    assert_eq!(lines("\n"), vec![""]);
}

#[test]
fn line_count_of_diagnostic() {
    assert_eq!(Diagnostic::new("one\ntwo\nthree\n").line_count(), 3);
}

#[test]
fn decimal_writes_numbers() {
    assert_eq!(decimal(0), "0");
    assert_eq!(decimal(7), "7");
    assert_eq!(decimal(10), "10");
    assert_eq!(decimal(1234), "1234");
    assert_eq!(decimal(usize::MAX), usize::MAX.to_string());
}

#[test]
fn lines_keep_bare_trailing_carriage_return() {
    assert_eq!(lines("x\r"), vec!["x\r"]);
}
