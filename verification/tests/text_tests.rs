use bindiff::diff::lines::{diff_text, render_changes, LineChange, LineTag};
use bindiff::failure::ErrorKind;
use bindiff::text::{join, push_decimal};

fn to_decimal(n: u64) -> String {
    let mut out = String::new();
    push_decimal(&mut out, n);
    out
}

#[test]
fn join_puts_the_separator_between() {
    let parts = vec!["a".to_string(), "b".to_string(), "c".to_string()];
    assert_eq!(join(&parts, ","), "a,b,c");
    assert_eq!(join(&parts, "\n"), "a\nb\nc");
}

#[test]
fn join_of_few_parts() {
    assert_eq!(join(&Vec::new(), ","), "");
    assert_eq!(join(&vec!["only".to_string()], ","), "only");
    assert_eq!(join(&vec![String::new(), String::new()], "-"), "-");
}

#[test]
fn decimal_form_of_numbers() {
    assert_eq!(to_decimal(0), "0");
    assert_eq!(to_decimal(7), "7");
    assert_eq!(to_decimal(10), "10");
    assert_eq!(to_decimal(4096), "4096");
    assert_eq!(to_decimal(u64::MAX), "18446744073709551615");
}

#[test]
fn decimal_form_is_appended() {
    let mut out = "ord_".to_string();
    push_decimal(&mut out, 4660);
    push_decimal(&mut out, 0);
    assert_eq!(out, "ord_46600");
}

#[test]
fn changes_render_with_their_signs() {
    let changes = vec![
        LineChange { tag: LineTag::Equal, text: "same\n".to_string() },
        LineChange { tag: LineTag::Delete, text: "old\n".to_string() },
        LineChange { tag: LineTag::Insert, text: "new\n".to_string() },
    ];
    assert_eq!(render_changes(&changes), " same\n\n-old\n\n+new\n\n");
}

#[test]
fn no_changes_render_as_nothing() {
    assert_eq!(render_changes(&Vec::new()), "");
}

#[test]
fn text_diff_marks_changed_lines() {
    assert_eq!(diff_text("a\nb", "a\nc"), " a\n\n-b\n\n+c\n\n");
}

#[test]
fn text_diff_of_equal_texts() {
    assert_eq!(diff_text("x\ny\n", "x\ny\n"), " x\n\n y\n\n");
    assert_eq!(diff_text("", ""), "");
}

#[test]
fn text_diff_of_insertion_and_deletion() {
    assert_eq!(diff_text("a\n", "a\nb\n"), " a\n\n+b\n\n");
    assert_eq!(diff_text("a\nb\n", "b\n"), "-a\n\n b\n\n");
}

#[test]
fn every_error_has_its_message() {
    assert_eq!(ErrorKind::Io.message(), "cannot read the binary");
    assert_eq!(ErrorKind::Format.message(), "not a recognized object file");
    assert_eq!(ErrorKind::Unsupported.message(), "unsupported architecture");
    assert_eq!(ErrorKind::Report.message(), "cannot write the report");
}
