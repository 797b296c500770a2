use cargo_embassy::text::{remove_triple_newlines, to_chars};

#[test]
fn collapses_long_runs_to_one_blank_line() {
    assert_eq!(remove_triple_newlines("a\n\n\n\nb"), "a\n\nb");
    assert_eq!(remove_triple_newlines("a\n\n\nb\n\n\n\n\nc"), "a\n\nb\n\nc");
}

#[test]
fn keeps_single_blank_lines() {
    assert_eq!(remove_triple_newlines("a\nb\n\nc\n"), "a\nb\n\nc\n");
}

#[test]
fn empty_and_newline_only_inputs() {
    assert_eq!(remove_triple_newlines(""), "");
    assert_eq!(remove_triple_newlines("\n\n\n\n\n"), "\n\n");
}

#[test]
fn collapsing_is_idempotent() {
    let inputs = ["x\n\n\n\ny\n\n\nz", "\n\n\n", "plain", "a\r\n\r\n\r\n"];
    for s in inputs {
        let once = remove_triple_newlines(s);
        let twice = remove_triple_newlines(&once);
        assert_eq!(once, twice);
        assert!(!once.contains("\n\n\n"));
    }
}

#[test]
fn non_ascii_text_is_kept() {
    assert_eq!(remove_triple_newlines("é\n\n\n\nü"), "é\n\nü");
}

#[test]
fn chars_in_order() {
    assert_eq!(to_chars("aé-b"), vec!['a', 'é', '-', 'b']);
    assert!(to_chars("").is_empty());
}
