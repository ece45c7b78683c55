use thermite::ui::{
    dry_run_report, info_box_body, is_yes_answer, phase_label, sink_proceeds, sink_warning, wrap_line,
    wrap_ok,
};

#[test]
fn wrap_line_unicode_width() {
    let line: String = "─".repeat(62);
    assert!(wrap_ok(&line, 62));
    let chunks = wrap_line(&line, 62);
    assert_eq!(chunks.len(), 1, "62-char Unicode line should not be split");
}

#[test]
fn wrap_line_preserves_leading_indent() {
    let line = "  If foo is not available: use the system package instead of the vendored copy.";
    let chunks = wrap_line(line, 40);
    assert!(chunks.len() > 1, "line should wrap into multiple chunks");
    assert!(chunks[0].starts_with("  "), "first chunk must keep leading indent, got: {:?}", chunks[0]);
    for chunk in &chunks[1..] {
        assert!(
            chunk.starts_with("  "),
            "continuation chunk must preserve leading 2-space indent, got: {chunk:?}"
        );
    }
}

#[test]
fn wrap_line_no_indent_no_hanging() {
    let line = "This is a long sentence with no leading whitespace that should wrap cleanly.";
    let chunks = wrap_line(line, 40);
    assert!(chunks.len() > 1, "line should wrap");
    for chunk in &chunks[1..] {
        assert!(
            !chunk.starts_with(' '),
            "continuation chunk of an unindented line must not gain indent, got: {chunk:?}"
        );
    }
}

#[test]
fn wrap_line_indented_url_no_infinite_loop() {
    let url = "  https://launchpad.net/~rust-toolchain/+archive/ubuntu/staging/";
    let chunks = wrap_line(url, 62);
    assert_eq!(chunks, vec![url.to_owned()], "indented URL with no spaces should be emitted as-is");
}

#[test]
fn wrap_line_exact_chunks() {
    let chunks = wrap_line("aaa bbb ccc ddd", 8);
    assert_eq!(chunks, vec!["aaa bbb".to_owned(), "ccc ddd".to_owned()]);
    assert_eq!(wrap_line("", 10), vec!["".to_owned()]);
}

#[test]
fn wrap_ok_rejects_spaces_past_the_width_in_the_indent() {
    assert!(!wrap_ok("      x", 3));
    assert!(wrap_ok("  x", 3));
}

#[test]
fn phase_label_and_answers() {
    assert_eq!(phase_label(3, "Changelog"), "  THERMITE — Phase 3: Changelog");
    assert!(is_yes_answer(" Y "));
    assert!(is_yes_answer("yes"));
    assert!(is_yes_answer("YES"));
    assert!(!is_yes_answer(""));
    assert!(!is_yes_answer("yep"));
}

#[test]
fn dry_run_report_skips_blank_lines() {
    let targets = vec!["".to_owned(), "  PPA: my-ppa".to_owned(), "  ".to_owned()];
    assert_eq!(
        dry_run_report("Create PPA", &targets),
        vec!["  [dry-run] SKIP: Create PPA".to_owned(), "              PPA: my-ppa".to_owned()]
    );
}

#[test]
fn sink_warning_appends_the_irreversibility_note() {
    let (title, body) = sink_warning("Upload", &vec!["  x".to_owned()]);
    assert_eq!(title, "WARNING — Upload");
    assert_eq!(
        body,
        vec!["  x".to_owned(), String::new(), "This operation cannot be automatically reversed.".to_owned()]
    );
}

#[test]
fn info_box_body_wraps_each_line() {
    let lines = vec!["short".to_owned(), String::new()];
    let body = info_box_body(&lines);
    assert_eq!(body, vec!["    short".to_owned(), String::new()]);
}

#[test]
fn dry_run_never_performs_irreversible_operations() {
    assert!(!sink_proceeds(true, "yes"));
    assert!(!sink_proceeds(true, "y"));
    assert!(sink_proceeds(false, " YES\n"));
    assert!(!sink_proceeds(false, "\n"));
    assert!(!sink_proceeds(false, "no"));
}

#[test]
fn wrap_line_keeps_words_in_order_and_fits_width() {
    let line = "aaa bbb ccc";
    let chunks = wrap_line(line, 7);
    assert_eq!(chunks, vec!["aaa".to_owned(), "bbb ccc".to_owned()]);
    let words: Vec<&str> = chunks.iter().flat_map(|c| c.split_whitespace()).collect();
    assert_eq!(words, line.split_whitespace().collect::<Vec<_>>());
    assert_eq!(wrap_line("short", 10), vec!["short".to_owned()]);
}
