use thermite::steps::sbuild::{
    build_artifact_patterns, disable_self_build_test, extract_test_failures,
    pick_latest_build_log, sbuild_args, sbuild_failure_log, SelfBuildTestOutcome,
};

#[test]
fn removes_self_build_block_pattern_a() {
    let control_content = "\
Test-Command: ./debian/rules build RUST_TEST_SELFBUILD=1
Depends: @, @builddeps@
Restrictions: rw-build-tree, allow-stderr

Test-Command: cargo test
Depends: @
Restrictions: allow-stderr
";
    let (outcome, result) = disable_self_build_test(control_content);
    assert_eq!(outcome, SelfBuildTestOutcome::Removed);
    let result = result.expect("new content");
    assert!(!result.contains("RUST_TEST_SELFBUILD"));
    assert!(result.contains("cargo test"));
}

#[test]
fn removes_self_build_block_pattern_b() {
    let control_content = "\
Test-Command: ./debian/rules build RUST_TEST_SELFBUILD=1
Depends: @, @builddeps@
Restrictions: rw-build-tree, allow-stderr
# Other arches work but are flaky due to memory limitations.
# Additionally, the test doesn't test for anything arch-specific.
Architecture: amd64

Test-Command: cargo test
Depends: @
Restrictions: allow-stderr
";
    let (outcome, result) = disable_self_build_test(control_content);
    assert_eq!(outcome, SelfBuildTestOutcome::Removed);
    let result = result.expect("new content");
    assert!(!result.contains("RUST_TEST_SELFBUILD"));
    assert!(!result.contains("Architecture: amd64"));
    assert!(result.contains("cargo test"));
}

#[test]
fn pattern_b_with_extra_field_needs_manual_intervention() {
    let control_content = "\
Test-Command: ./debian/rules build RUST_TEST_SELFBUILD=1
Depends: @, @builddeps@
Restrictions: rw-build-tree, allow-stderr
# Other arches work but are flaky due to memory limitations.
# Additionally, the test doesn't test for anything arch-specific.
Architecture: amd64 arm64

Test-Command: cargo test
Depends: @
Restrictions: allow-stderr
";
    let (outcome, result) = disable_self_build_test(control_content);
    assert_eq!(outcome, SelfBuildTestOutcome::NeedsManualIntervention);
    assert_eq!(result, None, "the file must be left untouched");
}

#[test]
fn trailing_whitespace_tolerated() {
    let control_content = "\
Test-Command: ./debian/rules build RUST_TEST_SELFBUILD=1   
Depends: @, @builddeps@   
Restrictions: rw-build-tree, allow-stderr   

Test-Command: cargo test
Depends: @
Restrictions: allow-stderr
";
    let (outcome, result) = disable_self_build_test(control_content);
    assert_eq!(outcome, SelfBuildTestOutcome::Removed);
    let result = result.expect("new content");
    assert!(!result.contains("RUST_TEST_SELFBUILD"));
    assert!(result.contains("cargo test"));
}

#[test]
fn marker_alone_without_depends_needs_manual_intervention() {
    let control_content = "\
Test-Command: ./debian/rules build RUST_TEST_SELFBUILD=1

Test-Command: cargo test
Depends: @
Restrictions: allow-stderr
";
    let (outcome, result) = disable_self_build_test(control_content);
    assert_eq!(outcome, SelfBuildTestOutcome::NeedsManualIntervention);
    assert_eq!(result, None);
}

#[test]
fn no_op_when_block_absent() {
    let control_content = "\
Test-Command: cargo test
Depends: @
Restrictions: allow-stderr
";
    let (outcome, result) = disable_self_build_test(control_content);
    assert_eq!(outcome, SelfBuildTestOutcome::AlreadyAbsent);
    assert_eq!(result, None);
}

#[test]
fn no_op_when_control_file_missing() {
    let (outcome, result) = disable_self_build_test("");
    assert_eq!(outcome, SelfBuildTestOutcome::AlreadyAbsent);
    assert_eq!(result, None);
}

#[test]
fn removes_leading_blanks_after_top_of_file_removal() {
    let control_content = "\
Test-Command: ./debian/rules build RUST_TEST_SELFBUILD=1
Depends: @, @builddeps@
Restrictions: rw-build-tree, allow-stderr

Test-Command: cargo test
Depends: @
Restrictions: allow-stderr
";
    let (outcome, result) = disable_self_build_test(control_content);
    assert_eq!(outcome, SelfBuildTestOutcome::Removed);
    let result = result.expect("new content");
    assert!(!result.starts_with('\n'), "no leading blank line after removal: {result:?}");
    assert_eq!(result, "Test-Command: cargo test\nDepends: @\nRestrictions: allow-stderr\n");
}

#[test]
fn sbuild_log_and_args() {
    assert_eq!(sbuild_failure_log("", ""), "(sbuild produced no output)\n");
    let log = sbuild_failure_log("out", "");
    assert!(log.starts_with("=== sbuild stdout ===\n"));
    assert!(log.contains("out"));
    let extra = vec!["--no-clean".to_owned()];
    assert_eq!(sbuild_args("noble", &extra), vec!["-Adnoble".to_owned(), "--no-clean".to_owned()]);
    assert!(build_artifact_patterns().contains(&"*.changes"));
}

#[test]
fn latest_build_log_is_the_newest_dot_build() {
    let files = vec![
        ("a.build".to_owned(), Some(5)),
        ("b.build".to_owned(), Some(9)),
        ("c.changes".to_owned(), Some(20)),
    ];
    assert_eq!(pick_latest_build_log(&files), Some(1));
    assert_eq!(pick_latest_build_log(&vec![("x.dsc".to_owned(), Some(1))]), None);
}

#[test]
fn test_failure_sections_are_extracted() {
    let log = "running\n---- tests::a stdout ----\nboom\n\nfailures:\n";
    let sections = extract_test_failures(log);
    assert_eq!(sections, vec!["---- tests::a stdout ----\nboom\n\n".to_owned()]);
    let unterminated = "---- tests::b stdout ----\nboom\n";
    assert!(extract_test_failures(unterminated).is_empty());
}
