use thermite::steps::control::{
    add_build_dependency, check_no_windows_crates, update_xs_vendored_sources,
    verify_bootstrap_deps,
};
use thermite::steps::copyright::{add_vendor_exclusion, comment_out_vendor_exclusion};
use thermite::steps::lintian::{lintian_input_ok, parse_lintian_output, remove_mismatched_overrides};
use thermite::steps::patches::{
    parse_conflicted_files, parse_failing_patch_name, quilt_merge_report, quilt_push_failure,
    QuiltResult,
};
use thermite::types::versions::ShortRustVersion;

#[test]
fn add_build_dependency_appends_to_build_depends() {
    let content =
        "Source: rustc-1.85\nBuild-Depends: debhelper (>= 13),\n libssl-dev,\nRules-Requires-Root: no\n";
    let result = add_build_dependency(content, "libonig-dev");
    assert!(result.contains("libonig-dev"), "new dep should appear in file");
    assert!(result.contains("Build-Depends:"), "section header must be preserved");
    assert_eq!(
        result,
        "Source: rustc-1.85\nBuild-Depends: debhelper (>= 13),\n libssl-dev,\n libonig-dev,\nRules-Requires-Root: no\n"
    );
}

#[test]
fn add_vendor_exclusion_adds_pattern() {
    let content = "Format: https://www.debian.org/doc/packaging-manuals/copyright-format/1.0/\n\
         Files-Excluded-vendor:\n libfoo/\n";
    let result = add_vendor_exclusion(content, "libgit2/");
    assert!(result.contains("libgit2/"), "new exclusion should appear in file");
}

#[test]
fn parse_lintian_output_classifies_errors_and_warnings() {
    let raw = "E: rustc-1.85: some-error-tag description here\n\
               W: rustc-1.85: some-warning-tag description here\n\
               I: rustc-1.85: info-tag informational\n";
    assert!(lintian_input_ok(raw));
    let out = parse_lintian_output(raw);
    assert_eq!(out.errors.len(), 1, "expected 1 error");
    assert_eq!(out.warnings.len(), 1, "expected 1 warning");
    assert_eq!(out.errors[0].tag, "some-error-tag");
    assert_eq!(out.warnings[0].tag, "some-warning-tag");
}

#[test]
fn parse_lintian_output_from_combined_stdout_stderr() {
    let stdout_part = "E: pkg: missing-copyright-file vendor/foo\n";
    let stderr_part = "N: 1 tag overridden\n";
    let combined = stdout_part.to_owned() + stderr_part;
    assert!(lintian_input_ok(&combined));
    let out = parse_lintian_output(&combined);
    assert_eq!(out.errors.len(), 1);
    assert_eq!(out.errors[0].tag, "missing-copyright-file");
    assert_eq!(out.raw, combined);
}

#[test]
fn parse_failing_patch_name_extracts_last_patch() {
    let output = "Applying patch debian/patches/d-0001-foo.patch\n\
                  patching file src/foo.rs\n\
                  Applying patch debian/patches/d-0002-bar.patch\n\
                  Hunk #1 FAILED at 42.\n";
    let name = parse_failing_patch_name(output);
    assert_eq!(name, "debian/patches/d-0002-bar.patch");
}

#[test]
fn parse_conflicted_files_extracts_paths() {
    let output = "Applying patch debian/patches/d-0010-net.patch\n\
                  patching file src/tools/cargo/net.rs\n\
                  Hunk #1 FAILED at 10 in src/tools/cargo/net.rs.\n\
                  1 out of 1 hunk FAILED -- rejects in src/tools/cargo/net.rs\n";
    let files = parse_conflicted_files(output);
    assert!(!files.is_empty(), "expected at least one conflicted file");
}

#[test]
fn parse_failing_patch_name_empty_for_no_match() {
    assert_eq!(parse_failing_patch_name("no patch lines here"), "");
}

#[test]
fn conflicted_files_take_first_path_like_word_per_failed_line() {
    let output = "Hunk #2 FAILED at 7 in lib/a.c:\nnothing here\nFAILED x.rs y/z\n";
    assert_eq!(parse_conflicted_files(output), vec!["lib/a.c".to_owned(), "x.rs".to_owned()]);
}

#[test]
fn quilt_reports_combine_both_streams() {
    match quilt_push_failure("", "Applying patch p1.patch\n") {
        QuiltResult::PatchFailed { patch_name, conflicted_files } => {
            assert_eq!(patch_name, "p1.patch");
            assert!(conflicted_files.is_empty());
        }
        other => panic!("unexpected {other:?}"),
    }
    match quilt_merge_report("Applying patch p2.patch\nHunk #1 FAILED at 1 in a/b.rs\n") {
        QuiltResult::PatchFailed { patch_name, conflicted_files } => {
            assert_eq!(patch_name, "p2.patch");
            assert_eq!(conflicted_files, vec!["a/b.rs".to_owned()]);
        }
        other => panic!("unexpected {other:?}"),
    }
}

#[test]
fn lintian_parser_refuses_lines_it_cannot_slice() {
    assert!(!lintian_input_ok("E:é x\n"));
    assert!(lintian_input_ok("É: x\n"));
    assert!(lintian_input_ok("E: é: t\n"));
}

#[test]
fn remove_mismatched_overrides_drops_listed_entries() {
    let content = "# keep\nrustc-1.85 source: tag-a foo\nrustc-1.85 source: tag-b bar\n";
    let entries = vec!["tag-a foo".to_owned()];
    let out = remove_mismatched_overrides(content, &entries);
    assert!(!out.contains("tag-a foo"));
    assert!(out.contains("tag-b bar"));
    assert!(out.contains("# keep"));
}

#[test]
fn vendored_sources_and_windows_crates() {
    let control = "Source: rustc-1.86\nXS-Vendored-Sources-Rust: old\nBuild-Depends: x\n";
    let out = update_xs_vendored_sources(control, "a@1, b@2");
    assert_eq!(out, "Source: rustc-1.86\nXS-Vendored-Sources-Rust: a@1, b@2\nBuild-Depends: x\n");
    let found = check_no_windows_crates("libc@0.2, windows-targets@0.52, Windows-sys@0.59, winapi@0.3");
    assert_eq!(found, vec!["windows-targets@0.52".to_owned(), "Windows-sys@0.59".to_owned()]);
}

#[test]
fn bootstrap_deps_must_name_both_versions() {
    let old = ShortRustVersion { major: 1, minor: 85 };
    let new = ShortRustVersion { major: 1, minor: 86 };
    let control = "Build-Depends: rustc-1.85 <!pkg.rustc.dlstage0>,\n rustc-1.86 <!pkg.rustc.dlstage0>,\n";
    assert!(verify_bootstrap_deps(control, &old, &new).is_ok());
    assert!(verify_bootstrap_deps("Build-Depends: x\n", &old, &new).is_err());
}

#[test]
fn comment_out_vendor_exclusion_comments_vendor_lines() {
    let content = "Files-Excluded:\n  vendor\n vendor/foo\n src/llvm-project\n";
    let out = comment_out_vendor_exclusion(content);
    assert_eq!(out, "Files-Excluded:\n#  vendor\n vendor/foo\n src/llvm-project\n");
}

#[test]
fn ascii_lintian_output_is_always_classifiable() {
    assert!(lintian_input_ok("E: rustc: some-tag detail\nW: x\nI:\nP"));
    assert!(!lintian_input_ok("E\u{e9}"));
    assert!(!lintian_input_ok("E:\u{e9}x"));
}
