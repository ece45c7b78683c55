use thermite::commands::backport::{
    archive_bug_link, backport_names, bug_number_input_problem, chain_check, check_tools, compat_summary_line,
    phase_explanation, pick_newest_changes, ppa_upload_number, required_tools,
    resolve_source_branch_name, skipped_release_lines, staging_ppa_extra_repository,
    tally_checks, ChainCheck, CompatTally,
};
use thermite::error::ThermiteError;
use thermite::steps::compat::{ArchiveStatus, CheckResult, Inference};
use thermite::types::params::BackportParams;
use thermite::types::ubuntu::UbuntuRelease;

#[test]
fn backport_required_tools_contains_workflow_dependencies() {
    let tools = required_tools();
    for tool in &[
        "git",
        "dch",
        "uscan",
        "quilt",
        "dpkg-buildpackage",
        "lintian",
        "sbuild",
        "dput",
        "ppa",
    ] {
        assert!(tools.contains(tool), "required tools lack '{tool}'");
    }
}

#[test]
fn staging_ppa_extra_repository_format() {
    let arg = staging_ppa_extra_repository("noble");
    assert_eq!(
        arg,
        "--extra-repository=deb [trusted=yes] http://ppa.launchpad.net/rust-toolchain/staging/ubuntu/ noble main"
    );
}

#[test]
fn staging_ppa_extra_repository_includes_release_name() {
    let arg = staging_ppa_extra_repository("jammy");
    assert!(
        arg.contains("jammy main"),
        "expected release name in extra-repository arg, got: {arg}"
    );
}

#[test]
fn resolve_source_branch_name_prefers_primary_when_present() {
    assert_eq!(
        resolve_source_branch_name("resolute-1.85", "merge-1.85", true, true),
        Some("resolute-1.85")
    );
}

#[test]
fn resolve_source_branch_name_falls_back_to_merge_when_primary_absent() {
    assert_eq!(
        resolve_source_branch_name("stonking-1.85", "merge-1.85", false, true),
        Some("merge-1.85")
    );
}

#[test]
fn resolve_source_branch_name_returns_none_when_both_absent() {
    assert_eq!(
        resolve_source_branch_name("stonking-1.85", "merge-1.85", false, false),
        None
    );
}

#[test]
fn resolve_source_branch_name_returns_none_when_only_primary_absent_and_no_fallback() {
    assert_eq!(
        resolve_source_branch_name("resolute-1.85", "merge-1.85", false, false),
        None
    );
}

#[test]
fn newest_changes_file_is_picked_by_time() {
    let files = vec![
        ("rustc-1.84_amd64.changes".to_owned(), Some(100)),
        ("rustc-1.85_amd64.changes".to_owned(), Some(200)),
        ("rustc-1.85_amd64.buildinfo".to_owned(), Some(300)),
    ];
    assert_eq!(pick_newest_changes(&files), Some(1));
    let none: Vec<(String, Option<u64>)> = vec![("a.dsc".to_owned(), Some(5))];
    assert_eq!(pick_newest_changes(&none), None);
    let unknown = vec![("a.changes".to_owned(), None), ("b.changes".to_owned(), Some(0))];
    assert_eq!(pick_newest_changes(&unknown), Some(1));
}

#[test]
fn check_tools_lists_every_missing_tool() {
    let checks = vec![("git".to_owned(), true), ("dch".to_owned(), false), ("ppa".to_owned(), false)];
    match check_tools(&checks) {
        Err(ThermiteError::CommandNotFound(m)) => assert_eq!(m, "dch, ppa"),
        other => panic!("unexpected {other:?}"),
    }
    assert!(check_tools(&vec![("git".to_owned(), true)]).is_ok());
}

#[test]
fn chain_check_accepts_one_step_and_reports_skips() {
    let noble = UbuntuRelease::parse("noble").unwrap();
    let jammy = UbuntuRelease::parse("jammy").unwrap();
    let focal = UbuntuRelease::parse("focal").unwrap();
    let plucky = UbuntuRelease::parse("plucky").unwrap();
    assert_eq!(chain_check(&noble, &jammy), ChainCheck::Adjacent);
    assert_eq!(chain_check(&noble, &focal), ChainCheck::MultiStep { lower: 0, upper: 2 });
    assert_eq!(
        chain_check(&plucky, &jammy),
        ChainCheck::OffChain { source_off: true, target_off: false }
    );
    assert_eq!(
        skipped_release_lines(0, 2),
        vec!["  - jammy (series 22.04, LTS)".to_owned()]
    );
}

#[test]
fn ppa_upload_number_defaults_to_one() {
    assert_eq!(ppa_upload_number("3"), 3);
    assert_eq!(ppa_upload_number("x"), 1);
    assert_eq!(ppa_upload_number(""), 1);
}

#[test]
fn compat_tally_and_summary() {
    let ok = CheckResult {
        name: "LLVM",
        inference: Inference::Inferred { value: "19".to_owned(), source: "rules".to_owned() },
        archive_status: ArchiveStatus::Available("1:19".to_owned()),
        guidance: "",
        url: String::new(),
    };
    let missing = CheckResult {
        name: "cmake",
        inference: Inference::CouldNotInfer("no cmake".to_owned()),
        archive_status: ArchiveStatus::NotPublished,
        guidance: "",
        url: String::new(),
    };
    let t = tally_checks(&vec![ok.clone(), missing]);
    assert_eq!(t, CompatTally { ok: 1, attention: 1, infer_failed: 1, archive_failed: 0 });
    assert_eq!(
        compat_summary_line(t, 2),
        "  Summary: 1/2 checks passed, 1 need attention, 1 could not infer."
    );
    let clean = tally_checks(&vec![ok]);
    assert_eq!(compat_summary_line(clean, 1), "  Summary: 1/1 checks passed — no action needed.");
}

#[test]
fn phase_explanation_only_at_high_verbosity() {
    assert!(phase_explanation(3, 1).is_none());
    assert!(phase_explanation(99, 2).is_none());
    let lines = phase_explanation(3, 2).unwrap();
    assert_eq!(lines.len(), 3);
    assert!(lines[2].ends_with("#changelog-version"));
}

#[test]
fn archive_bug_link_without_bug() {
    assert!(archive_bug_link(None).ends_with("+bug/<no bug>"));
    assert!(archive_bug_link(Some("123")).ends_with("+bug/123"));
}

#[test]
fn backport_names_follow_parameters() {
    let p = BackportParams::new("1.85.0", "noble", "jammy", "jdoe", "foundations", None, false)
        .unwrap();
    let n = backport_names(&p);
    assert_eq!(n.pkg_name, "rustc-1.85");
    assert_eq!(n.primary_source_branch, "noble-1.85");
    assert_eq!(n.fallback_source_branch, "merge-1.85");
    assert_eq!(n.target_branch, "jammy-1.85");
    assert_eq!(n.ppa_name, "rustc-1.85-jammy");
    assert_eq!(n.filebug_url, "https://bugs.launchpad.net/ubuntu/+source/rustc-1.85/+filebug");
    assert_eq!(n.bug_display, "(none — proactive backport)");
}

#[test]
fn bug_number_prompt_answers() {
    assert_eq!(bug_number_input_problem("12345"), None);
    assert_eq!(bug_number_input_problem(""), Some("Bug number cannot be empty. Please try again."));
    assert_eq!(
        bug_number_input_problem("12a"),
        Some("Bug number must contain only digits. Please try again.")
    );
}
