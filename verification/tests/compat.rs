use thermite::steps::compat::{
    contains_word, find_word, infer_cmake, infer_debhelper_compat, infer_dh_cargo,
    infer_libgit2_version, infer_llvm_version, infer_pkgconf, parse_rmadison_version,
    ArchiveStatus, CheckResult, Inference, archive_query, archive_status_from_failure,
    archive_status_from_listing, check_result, infer, lp_source_url, version_floor, CompatCheck,
};

// ── parse_rmadison_version ─────────────────────────────────────────────

#[test]
fn parse_rmadison_version_picks_matching_suite() {
    let out = "\
rustc | 1.85.0+dfsg1~24.04-0ubuntu1~24.04.1 | noble-security | source
rustc | 1.85.0+dfsg1~24.04-0ubuntu1~24.04.1 | noble-updates   | source
rustc | 1.85.0+dfsg1-0ubuntu1               | noble           | source
";
    let v = parse_rmadison_version(out, "noble");
    assert_eq!(v.as_deref(), Some("1.85.0+dfsg1~24.04-0ubuntu1~24.04.1"));
}

#[test]
fn parse_rmadison_version_returns_none_when_not_published() {
    let out = "\
rustc | 1.85.0+dfsg1-0ubuntu1 | oracular | source
";
    assert!(parse_rmadison_version(out, "jammy").is_none());
}

#[test]
fn parse_rmadison_version_skips_blank_and_warning_lines() {
    let out = "\
warning: some network hiccup
\n\
rustc | 1.85.0+dfsg1-0ubuntu1 | jammy | source
";
    let v = parse_rmadison_version(out, "jammy");
    assert_eq!(v.as_deref(), Some("1.85.0+dfsg1-0ubuntu1"));
}

#[test]
fn parse_rmadison_version_handles_empty_output() {
    assert!(parse_rmadison_version("", "jammy").is_none());
}

#[test]
fn parse_rmadison_version_handles_component_suffix() {
    let out = "\
llvm-toolchain-22 | 1:22.1.2-1ubuntu1 | resolute/universe          | source
llvm-toolchain-22 | 1:22.1.6-1ubuntu1 | stonking/universe          | source
llvm-toolchain-22 | 1:22.1.6-1ubuntu2 | stonking-proposed/universe | source
";
    let v = parse_rmadison_version(out, "resolute");
    assert_eq!(v.as_deref(), Some("1:22.1.2-1ubuntu1"));
}

#[test]
fn parse_rmadison_version_component_suffix_for_pocket() {
    let out = "\
llvm-toolchain-22 | 1:22.1.6-1ubuntu2 | resolute-proposed/universe | source
llvm-toolchain-22 | 1:22.1.2-1ubuntu1 | resolute/universe          | source
";
    let v = parse_rmadison_version(out, "resolute");
    assert_eq!(v.as_deref(), Some("1:22.1.6-1ubuntu2"));
}

#[test]
fn parse_rmadison_version_component_suffix_does_not_cross_release() {
    let out = "\
llvm-toolchain-22 | 1:22.1.2-1ubuntu1 | resolute/universe | source
llvm-toolchain-22 | 1:22.1.6-1ubuntu1 | stonking/universe | source
";
    assert_eq!(
        parse_rmadison_version(out, "resolute").as_deref(),
        Some("1:22.1.2-1ubuntu1")
    );
    assert_eq!(
        parse_rmadison_version(out, "stonking").as_deref(),
        Some("1:22.1.6-1ubuntu1")
    );
}

// ── infer_llvm_version ─────────────────────────────────────────────────

#[test]
fn infer_llvm_version_from_rules() {
    let content = "#!/usr/bin/make -f\nLLVM_VERSION = 19\nOLD_LLVM_VERSION = 18\n";
    match infer_llvm_version(content) {
        Inference::Inferred { value, source } => {
            assert_eq!(value, "19");
            assert!(source.contains("LLVM_VERSION = 19"));
        }
        other => panic!("expected Inferred, got {other:?}"),
    }
}

#[test]
fn infer_llvm_version_skips_commented_assignment() {
    let content = "# # Use system LLVM (comment out to use vendored LLVM)\n# LLVM_VERSION = 19\n";
    assert!(matches!(
        infer_llvm_version(content),
        Inference::CouldNotInfer(_)
    ));
}

#[test]
fn infer_llvm_version_missing_returns_could_not_infer() {
    let content = "#!/usr/bin/make -f\nall:\n\techo hi\n";
    assert!(matches!(
        infer_llvm_version(content),
        Inference::CouldNotInfer(_)
    ));
}

// ── infer_libgit2_version ──────────────────────────────────────────────

#[test]
fn infer_libgit2_version_with_constraint() {
    let content = "Source: rustc-1.85\nBuild-Depends:\n libgit2-dev (>= 1.9.0~~),\n libssl-dev,\n";
    match infer_libgit2_version(content) {
        Inference::Inferred { value, .. } => assert_eq!(value, "1.9.0~~"),
        other => panic!("expected Inferred, got {other:?}"),
    }
}

#[test]
fn infer_libgit2_version_without_constraint() {
    let content = "Build-Depends:\n libgit2-dev,\n";
    match infer_libgit2_version(content) {
        Inference::Inferred { value, .. } => assert!(value.is_empty()),
        other => panic!("expected Inferred, got {other:?}"),
    }
}

#[test]
fn infer_libgit2_version_absent_returns_could_not_infer() {
    let content = "Build-Depends:\n libssl-dev,\n";
    assert!(matches!(
        infer_libgit2_version(content),
        Inference::CouldNotInfer(_)
    ));
}

// ── infer_dh_cargo ─────────────────────────────────────────────────────

#[test]
fn infer_dh_cargo_with_constraint() {
    let content = "Build-Depends:\n dh-cargo (>= 28ubuntu1~),\n";
    match infer_dh_cargo(content) {
        Inference::Inferred { value, .. } => assert_eq!(value, "28ubuntu1~"),
        other => panic!("expected Inferred, got {other:?}"),
    }
}

#[test]
fn infer_dh_cargo_absent_returns_could_not_infer() {
    let content = "Build-Depends:\n debhelper (>= 13),\n";
    assert!(matches!(infer_dh_cargo(content), Inference::CouldNotInfer(_)));
}

// ── infer_pkgconf ──────────────────────────────────────────────────────

#[test]
fn infer_pkgconf_present() {
    let content = "Build-Depends:\n pkgconf,\n";
    match infer_pkgconf(content) {
        Inference::Inferred { value, .. } => assert_eq!(value, "present"),
        other => panic!("expected Inferred, got {other:?}"),
    }
}

#[test]
fn infer_pkgconf_pkg_config_in_use() {
    let content = "Build-Depends:\n pkg-config,\n";
    match infer_pkgconf(content) {
        Inference::Inferred { value, .. } => assert_eq!(value, "pkg-config"),
        other => panic!("expected Inferred, got {other:?}"),
    }
}

#[test]
fn infer_pkgconf_absent_returns_could_not_infer() {
    let content = "Build-Depends:\n debhelper (>= 13),\n";
    assert!(matches!(infer_pkgconf(content), Inference::CouldNotInfer(_)));
}

// ── infer_cmake ────────────────────────────────────────────────────────

#[test]
fn infer_cmake_with_constraint() {
    let content = "Build-Depends:\n cmake (>= 3.0) | cmake3,\n";
    match infer_cmake(content) {
        Inference::Inferred { value, .. } => assert_eq!(value, "3.0"),
        other => panic!("expected Inferred, got {other:?}"),
    }
}

#[test]
fn infer_cmake_skips_cmake_mozilla() {
    let content = "Build-Depends:\n cmake-mozilla (>= 3.0),\n";
    assert!(matches!(infer_cmake(content), Inference::CouldNotInfer(_)));
}

// ── infer_debhelper_compat ─────────────────────────────────────────────

#[test]
fn infer_debhelper_compat_equals() {
    let content = "Build-Depends:\n debhelper-compat (= 13),\n";
    match infer_debhelper_compat(content) {
        Inference::Inferred { value, .. } => assert_eq!(value, "13"),
        other => panic!("expected Inferred, got {other:?}"),
    }
}

#[test]
fn infer_debhelper_compat_absent_returns_could_not_infer() {
    let content = "Build-Depends:\n debhelper (>= 13),\n";
    assert!(matches!(
        infer_debhelper_compat(content),
        Inference::CouldNotInfer(_)
    ));
}

// ── word-boundary helpers ──────────────────────────────────────────────

#[test]
fn contains_word_matches_bare_word() {
    assert!(contains_word(" pkgconf,", "pkgconf"));
    assert!(contains_word("pkgconf", "pkgconf"));
    assert!(contains_word(" pkgconf ", "pkgconf"));
}

#[test]
fn contains_word_does_not_match_substring() {
    assert!(!contains_word("pkg-config", "pkgconf"));
    assert!(!contains_word("cmake-mozilla", "cmake"));
}

#[test]
fn find_word_returns_index() {
    assert_eq!(find_word(" pkgconf,", "pkgconf"), Some(1));
    assert_eq!(find_word("pkg-config", "pkgconf"), None);
}

// ── CheckResult::is_ok ─────────────────────────────────────────────────

#[test]
fn check_result_is_ok_only_when_available() {
    let ok = CheckResult {
        name: "test",
        inference: Inference::Inferred {
            value: "x".to_owned(),
            source: "src".to_owned(),
        },
        archive_status: ArchiveStatus::Available("1.0".to_owned()),
        guidance: "",
        url: "u".to_owned(),
    };
    assert!(ok.is_ok());

    let not_ok = CheckResult {
        name: "test",
        inference: Inference::Inferred {
            value: "x".to_owned(),
            source: "src".to_owned(),
        },
        archive_status: ArchiveStatus::NotPublished,
        guidance: "",
        url: "u".to_owned(),
    };
    assert!(!not_ok.is_ok());
}

#[test]
fn infer_dispatches_on_the_check() {
    let control = "Build-Depends:\n debhelper-compat (= 12),\n libgit2-dev (>= 1.7.2~~),\n";
    match infer(CompatCheck::DebhelperCompat, control) {
        Inference::Inferred { value, .. } => assert_eq!(value, "12"),
        other => panic!("unexpected {other:?}"),
    }
    match infer(CompatCheck::Libgit2, control) {
        Inference::Inferred { value, .. } => assert_eq!(value, "1.7.2~~"),
        other => panic!("unexpected {other:?}"),
    }
}

#[test]
fn archive_status_from_listing_and_failure() {
    let out = "rustc | 1.85.0+dfsg1-0ubuntu1 | jammy | source\n";
    assert!(matches!(archive_status_from_listing(out, "jammy"), ArchiveStatus::Available(v) if v == "1.85.0+dfsg1-0ubuntu1"));
    assert!(matches!(archive_status_from_listing(out, "noble"), ArchiveStatus::NotPublished));
    assert!(matches!(archive_status_from_failure("", "  boom \n"), ArchiveStatus::CheckFailed(m) if m == "boom"));
    assert!(matches!(archive_status_from_failure("", ""), ArchiveStatus::CheckFailed(m) if m == "rmadison exited non-zero"));
}

#[test]
fn archive_query_and_floor() {
    let llvm = Inference::Inferred { value: "19".to_owned(), source: "s".to_owned() };
    assert_eq!(archive_query(CompatCheck::Llvm, &llvm), Some("llvm-toolchain-19".to_owned()));
    assert_eq!(version_floor(CompatCheck::Llvm, &llvm), None);
    let git = Inference::Inferred { value: "1.9.0~~".to_owned(), source: "s".to_owned() };
    assert_eq!(version_floor(CompatCheck::Libgit2, &git), Some("1.9.0".to_owned()));
    let none = Inference::CouldNotInfer("x".to_owned());
    assert_eq!(archive_query(CompatCheck::Cmake, &none), None);
    let pc = Inference::Inferred { value: "pkg-config".to_owned(), source: "s".to_owned() };
    assert_eq!(archive_query(CompatCheck::Pkgconf, &pc), None);
    assert_eq!(lp_source_url("noble", "cmake"), "https://launchpad.net/ubuntu/noble/+source/cmake");
}

#[test]
fn check_result_marks_too_old_when_floor_not_met() {
    let inf = Inference::Inferred { value: "3.20".to_owned(), source: "control".to_owned() };
    let r = check_result(CompatCheck::Cmake, inf, "focal", ArchiveStatus::Available("3.16".to_owned()), false);
    assert_eq!(r.name, "cmake");
    assert!(!r.is_ok());
    assert!(matches!(&r.archive_status, ArchiveStatus::TooOld { available, required } if available == "3.16" && required == "3.20"));
    assert!(!r.guidance.is_empty());
    let inf2 = Inference::Inferred { value: "3.20".to_owned(), source: "control".to_owned() };
    let ok = check_result(CompatCheck::Cmake, inf2, "noble", ArchiveStatus::Available("3.28".to_owned()), true);
    assert!(ok.is_ok());
}

#[test]
fn find_word_returns_first_whole_word_position() {
    assert_eq!(find_word("pkgconf-x pkgconf", "pkgconf"), Some(10));
    assert_eq!(find_word("libpkgconf, pkgconf (>= 1)", "pkgconf"), Some(12));
    assert_eq!(find_word("pkgconfig", "pkgconf"), None);
}
