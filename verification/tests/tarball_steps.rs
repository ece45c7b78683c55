use thermite::steps::tarball_fetch::{
    after_download, encode_launchpad_path, expected_tarball_name, CandidateStep, DownloadOutcome, launchpad_files_url,
    parse_rmadison_upstream_versions, tarball_candidates, TarballKind,
    PRIMARY_ARCHIVE_FILES_BASE, STAGING_PPA_FILES_BASE,
};
use thermite::steps::uscan::{
    c_files_in_listing, is_rate_limit_error, next_uscan_retry, no_produced_tarball_error,
    pick_produced_tarball, retry_delay_secs, update_watch_version,
};
use thermite::steps::vendor::{
    is_stale_series_vendor_tarball, missing_vendor_tarball_error, rustup_missing_error,
    stale_vendor_tarballs, toolchain_dir, vendor_tarball_name,
};
use thermite::error::ThermiteError;
use thermite::types::versions::RustVersion;

fn ver(patch: u32) -> RustVersion {
    RustVersion::parse(&format!("1.96.{patch}")).unwrap()
}

#[test]
fn expected_names_match_thermite_contract() {
    let rust_ver = ver(0);
    let rust_short = rust_ver.short();
    assert_eq!(
        expected_tarball_name(&rust_short, &rust_ver, "~26.04", TarballKind::Orig),
        "rustc-1.96_1.96.0+dfsg~26.04.orig.tar.xz"
    );
    assert_eq!(
        expected_tarball_name(&rust_short, &rust_ver, "~26.04", TarballKind::OrigVendor),
        "rustc-1.96_1.96.0+dfsg~26.04.orig-vendor.tar.xz"
    );
    assert_eq!(
        expected_tarball_name(&rust_short, &rust_ver, "", TarballKind::Orig),
        "rustc-1.96_1.96.0+dfsg.orig.tar.xz"
    );
    assert_eq!(
        expected_tarball_name(&rust_short, &rust_ver, "", TarballKind::OrigVendor),
        "rustc-1.96_1.96.0+dfsg.orig-vendor.tar.xz"
    );
}

#[test]
fn launchpad_urls_encode_plus_but_not_tilde() {
    assert_eq!(
        launchpad_files_url(STAGING_PPA_FILES_BASE, "rustc-1.96_1.96.1+dfsg~26.04.orig.tar.xz"),
        "https://launchpad.net/~rust-toolchain/+archive/ubuntu/staging/+files/rustc-1.96_1.96.1%2Bdfsg~26.04.orig.tar.xz"
    );
    assert_eq!(
        launchpad_files_url(PRIMARY_ARCHIVE_FILES_BASE, "rustc-1.96_1.96.1+dfsg.orig.tar.xz"),
        "https://launchpad.net/ubuntu/+archive/primary/+files/rustc-1.96_1.96.1%2Bdfsg.orig.tar.xz"
    );
}

#[test]
fn parse_rmadison_finds_matching_upstream() {
    let stdout = " rustc-1.96 | 1.96.1+dfsg-0ubuntu1 | stonking/universe | source, amd64\n\
                  rustc-1.96 | 1.96.1+dfsg-0ubuntu1 | stonking | source\n";
    assert_eq!(parse_rmadison_upstream_versions(stdout, "1.96.1"), vec!["1.96.1+dfsg".to_owned()]);
}

#[test]
fn parse_rmadison_handles_series_suffixed_versions() {
    let stdout = " rustc-1.85 | 1.85.1+dfsg0ubuntu2~bpo0-0ubuntu0.24.04.2 | noble-updates/universe | source\n\
                  rustc-1.85 | 1.85.1+dfsg0ubuntu2~bpo0-0ubuntu0.24.04.2 | noble-security/universe | source\n\
                  rustc-1.85 | 1.85.0+dfsg1~24.04-0ubuntu1~24.04.1 | noble | source\n";
    assert_eq!(
        parse_rmadison_upstream_versions(stdout, "1.85.1"),
        vec!["1.85.1+dfsg0ubuntu2~bpo0".to_owned()]
    );
    assert_eq!(
        parse_rmadison_upstream_versions(stdout, "1.85.0"),
        vec!["1.85.0+dfsg1~24.04".to_owned()]
    );
}

#[test]
fn parse_rmadison_skips_non_matching_and_malformed_lines() {
    let stdout = "Get:1 https://api.launchpad.net\n\
                  \n\
                  rustc-1.96 | 1.96.1-0ubuntu1 | stonking/universe | source\n\
                  rustc-1.96 | 1.96.0+dfsg-0ubuntu1 | other | source\n\
                  rustc-1.96 | 1.96.0+dfsg1-0ubuntu1\n";
    assert_eq!(parse_rmadison_upstream_versions(stdout, "1.96.0"), vec!["1.96.0+dfsg".to_owned()]);
}

#[test]
fn parse_rmadison_returns_empty_for_no_matches() {
    assert!(parse_rmadison_upstream_versions("", "1.96.0").is_empty());
    assert!(parse_rmadison_upstream_versions("garbage line", "1.96.0").is_empty());
}

#[test]
fn encode_launchpad_path_only_touches_plus() {
    assert_eq!(encode_launchpad_path("a+b~c+"), "a%2Bb~c%2B");
}

#[test]
fn candidates_list_staging_first_then_archive() {
    let v = ver(1);
    let stdout = " rustc-1.96 | 1.96.1+dfsg-0ubuntu1 | stonking | source\n";
    let c = tarball_candidates(&v.short(), &v, "~26.04", TarballKind::Orig, stdout);
    assert_eq!(c.len(), 2);
    assert_eq!(c[0].label, "staging PPA (rustc-1.96_1.96.1+dfsg~26.04.orig.tar.xz)");
    assert_eq!(
        c[1].url,
        "https://launchpad.net/ubuntu/+archive/primary/+files/rustc-1.96_1.96.1%2Bdfsg.orig.tar.xz"
    );
}

#[test]
fn find_produced_tarball_ignores_intermediates() {
    let files = vec![
        ("rustc-1.97.1-src.tar.xz".to_owned(), 10),
        ("uscan.log".to_owned(), 11),
        ("rustc-1.97_1.97.1+dfsg.orig.tar.xz".to_owned(), 5),
    ];
    assert_eq!(pick_produced_tarball(&files), Some(2));
}

#[test]
fn find_produced_tarball_prefers_newest() {
    let files = vec![
        ("rustc-1.96_1.96.0+dfsg1.orig.tar.xz".to_owned(), 100),
        ("rustc-1.97_1.97.1+dfsg.orig.tar.xz".to_owned(), 160),
    ];
    assert_eq!(pick_produced_tarball(&files), Some(1));
}

#[test]
fn find_produced_tarball_errors_when_missing() {
    let files = vec![("rustc-1.97.1-src.tar.xz".to_owned(), 1)];
    assert_eq!(pick_produced_tarball(&files), None);
    match no_produced_tarball_error("/s") {
        ThermiteError::CommandFailed { cmd, stderr, .. } => {
            assert_eq!(cmd, "uscan");
            assert!(stderr.ends_with(" found in /s"));
        }
        other => panic!("unexpected {other:?}"),
    }
}

#[test]
fn uscan_retries_rate_limits_three_times() {
    assert!(is_rate_limit_error("", "HTTP 403 Forbidden"));
    assert!(is_rate_limit_error("API Rate Limit exceeded", ""));
    assert!(!is_rate_limit_error("ok", ""));
    assert_eq!(next_uscan_retry(0, true), Some(15));
    assert_eq!(next_uscan_retry(1, true), Some(30));
    assert_eq!(next_uscan_retry(2, true), Some(60));
    assert_eq!(next_uscan_retry(3, true), None);
    assert_eq!(next_uscan_retry(0, false), None);
    assert_eq!(retry_delay_secs(4), None);
}

#[test]
fn watch_file_version_is_replaced() {
    let watch = "version=4\nhttps://static.rust-lang.org/dist/rustc-1\\.85\\.\\d+-src.tar.xz\n";
    let out = update_watch_version(watch, "1.85", "1.86");
    assert_eq!(out, "version=4\nhttps://static.rust-lang.org/dist/rustc-1\\.86\\.\\d+-src.tar.xz\n");
}

#[test]
fn c_files_are_listed() {
    let listing = "vendor/a/b.c\nvendor/a/b.rs\nx.c\n";
    assert_eq!(c_files_in_listing(listing), vec!["vendor/a/b.c".to_owned(), "x.c".to_owned()]);
}

#[test]
fn vendor_tarball_expected_name_format() {
    let version = RustVersion::parse("1.85.0").unwrap();
    assert_eq!(vendor_tarball_name(&version, ""), "rustc-1.85_1.85.0+dfsg.orig-vendor.tar.xz");
}

#[test]
fn stale_detection_flags_other_series_tarballs() {
    let version = RustVersion::parse("1.85.0").unwrap();
    let expected = "rustc-1.85_1.85.0+dfsg~20.04.orig-vendor.tar.xz";
    assert!(is_stale_series_vendor_tarball(
        "rustc-1.85_1.85.0+dfsg~22.04.orig-vendor.tar.xz",
        &version,
        expected
    ));
    assert!(is_stale_series_vendor_tarball(
        "rustc-1.85_1.85.0+dfsg1~22.04.orig-vendor.tar.xz",
        &version,
        expected
    ));
}

#[test]
fn stale_detection_keeps_expected_tarball() {
    let version = RustVersion::parse("1.85.0").unwrap();
    let expected = "rustc-1.85_1.85.0+dfsg~20.04.orig-vendor.tar.xz";
    assert!(!is_stale_series_vendor_tarball(expected, &version, expected));
}

#[test]
fn stale_detection_ignores_other_kinds_and_versions() {
    let version = RustVersion::parse("1.85.0").unwrap();
    let expected = "rustc-1.85_1.85.0+dfsg~20.04.orig-vendor.tar.xz";
    assert!(!is_stale_series_vendor_tarball(
        "rustc-1.85_1.85.0+dfsg~20.04.orig.tar.xz",
        &version,
        expected
    ));
    assert!(!is_stale_series_vendor_tarball(
        "rustc-1.84_1.84.0+dfsg~22.04.orig-vendor.tar.xz",
        &version,
        expected
    ));
}

#[test]
fn stale_vendor_tarballs_only_with_a_series() {
    let version = RustVersion::parse("1.85.0").unwrap();
    let names = vec![
        "rustc-1.85_1.85.0+dfsg~22.04.orig-vendor.tar.xz".to_owned(),
        "rustc-1.85_1.85.0+dfsg~20.04.orig-vendor.tar.xz".to_owned(),
    ];
    assert_eq!(
        stale_vendor_tarballs(&names, &version, "~20.04"),
        vec!["rustc-1.85_1.85.0+dfsg~22.04.orig-vendor.tar.xz".to_owned()]
    );
    assert!(stale_vendor_tarballs(&names, &version, "").is_empty());
}

#[test]
fn vendor_errors_and_toolchain_dir() {
    assert!(matches!(rustup_missing_error(), ThermiteError::CommandNotFound(m) if m.starts_with("rustup")));
    assert!(matches!(missing_vendor_tarball_error("/p"), ThermiteError::CommandFailed { stderr, .. } if stderr == "expected vendor tarball not found: /p"));
    let version = RustVersion::parse("1.85.0").unwrap();
    assert_eq!(
        toolchain_dir("/home/u", &version),
        "/home/u/.rustup/toolchains/1.85.0-x86_64-unknown-linux-gnu"
    );
}

#[test]
fn candidate_loop_keeps_first_nonempty_download() {
    assert_eq!(after_download(DownloadOutcome::Fetched { nonempty: true }), CandidateStep::Keep);
    assert_eq!(after_download(DownloadOutcome::Fetched { nonempty: false }), CandidateStep::TryNext);
    assert_eq!(after_download(DownloadOutcome::Failed), CandidateStep::TryNext);
    assert_eq!(after_download(DownloadOutcome::ToolMissing), CandidateStep::GiveUp);
}

#[test]
fn parse_rmadison_keeps_first_appearance_order_without_duplicates() {
    let stdout = " rustc-1.85 | 1.85.0+dfsg2-0ubuntu1 | plucky | source\n\
                  rustc-1.85 | 1.85.0+dfsg1~24.04-0ubuntu1~24.04.1 | noble | source\n\
                  not a listing line\n\
                  rustc-1.85 | 1.85.0+dfsg2-0ubuntu2 | questing | source\n\
                  rustc-1.85 | 1.84.0+dfsg-0ubuntu1 | oracular\n\
                  rustc-1.85 | 1.85.0+dfsg1~24.04-0ubuntu1~24.04.2 | noble-updates | source\n";
    assert_eq!(
        parse_rmadison_upstream_versions(stdout, "1.85.0"),
        vec!["1.85.0+dfsg2".to_owned(), "1.85.0+dfsg1~24.04".to_owned()]
    );
}
