use thermite::commands::version::{
    ordinal, parsed_lines, resolve_series, resolve_version_input, run_bump, run_explain,
    run_format, version_input_path, BumpOperation, InputKind,
};
use thermite::error::ThermiteError;
use thermite::types::package_version::RustcPackageVersion;

#[test]
fn resolve_series_from_release() {
    let result = resolve_series(None, Some("noble")).unwrap();
    assert_eq!(result, Some("24.04".to_owned()));
}

#[test]
fn resolve_series_direct() {
    let result = resolve_series(Some("22.04"), None).unwrap();
    assert_eq!(result, Some("22.04".to_owned()));
}

#[test]
fn resolve_series_both_errors() {
    let result = resolve_series(Some("22.04"), Some("noble"));
    assert!(result.is_err());
}

#[test]
fn resolve_series_neither() {
    let result = resolve_series(None, None).unwrap();
    assert_eq!(result, None);
}

#[test]
fn resolve_series_unknown_release() {
    let result = resolve_series(None, Some("nonexistent"));
    assert!(result.is_err());
}

#[test]
fn ordinal_formatting() {
    assert_eq!(ordinal(1), "1st");
    assert_eq!(ordinal(2), "2nd");
    assert_eq!(ordinal(3), "3rd");
    assert_eq!(ordinal(4), "4th");
    assert_eq!(ordinal(11), "11th");
    assert_eq!(ordinal(12), "12th");
    assert_eq!(ordinal(13), "13th");
    assert_eq!(ordinal(21), "21st");
    assert_eq!(ordinal(22), "22nd");
    assert_eq!(ordinal(23), "23rd");
}

#[test]
fn run_parse_non_backport() {
    let v = RustcPackageVersion::parse("1.85.0+dfsg-0ubuntu1").unwrap();
    assert!(!parsed_lines(&v).is_empty());
}

#[test]
fn run_parse_backport() {
    let v = RustcPackageVersion::parse("1.90.0+dfsg2~24.04-0ubuntu3~24.04.1").unwrap();
    assert!(!parsed_lines(&v).is_empty());
}

#[test]
fn run_explain_works() {
    run_explain("1.90.0+dfsg2~24.04-0ubuntu3~24.04.1").unwrap();
}

#[test]
fn run_explain_stage0() {
    run_explain("1.92.0+dfsg~24.04~stage0-0ubuntu1~24.04.3").unwrap();
}

#[test]
fn run_format_simple() {
    let s = run_format("1.95.0", None, None, None, None, false, 1, None, None).unwrap();
    assert_eq!(s, "1.95.0+dfsg-0ubuntu1");
}

#[test]
fn run_format_with_release() {
    let s = run_format("1.95.0", None, None, Some("noble"), None, false, 1, None, None).unwrap();
    assert_eq!(s, "1.95.0+dfsg~24.04-0ubuntu1~24.04.1");
}

#[test]
fn run_format_with_series() {
    let s = run_format("1.95.0", Some(2), Some("24.04"), None, None, false, 3, Some(1), None)
        .unwrap();
    assert_eq!(s, "1.95.0+dfsg2~24.04-0ubuntu3~24.04.1");
}

#[test]
fn run_format_backport_repack_requires_series() {
    let result = run_format("1.95.0", None, None, None, Some(1), false, 1, None, None);
    assert!(result.is_err());
}

#[test]
fn run_format_stage0_requires_series() {
    let result = run_format("1.95.0", None, None, None, None, true, 1, None, None);
    assert!(result.is_err());
}

#[test]
fn run_bump_ubuntu_revision() {
    let v = run_bump("1.95.0+dfsg-0ubuntu1", &BumpOperation::UbuntuRevision).unwrap();
    assert_eq!(v.to_version_string(), "1.95.0+dfsg-0ubuntu2");
}

#[test]
fn run_bump_repack() {
    let v = run_bump("1.95.0+dfsg-0ubuntu3", &BumpOperation::Repack).unwrap();
    assert_eq!(v.to_version_string(), "1.95.0+dfsg1-0ubuntu1");
}

#[test]
fn run_bump_patch_release() {
    let v = run_bump(
        "1.95.0+dfsg3-0ubuntu5",
        &BumpOperation::PatchRelease { upstream: "1.95.1".to_owned() },
    )
    .unwrap();
    assert_eq!(v.to_version_string(), "1.95.1+dfsg-0ubuntu1");
}

#[test]
fn run_bump_backport() {
    let v = run_bump(
        "1.95.0+dfsg-0ubuntu2",
        &BumpOperation::Backport { series: None, release: Some("noble".to_owned()) },
    )
    .unwrap();
    assert_eq!(v.to_version_string(), "1.95.0+dfsg~24.04-0ubuntu2~24.04.1");
}

#[test]
fn run_bump_backport_revision() {
    let v = run_bump("1.90.0+dfsg2~24.04-0ubuntu3~24.04.1", &BumpOperation::BackportRevision)
        .unwrap();
    assert_eq!(v.to_version_string(), "1.90.0+dfsg2~24.04-0ubuntu3~24.04.2");
}

#[test]
fn run_bump_backport_repack() {
    let v = run_bump("1.90.0+dfsg2~24.04-0ubuntu3~24.04.2", &BumpOperation::BackportRepack)
        .unwrap();
    assert_eq!(v.to_version_string(), "1.90.0+dfsg2~24.04.1-0ubuntu3~24.04.1");
}

#[test]
fn run_bump_retarget() {
    let v = run_bump(
        "1.90.0+dfsg2~24.04-0ubuntu3~24.04.1",
        &BumpOperation::Retarget { series: Some("22.04".to_owned()), release: None },
    )
    .unwrap();
    assert_eq!(v.to_version_string(), "1.90.0+dfsg2~22.04-0ubuntu3~22.04.1");
}

#[test]
fn run_bump_backport_missing_series_errors() {
    let result = run_bump(
        "1.95.0+dfsg-0ubuntu2",
        &BumpOperation::Backport { series: None, release: None },
    );
    assert!(result.is_err());
}

#[test]
fn run_bump_json_output() {
    let v = run_bump("1.95.0+dfsg-0ubuntu1", &BumpOperation::UbuntuRevision).unwrap();
    assert_eq!(v.ubuntu_revision, 2);
}

#[test]
fn resolve_version_input_missing_path_is_literal() {
    let result = resolve_version_input(
        Some("/nonexistent/debian/changelog"),
        InputKind::Missing,
        "",
    )
    .unwrap();
    assert_eq!(result, "/nonexistent/debian/changelog");
}

#[test]
fn resolve_version_input_reads_changelog_header() {
    let changelog = "rustc-1.85 (1.85.0+dfsg-0ubuntu2) plucky; urgency=medium\n\n  * x\n";
    let v = resolve_version_input(Some("."), InputKind::Directory, changelog).unwrap();
    assert_eq!(v, "1.85.0+dfsg-0ubuntu2");
    assert!(matches!(
        resolve_version_input(Some("."), InputKind::File, ""),
        Err(ThermiteError::Io(_))
    ));
    assert_eq!(version_input_path(None), ".");
}

#[test]
fn run_bump_ppa_round_trip() {
    let v = run_bump("1.88.0+dfsg-0ubuntu1", &BumpOperation::Ppa).unwrap();
    assert_eq!(v.to_version_string(), "1.88.0+dfsg-0ubuntu1~ppa1");
    let w = run_bump(&v.to_version_string(), &BumpOperation::ClearPpa).unwrap();
    assert_eq!(w.to_version_string(), "1.88.0+dfsg-0ubuntu1");
}

#[test]
fn run_explain_rejects_garbage() {
    assert!(matches!(run_explain("garbage"), Err(ThermiteError::InvalidRustVersion(_))));
}
