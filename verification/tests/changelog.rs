use thermite::steps::changelog::{
    compute_backport_version, debian_version_string, is_series_like, read_current_version,
    strip_series_suffix, update_backport_changelog_entry, update_changelog_entry,
};
use thermite::error::ThermiteError;
use thermite::types::package_version::RustcPackageVersion;
use thermite::types::versions::RustVersion;

#[test]
fn compute_backport_version_from_devel() {
    assert_eq!(
        compute_backport_version("1.93.0+dfsg-0ubuntu1", "24.04"),
        "1.93.0+dfsg~24.04-0ubuntu1~24.04.1"
    );
}

#[test]
fn compute_backport_version_from_stable_to_older() {
    assert_eq!(
        compute_backport_version("1.89.0+dfsg2~24.04.1-0ubuntu3~24.04.2", "22.04"),
        "1.89.0+dfsg2~22.04-0ubuntu3~22.04.1"
    );
}

#[test]
fn compute_backport_version_strips_revision_series() {
    assert_eq!(
        compute_backport_version("1.85.0+dfsg~25.04-0ubuntu1~25.04.1", "24.04"),
        "1.85.0+dfsg~24.04-0ubuntu1~24.04.1"
    );
}

#[test]
fn compute_backport_version_idempotent_for_same_series() {
    let v = "1.94.1+dfsg~24.04-0ubuntu1~24.04.1";
    assert_eq!(compute_backport_version(v, "24.04"), v);
    let v2 = "1.89.0+dfsg2~22.04-0ubuntu3~22.04.1";
    assert_eq!(compute_backport_version(v2, "22.04"), v2);
}

#[test]
fn strip_series_suffix_with_sub_revision() {
    assert_eq!(strip_series_suffix("0ubuntu3~24.04.2"), "0ubuntu3");
    assert_eq!(strip_series_suffix("1.89.0+dfsg2~24.04.1"), "1.89.0+dfsg2");
}

#[test]
fn strip_series_suffix_without_suffix() {
    assert_eq!(strip_series_suffix("0ubuntu1"), "0ubuntu1");
    assert_eq!(strip_series_suffix("1.93.0+dfsg"), "1.93.0+dfsg");
}

#[test]
fn is_series_like_valid() {
    assert!(is_series_like("22.04"));
    assert!(is_series_like("24.04.1"));
    assert!(is_series_like("25.10"));
}

#[test]
fn is_series_like_invalid() {
    assert!(!is_series_like(""));
    assert!(!is_series_like("alpha"));
    assert!(!is_series_like("24.04-foo"));
}

#[test]
fn compute_backport_version_without_hyphen_falls_back() {
    assert_eq!(compute_backport_version("1.93.0", "24.04"), "1.93.0~24.04-0ubuntu1~24.04.1");
}

#[test]
fn compute_backport_version_twice_is_the_same_as_once() {
    let once = compute_backport_version("1.93.0+dfsg-0ubuntu4", "22.04");
    assert_eq!(compute_backport_version(&once, "22.04"), once);
}

#[test]
fn debian_version_string_format() {
    let v = RustVersion::parse("1.86.0").unwrap();
    assert_eq!(debian_version_string(&v), "1.86.0+dfsg-0ubuntu1");
}

#[test]
fn update_changelog_rewrites_header_and_first_bullet() {
    let content = "rustc-1.85 (1.85.0+dfsg-0ubuntu1) UNRELEASED; urgency=medium\n\n  * old entry\n  * second\n\n -- A <a@b>  Mon, 01 Jan 2025 00:00:00 +0000\n";
    let out = update_changelog_entry(content, "rustc-1.85", "rustc-1.86", "resolute", "1.86.0", "123")
        .unwrap();
    assert_eq!(
        out,
        "rustc-1.86 (1.85.0+dfsg-0ubuntu1) resolute; urgency=medium\n\n  * New upstream version 1.86.0 (LP: #123)\n  * second\n\n -- A <a@b>  Mon, 01 Jan 2025 00:00:00 +0000\n"
    );
    assert_eq!(update_changelog_entry("", "a", "b", "c", "d", "e"), None);
}

#[test]
fn update_backport_changelog_retargets_distribution() {
    let content = "rustc-1.85 (1.85.0+dfsg~24.04-0ubuntu1~24.04.1) resolute; urgency=medium\n\n  * New upstream\n\n -- A <a@b>  date\n";
    let out = update_backport_changelog_entry(content, "noble", Some("42")).unwrap();
    assert_eq!(
        out,
        "rustc-1.85 (1.85.0+dfsg~24.04-0ubuntu1~24.04.1) noble; urgency=medium\n\n  * Backport to noble (LP: #42)\n\n -- A <a@b>  date\n"
    );
    let out2 = update_backport_changelog_entry(content, "noble", None).unwrap();
    assert!(out2.contains("  * Backport to noble\n"));
}

#[test]
fn read_current_version_reads_header() {
    assert_eq!(
        read_current_version("rustc-1.85 (1.85.0+dfsg-0ubuntu2) plucky; urgency=medium\n").unwrap(),
        "1.85.0+dfsg-0ubuntu2"
    );
    assert!(matches!(read_current_version("garbage\n"), Err(ThermiteError::Io(_))));
}

#[test]
fn compute_backport_version_agrees_with_to_backport() {
    for (text, series) in [
        ("1.89.0+dfsg2~24.04.1-0ubuntu3~24.04.2", "22.04"),
        ("1.93.0+dfsg-0ubuntu1", "24.04"),
        ("1.85.0+dfsg1~24.04-0ubuntu1~24.04.1", "24.04"),
    ] {
        let v = RustcPackageVersion::parse(text).unwrap();
        let mut w = v.clone();
        w.to_backport(series);
        assert_eq!(compute_backport_version(&v.to_version_string(), series), w.to_version_string());
    }
}
