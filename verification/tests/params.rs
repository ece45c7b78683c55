use thermite::error::ThermiteError;
use thermite::types::params::{BackportParams, TarballAction, TarballParams, UpdateParams};
use thermite::types::ubuntu::UbuntuRelease;

fn valid_backport() -> BackportParams {
    BackportParams::new(
        "1.85.0",
        "noble",
        "jammy",
        "jdoe",
        "foundations",
        None,
        false,
    )
    .unwrap()
}

#[test]
fn valid_backport_params_constructs_successfully() {
    let p = valid_backport();
    assert_eq!(p.lpuser, "jdoe");
    assert_eq!(p.lp_bug_number, None);
}

#[test]
fn backport_with_bug_number_accepted() {
    let p = BackportParams::new(
        "1.85.0",
        "noble",
        "jammy",
        "jdoe",
        "foundations",
        Some("99999"),
        false,
    )
    .unwrap();
    assert_eq!(p.lp_bug_number, Some("99999".to_owned()));
}

#[test]
fn non_digit_bug_number_returns_error() {
    let result = BackportParams::new(
        "1.85.0",
        "noble",
        "jammy",
        "jdoe",
        "foundations",
        Some("abc"),
        false,
    );
    assert!(
        matches!(result, Err(ThermiteError::InvalidLpBugNumber(_))),
        "expected InvalidLpBugNumber, got: {result:?}"
    );
}

#[test]
fn empty_bug_number_returns_error() {
    let result = BackportParams::new(
        "1.85.0",
        "noble",
        "jammy",
        "jdoe",
        "foundations",
        Some(""),
        false,
    );
    assert!(
        matches!(result, Err(ThermiteError::InvalidLpBugNumber(_))),
        "expected InvalidLpBugNumber, got: {result:?}"
    );
}

#[test]
fn same_source_and_target_release_returns_error() {
    let result = BackportParams::new(
        "1.85.0",
        "noble",
        "noble",
        "jdoe",
        "foundations",
        None,
        false,
    );
    assert!(
        matches!(result, Err(ThermiteError::InvalidBackportReleases(_))),
        "expected InvalidBackportReleases, got: {result:?}"
    );
}

#[test]
fn params_empty_lpuser_returns_invalid_lp_user_error() {
    let result =
        BackportParams::new("1.85.0", "noble", "jammy", "", "foundations", None, false);
    assert!(
        matches!(result, Err(ThermiteError::InvalidLpUser(_))),
        "expected InvalidLpUser, got: {result:?}"
    );
}

#[test]
fn dry_run_flag_is_stored() {
    let p = BackportParams::new(
        "1.85.0",
        "noble",
        "jammy",
        "jdoe",
        "foundations",
        None,
        true,
    )
    .unwrap();
    assert!(p.dry_run, "dry_run should be stored as true");

    let p2 = BackportParams::new(
        "1.85.0",
        "noble",
        "jammy",
        "jdoe",
        "foundations",
        None,
        false,
    )
    .unwrap();
    assert!(!p2.dry_run, "dry_run should be stored as false");
}

#[test]
fn devel_as_source_resolves_to_current_devel_release() {
    let p = BackportParams::new(
        "1.85.0",
        "devel",
        "resolute",
        "jdoe",
        "foundations",
        None,
        false,
    )
    .unwrap();
    assert_eq!(p.source_release.as_str(), UbuntuRelease::devel());
    assert!(
        p.source_release_is_devel_alias,
        "source_release_is_devel_alias should be true for 'devel'"
    );
}

#[test]
fn concrete_source_release_does_not_set_devel_alias_flag() {
    let p = BackportParams::new(
        "1.85.0",
        "resolute",
        "noble",
        "jdoe",
        "foundations",
        None,
        false,
    )
    .unwrap();
    assert!(!p.source_release_is_devel_alias);
}

#[test]
fn devel_as_target_is_rejected() {
    let result = BackportParams::new(
        "1.85.0",
        "resolute",
        "devel",
        "jdoe",
        "foundations",
        None,
        false,
    );
    assert!(
        matches!(result, Err(ThermiteError::InvalidBackportReleases(_))),
        "expected InvalidBackportReleases for 'devel' target, got: {result:?}"
    );
}

#[test]
fn devel_source_and_devel_target_is_rejected() {
    let result = BackportParams::new(
        "1.85.0",
        "devel",
        "devel",
        "jdoe",
        "foundations",
        None,
        false,
    );
    assert!(
        matches!(result, Err(ThermiteError::InvalidBackportReleases(_))),
        "expected InvalidBackportReleases for 'devel' target, got: {result:?}"
    );
}

fn valid_params() -> UpdateParams {
    UpdateParams::new("1.85.1", "1.84.0", "noble", "jdoe", "foundations", "12345").unwrap()
}

#[test]
fn valid_params_constructs_successfully() {
    let p = valid_params();
    assert_eq!(p.lpuser, "jdoe");
    assert_eq!(p.lp_bug_number, "12345");
}

#[test]
fn empty_lpuser_returns_invalid_lp_user_error() {
    let result = UpdateParams::new("1.85.1", "1.84.0", "noble", "", "foundations", "12345");
    assert!(
        matches!(result, Err(ThermiteError::InvalidLpUser(_))),
        "expected InvalidLpUser, got: {:?}",
        result
    );
}

#[test]
fn non_digit_lp_bug_number_returns_invalid_lp_bug_number_error() {
    let result = UpdateParams::new("1.85.1", "1.84.0", "noble", "jdoe", "foundations", "abc");
    assert!(
        matches!(result, Err(ThermiteError::InvalidLpBugNumber(_))),
        "expected InvalidLpBugNumber, got: {:?}",
        result
    );
}

#[test]
fn empty_lp_bug_number_returns_invalid_lp_bug_number_error() {
    let result = UpdateParams::new("1.85.1", "1.84.0", "noble", "jdoe", "foundations", "");
    assert!(
        matches!(result, Err(ThermiteError::InvalidLpBugNumber(_))),
        "expected InvalidLpBugNumber, got: {:?}",
        result
    );
}

#[test]
fn devel_alias_is_case_insensitive() {
    let p = BackportParams::new("1.85.0", "DeVeL", "resolute", "jdoe", "foundations", None, false)
        .unwrap();
    assert_eq!(p.source_release.as_str(), UbuntuRelease::devel());
    assert!(p.source_release_is_devel_alias);
}

#[test]
fn unknown_releases_and_versions_are_reported() {
    assert!(matches!(
        BackportParams::new("1.85.0", "nosuch", "jammy", "jdoe", "foundations", None, false),
        Err(ThermiteError::UnknownRelease(_))
    ));
    assert!(matches!(
        BackportParams::new("1.85", "noble", "jammy", "jdoe", "foundations", None, false),
        Err(ThermiteError::InvalidRustVersion(_))
    ));
    assert!(matches!(
        UpdateParams::new("1.85.1", "1.84", "noble", "jdoe", "foundations", "1"),
        Err(ThermiteError::InvalidRustVersion(m)) if m == "1.84"
    ));
    assert!(matches!(
        UpdateParams::new("1.85.1", "1.84.0", "nosuch", "jdoe", "foundations", "1"),
        Err(ThermiteError::UnknownRelease(_))
    ));
}

#[test]
fn tarball_params_series_suffix() {
    let p = TarballParams::new(TarballAction::Download, "1.85.0", Some("jammy"), false, false)
        .unwrap();
    assert_eq!(p.dfsg_suffix(), "~22.04");
    assert!(matches!(
        TarballParams::new(TarballAction::Download, "x", None, false, false),
        Err(ThermiteError::InvalidRustVersion(m)) if m == "x"
    ));
}
