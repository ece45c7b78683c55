use thermite::commands::tarball::{
    download_aborted_error, download_missing_error, expected_tarball_file,
    handle_existing_for_generate, locate_expected_tarball, overlay_mode, parameter_lines,
    tarball_download_params, tarball_generate_params, tarball_overlay_params, TarballTarget,
};
use thermite::error::ThermiteError;
use thermite::steps::tarball_fetch::TarballKind;
use thermite::types::params::{TarballAction, TarballParams};

#[test]
fn target_scope_flags_are_consistent() {
    assert!(TarballTarget::Orig.wants_orig());
    assert!(!TarballTarget::Orig.wants_vendor());
    assert!(!TarballTarget::Vendor.wants_orig());
    assert!(TarballTarget::Vendor.wants_vendor());
    assert!(TarballTarget::All.wants_orig());
    assert!(TarballTarget::All.wants_vendor());
}

#[test]
fn generate_refuses_existing_tarball_without_force() {
    let path = "/tmp/x/rustc-1.85_1.85.0+dfsg.orig.tar.xz";
    let result = handle_existing_for_generate(path, true, false);
    match result {
        Err(ThermiteError::CommandFailed { cmd, stderr, .. }) => {
            assert_eq!(cmd, "tarball generate");
            assert!(stderr.starts_with("tarball already exists: /tmp/x/rustc-1.85_1.85.0+dfsg.orig.tar.xz\n"));
            assert!(stderr.contains("--force"));
        }
        other => panic!("expected refusal when tarball exists, got {other:?}"),
    }
}

#[test]
fn generate_with_force_removes_existing_tarball() {
    let r = handle_existing_for_generate("t.orig.tar.xz", true, true).unwrap();
    assert!(r, "force should ask for the existing tarball to be removed");
}

#[test]
fn generate_is_noop_when_tarball_missing() {
    assert!(!handle_existing_for_generate("t.orig.tar.xz", false, false).unwrap());
    assert!(!handle_existing_for_generate("t.orig.tar.xz", false, true).unwrap());
}

#[test]
fn overlay_locator_errors_when_tarball_missing() {
    let params = TarballParams::new(TarballAction::Overlay, "1.85.0", None, false, false).unwrap();
    let name = expected_tarball_file(&params, TarballKind::Orig);
    let path = format!("/tmp/parent/{name}");
    let err = locate_expected_tarball(&path, false).unwrap_err();
    let ThermiteError::CommandFailed { stderr, .. } = &err else {
        panic!("expected CommandFailed, got: {err:?}")
    };
    assert!(
        stderr.contains("rustc-1.85_1.85.0+dfsg.orig.tar.xz"),
        "error must name the expected tarball: {stderr}"
    );
    assert!(
        stderr.contains("thermite tarball download"),
        "error must point at download/generate: {stderr}"
    );
}

#[test]
fn overlay_locator_finds_existing_tarball() {
    let params = TarballParams::new(TarballAction::Overlay, "1.85.0", None, false, false).unwrap();
    let name = expected_tarball_file(&params, TarballKind::Orig);
    assert_eq!(name, "rustc-1.85_1.85.0+dfsg.orig.tar.xz");
    let path = format!("/tmp/parent/{name}");
    let found = locate_expected_tarball(&path, true).expect("existing tarball should be located");
    assert_eq!(found, path);
}

#[test]
fn overlay_locator_honours_series_suffix() {
    let params =
        TarballParams::new(TarballAction::Overlay, "1.85.0", Some("noble"), false, false).unwrap();
    let name = expected_tarball_file(&params, TarballKind::OrigVendor);
    assert_eq!(name, "rustc-1.85_1.85.0+dfsg~24.04.orig-vendor.tar.xz");
}

#[test]
fn download_errors_name_the_kind() {
    match download_aborted_error(true) {
        ThermiteError::CommandFailed { cmd, stderr, .. } => {
            assert_eq!(cmd, "download vendor tarball");
            assert_eq!(stderr, "aborted at manual-placement prompt");
        }
        other => panic!("unexpected {other:?}"),
    }
    match download_missing_error(false, "/p/t.tar.xz") {
        ThermiteError::CommandFailed { cmd, stderr, .. } => {
            assert_eq!(cmd, "download orig tarball");
            assert_eq!(stderr, "tarball not found: /p/t.tar.xz\nPlace the tarball at that exact path, then re-run.");
        }
        other => panic!("unexpected {other:?}"),
    }
}

#[test]
fn subcommand_parameters_are_validated() {
    let p = tarball_generate_params("1.85.0", Some("noble"), true).unwrap();
    assert_eq!(p.action, TarballAction::Generate);
    assert!(p.force);
    assert_eq!(p.dfsg_suffix(), "~24.04");
    assert!(matches!(
        tarball_download_params("1.85", None),
        Err(ThermiteError::InvalidRustVersion(_))
    ));
    assert!(matches!(
        tarball_overlay_params("1.85.0", Some("nosuch"), true),
        Err(ThermiteError::UnknownRelease(_))
    ));
    let o = tarball_overlay_params("1.85.0", None, true).unwrap();
    assert!(o.overlay_replace);
    assert_eq!(o.dfsg_suffix(), "");
    assert_eq!(overlay_mode(true), "clean replace");
    assert_eq!(overlay_mode(false), "merge");
}

#[test]
fn parameter_lines_show_the_force_flag_for_generate() {
    let p = tarball_generate_params("1.85.0", None, false).unwrap();
    let lines = parameter_lines(&p, "/r", "/");
    assert_eq!(lines[0], "  Rust version : 1.85.0");
    assert_eq!(lines[1], "  Series       : (none — plain +dfsg naming)");
    assert_eq!(lines[2], "  Repo dir     : /r");
    assert_eq!(lines[3], "  Parent dir   : /");
    assert!(lines[4].starts_with("  Force        : false"));
}
