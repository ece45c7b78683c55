use thermite::commands::update::{
    changelog_preview, mismatched_overrides, ppa_apt_source, required_tools, update_names,
    windows_stub_report,
};
use thermite::error::ThermiteError;
use thermite::steps::git::{check_debian_package_root, commit_from_log};
use thermite::steps::gbp::import_orig_args;
use thermite::steps::overlay::{orig_overlay_args, vendor_overlay_args};
use thermite::steps::ppa::{created_ppa_url, ppa_ref, ppa_version, test_urls};
use thermite::types::params::UpdateParams;

#[test]
fn update_required_tools_contains_workflow_dependencies() {
    let tools = required_tools();
    for tool in &["rustup", "ppa", "autopkgtest", "autopkgtest-buildvm-ubuntu-cloud"] {
        assert!(tools.contains(tool), "required tools lack '{tool}'");
    }
}

#[test]
fn update_names_follow_the_versions() {
    let p = UpdateParams::new("1.86.0", "1.85.1", "resolute", "jdoe", "foundations", "42").unwrap();
    let n = update_names(&p);
    assert_eq!(n.new_pkg, "rustc-1.86");
    assert_eq!(n.old_pkg, "rustc-1.85");
    assert_eq!(n.merge_branch, "merge-1.86");
    assert_eq!(n.old_merge_branch, "merge-1.85");
    assert_eq!(n.import_old_branch, "import-old-1.86");
    assert_eq!(n.import_new_branch, "import-new-1.86");
    assert_eq!(n.ppa_name, "rustc-1.86-merge");
}

#[test]
fn ppa_apt_source_format() {
    assert_eq!(
        ppa_apt_source("jdoe", "rustc-1.86-merge", "resolute"),
        "deb [trusted=yes] https://ppa.launchpadcontent.net/jdoe/rustc-1.86-merge/ubuntu/ resolute main"
    );
}

#[test]
fn changelog_preview_shows_six_lines() {
    let content = "1\n2\n3\n4\n5\n6\n7\n";
    assert_eq!(changelog_preview(content), "    1\n    2\n    3\n    4\n    5\n    6\n");
    assert_eq!(changelog_preview(""), "");
}

#[test]
fn mismatched_override_lines_are_selected() {
    let raw = "W: x: mismatched-override file-without-copyright-information a\nW: y: other\n";
    assert_eq!(
        mismatched_overrides(raw),
        vec!["W: x: mismatched-override file-without-copyright-information a".to_owned()]
    );
}

#[test]
fn windows_stub_report_counts_windows_entries() {
    let names = vec!["windows-sys".to_owned(), "libc".to_owned(), "windows_x86_64_gnu".to_owned()];
    assert_eq!(
        windows_stub_report(&names),
        "  Found 2 windows crate stub(s). Spot-check that they have empty lib.rs files."
    );
    assert!(windows_stub_report(&vec![]).starts_with("  No windows crates"));
}

#[test]
fn ppa_helpers() {
    assert_eq!(ppa_version("1.86.0+dfsg-0ubuntu1", 2), "1.86.0+dfsg-0ubuntu1~ppa2");
    assert_eq!(ppa_ref("jdoe", "rustc-1.86-merge"), "ppa:jdoe/rustc-1.86-merge");
    assert_eq!(
        created_ppa_url("Creating...\n  https://launchpad.net/~jdoe/+archive/ubuntu/x  \n"),
        "https://launchpad.net/~jdoe/+archive/ubuntu/x"
    );
    assert_eq!(created_ppa_url("nothing\n"), "");
    assert_eq!(
        test_urls("header\nhttps://a\nhttp://b\n ftp://c\n"),
        vec!["https://a".to_owned(), "http://b".to_owned()]
    );
}

#[test]
fn package_root_and_commit_lookup() {
    assert!(check_debian_package_root("/r", true, true).is_ok());
    assert!(matches!(
        check_debian_package_root("/r", true, false),
        Err(ThermiteError::NotADebianPackageRoot(d)) if d == "/r"
    ));
    assert_eq!(commit_from_log("abc123 New upstream\n", "merge-1.86", "New").unwrap(), "abc123");
    assert!(matches!(commit_from_log("  \n", "merge-1.86", "New"), Err(ThermiteError::CommandFailed { .. })));
}

#[test]
fn overlay_and_gbp_arguments() {
    assert_eq!(
        orig_overlay_args("/t.tar.xz", "/repo"),
        vec!["-xJf", "/t.tar.xz", "-C", "/repo", "--strip-components=1"]
    );
    assert_eq!(vendor_overlay_args("/v.tar.xz", "/repo"), vec!["-xJf", "/v.tar.xz", "-C", "/repo"]);
    let args = import_orig_args("/t.tar.xz", "upstream", "merge-1.86", &vec![]);
    assert_eq!(args[0], "import-orig");
    assert!(args.iter().any(|a| a == "/t.tar.xz"));
}
