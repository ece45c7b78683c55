use thermite::error::ThermiteError;
use thermite::types::package_version::RustcPackageVersion;
use thermite::types::versions::RustVersion;
// --- Parsing tests ---

#[test]
fn parse_simple_non_backport() {
    let v = RustcPackageVersion::parse("1.85.0+dfsg-0ubuntu1").unwrap();
    assert_eq!(v.upstream, RustVersion::parse("1.85.0").unwrap());
    assert_eq!(v.repack_number, None);
    assert_eq!(v.series, None);
    assert_eq!(v.backport_repack, None);
    assert!(!v.stage0);
    assert_eq!(v.ubuntu_revision, 1);
    assert_eq!(v.backport_revision, None);
}

#[test]
fn parse_non_backport_with_repack() {
    let v = RustcPackageVersion::parse("1.85.0+dfsg3-0ubuntu5").unwrap();
    assert_eq!(v.upstream, RustVersion::parse("1.85.0").unwrap());
    assert_eq!(v.repack_number, Some(3));
    assert_eq!(v.series, None);
    assert_eq!(v.backport_repack, None);
    assert!(!v.stage0);
    assert_eq!(v.ubuntu_revision, 5);
    assert_eq!(v.backport_revision, None);
}

#[test]
fn parse_backport_simple() {
    let v = RustcPackageVersion::parse("1.90.0+dfsg2~24.04-0ubuntu3~24.04.1").unwrap();
    assert_eq!(v.upstream, RustVersion::parse("1.90.0").unwrap());
    assert_eq!(v.repack_number, Some(2));
    assert_eq!(v.series, Some("24.04".to_owned()));
    assert_eq!(v.backport_repack, None);
    assert!(!v.stage0);
    assert_eq!(v.ubuntu_revision, 3);
    assert_eq!(v.backport_revision, Some(1));
}

#[test]
fn parse_backport_with_backport_repack() {
    let v = RustcPackageVersion::parse("1.90.0+dfsg2~24.04.1-0ubuntu3~24.04.1").unwrap();
    assert_eq!(v.upstream, RustVersion::parse("1.90.0").unwrap());
    assert_eq!(v.repack_number, Some(2));
    assert_eq!(v.series, Some("24.04".to_owned()));
    assert_eq!(v.backport_repack, Some(1));
    assert!(!v.stage0);
    assert_eq!(v.ubuntu_revision, 3);
    assert_eq!(v.backport_revision, Some(1));
}

#[test]
fn parse_backport_with_higher_backport_revision() {
    let v = RustcPackageVersion::parse("1.90.0+dfsg2~22.04-0ubuntu3~22.04.2").unwrap();
    assert_eq!(v.series, Some("22.04".to_owned()));
    assert_eq!(v.backport_revision, Some(2));
}

#[test]
fn parse_stage0() {
    let v = RustcPackageVersion::parse("1.92.0+dfsg~24.04~stage0-0ubuntu1~24.04.3").unwrap();
    assert_eq!(v.upstream, RustVersion::parse("1.92.0").unwrap());
    assert_eq!(v.repack_number, None);
    assert_eq!(v.series, Some("24.04".to_owned()));
    assert_eq!(v.backport_repack, None);
    assert!(v.stage0);
    assert_eq!(v.ubuntu_revision, 1);
    assert_eq!(v.backport_revision, Some(3));
}

#[test]
fn parse_bare_dfsg_backport() {
    // No repack number, but has backport series.
    let v = RustcPackageVersion::parse("1.93.0+dfsg~24.04-0ubuntu1~24.04.1").unwrap();
    assert_eq!(v.upstream, RustVersion::parse("1.93.0").unwrap());
    assert_eq!(v.repack_number, None);
    assert_eq!(v.series, Some("24.04".to_owned()));
    assert_eq!(v.backport_repack, None);
    assert_eq!(v.ubuntu_revision, 1);
    assert_eq!(v.backport_revision, Some(1));
}

// --- Round-trip tests (parse -> Display -> parse) ---

#[test]
fn roundtrip_non_backport() {
    let input = "1.95.0+dfsg-0ubuntu1";
    let v = RustcPackageVersion::parse(input).unwrap();
    assert_eq!(v.to_version_string(), input);
}

#[test]
fn roundtrip_non_backport_with_repack() {
    let input = "1.85.0+dfsg3-0ubuntu5";
    let v = RustcPackageVersion::parse(input).unwrap();
    assert_eq!(v.to_version_string(), input);
}

#[test]
fn roundtrip_backport() {
    let input = "1.90.0+dfsg2~24.04-0ubuntu3~24.04.1";
    let v = RustcPackageVersion::parse(input).unwrap();
    assert_eq!(v.to_version_string(), input);
}

#[test]
fn roundtrip_backport_with_repack() {
    let input = "1.90.0+dfsg2~24.04.1-0ubuntu3~24.04.1";
    let v = RustcPackageVersion::parse(input).unwrap();
    assert_eq!(v.to_version_string(), input);
}

#[test]
fn roundtrip_stage0() {
    let input = "1.92.0+dfsg~24.04~stage0-0ubuntu1~24.04.3";
    let v = RustcPackageVersion::parse(input).unwrap();
    assert_eq!(v.to_version_string(), input);
}

// --- Display tests ---

#[test]
fn display_non_backport() {
    let v = RustcPackageVersion::new(
        RustVersion::parse("1.95.0").unwrap(),
        None,
        None,
        None,
        false,
        1,
        None,
    );
    assert_eq!(v.to_version_string(), "1.95.0+dfsg-0ubuntu1");
}

#[test]
fn display_backport() {
    let v = RustcPackageVersion::new(
        RustVersion::parse("1.90.0").unwrap(),
        Some(2),
        Some("24.04".to_owned()),
        None,
        false,
        3,
        Some(1),
    );
    assert_eq!(v.to_version_string(), "1.90.0+dfsg2~24.04-0ubuntu3~24.04.1");
}

#[test]
fn display_stage0() {
    let v = RustcPackageVersion::new(
        RustVersion::parse("1.92.0").unwrap(),
        None,
        Some("24.04".to_owned()),
        None,
        true,
        1,
        Some(3),
    );
    assert_eq!(v.to_version_string(), "1.92.0+dfsg~24.04~stage0-0ubuntu1~24.04.3");
}

// --- Bump method tests ---

#[test]
fn bump_ubuntu_revision() {
    let mut v = RustcPackageVersion::parse("1.95.0+dfsg-0ubuntu2").unwrap();
    v.bump_ubuntu_revision();
    assert_eq!(v.to_version_string(), "1.95.0+dfsg-0ubuntu3");
}

#[test]
fn bump_repack_from_none() {
    let mut v = RustcPackageVersion::parse("1.95.0+dfsg-0ubuntu3").unwrap();
    v.bump_repack();
    assert_eq!(v.to_version_string(), "1.95.0+dfsg1-0ubuntu1");
}

#[test]
fn bump_repack_increments() {
    let mut v = RustcPackageVersion::parse("1.95.0+dfsg1-0ubuntu2").unwrap();
    v.bump_repack();
    assert_eq!(v.to_version_string(), "1.95.0+dfsg2-0ubuntu1");
}

#[test]
fn bump_patch_release() {
    let mut v = RustcPackageVersion::parse("1.95.0+dfsg3-0ubuntu5").unwrap();
    v.bump_patch_release(RustVersion::parse("1.95.1").unwrap());
    assert_eq!(v.to_version_string(), "1.95.1+dfsg-0ubuntu1");
}

#[test]
fn to_backport_from_non_backport() {
    let mut v = RustcPackageVersion::parse("1.95.0+dfsg-0ubuntu2").unwrap();
    v.to_backport("24.04");
    assert_eq!(v.to_version_string(), "1.95.0+dfsg~24.04-0ubuntu2~24.04.1");
}

#[test]
fn to_backport_with_repack() {
    let mut v = RustcPackageVersion::parse("1.90.0+dfsg2-0ubuntu3").unwrap();
    v.to_backport("24.04");
    assert_eq!(v.to_version_string(), "1.90.0+dfsg2~24.04-0ubuntu3~24.04.1");
}

#[test]
fn retarget_series() {
    let mut v = RustcPackageVersion::parse("1.90.0+dfsg2~24.04-0ubuntu3~24.04.1").unwrap();
    v.retarget_series("22.04");
    assert_eq!(v.to_version_string(), "1.90.0+dfsg2~22.04-0ubuntu3~22.04.1");
}

#[test]
fn retarget_series_resets_backport_repack() {
    let mut v = RustcPackageVersion::parse("1.90.0+dfsg2~24.04.1-0ubuntu3~24.04.2").unwrap();
    v.retarget_series("22.04");
    assert_eq!(v.to_version_string(), "1.90.0+dfsg2~22.04-0ubuntu3~22.04.1");
}

#[test]
fn bump_backport_revision() {
    let mut v = RustcPackageVersion::parse("1.90.0+dfsg2~24.04-0ubuntu3~24.04.1").unwrap();
    v.bump_backport_revision();
    assert_eq!(v.to_version_string(), "1.90.0+dfsg2~24.04-0ubuntu3~24.04.2");
}

#[test]
fn bump_backport_repack() {
    let mut v = RustcPackageVersion::parse("1.90.0+dfsg2~24.04-0ubuntu3~24.04.2").unwrap();
    v.bump_backport_repack();
    assert_eq!(v.to_version_string(), "1.90.0+dfsg2~24.04.1-0ubuntu3~24.04.1");
}

#[test]
fn bump_backport_repack_increments() {
    let mut v = RustcPackageVersion::parse("1.90.0+dfsg2~24.04.1-0ubuntu3~24.04.1").unwrap();
    v.bump_backport_repack();
    assert_eq!(v.to_version_string(), "1.90.0+dfsg2~24.04.2-0ubuntu3~24.04.1");
}

// --- Error case tests ---

#[test]
fn parse_missing_hyphen() {
    assert!(RustcPackageVersion::parse("1.85.0+dfsg0ubuntu1").is_err());
}

#[test]
fn parse_missing_dfsg() {
    assert!(RustcPackageVersion::parse("1.85.0-0ubuntu1").is_err());
}

#[test]
fn parse_invalid_upstream_version() {
    assert!(RustcPackageVersion::parse("1.85+dfsg-0ubuntu1").is_err());
}

#[test]
fn parse_missing_0ubuntu() {
    assert!(RustcPackageVersion::parse("1.85.0+dfsg-ubuntu1").is_err());
}

#[test]
fn parse_non_numeric_ubuntu_revision() {
    assert!(RustcPackageVersion::parse("1.85.0+dfsg-0ubuntux").is_err());
}

// --- Worked examples of the version scheme ---

#[test]
fn doc_example_initial_upload() {
    let v = RustcPackageVersion::parse("1.95.0+dfsg-0ubuntu1").unwrap();
    assert_eq!(v.upstream, RustVersion::parse("1.95.0").unwrap());
    assert_eq!(v.repack_number, None);
    assert_eq!(v.ubuntu_revision, 1);
    assert!(!v.is_backport());
}

#[test]
fn doc_example_fixing_a_bug() {
    // "1.95.0+dfsg-0ubuntu1" → increment ubuntu_revision → "1.95.0+dfsg-0ubuntu2"
    let mut v = RustcPackageVersion::parse("1.95.0+dfsg-0ubuntu1").unwrap();
    v.bump_ubuntu_revision();
    assert_eq!(v.to_version_string(), "1.95.0+dfsg-0ubuntu2");
}

#[test]
fn doc_example_pruning_repack() {
    // "1.95.0+dfsg-0ubuntu2" → bump repack → "1.95.0+dfsg1-0ubuntu1"
    let mut v = RustcPackageVersion::parse("1.95.0+dfsg-0ubuntu2").unwrap();
    v.bump_repack();
    assert_eq!(v.to_version_string(), "1.95.0+dfsg1-0ubuntu1");
}

#[test]
fn doc_example_patch_release() {
    // "1.95.0+dfsg1-0ubuntu1" → new upstream 1.95.1 → "1.95.1+dfsg-0ubuntu1"
    let mut v = RustcPackageVersion::parse("1.95.0+dfsg1-0ubuntu1").unwrap();
    v.bump_patch_release(RustVersion::parse("1.95.1").unwrap());
    assert_eq!(v.to_version_string(), "1.95.1+dfsg-0ubuntu1");
}

#[test]
fn doc_example_backport_to_2404() {
    // "1.90.0+dfsg2-0ubuntu3" → backport to 24.04
    // → "1.90.0+dfsg2~24.04-0ubuntu3~24.04.1"
    let mut v = RustcPackageVersion::parse("1.90.0+dfsg2-0ubuntu3").unwrap();
    v.to_backport("24.04");
    assert_eq!(v.to_version_string(), "1.90.0+dfsg2~24.04-0ubuntu3~24.04.1");
}

#[test]
fn doc_example_backport_fix_bug() {
    // "1.90.0+dfsg2~24.04-0ubuntu3~24.04.1" → bump backport_revision
    // → "1.90.0+dfsg2~24.04-0ubuntu3~24.04.2"
    let mut v = RustcPackageVersion::parse("1.90.0+dfsg2~24.04-0ubuntu3~24.04.1").unwrap();
    v.bump_backport_revision();
    assert_eq!(v.to_version_string(), "1.90.0+dfsg2~24.04-0ubuntu3~24.04.2");
}

#[test]
fn doc_example_backport_repack_issue() {
    // "1.90.0+dfsg2~24.04-0ubuntu3~24.04.2" → bump backport_repack
    // → "1.90.0+dfsg2~24.04.1-0ubuntu3~24.04.1"
    let mut v = RustcPackageVersion::parse("1.90.0+dfsg2~24.04-0ubuntu3~24.04.2").unwrap();
    v.bump_backport_repack();
    assert_eq!(v.to_version_string(), "1.90.0+dfsg2~24.04.1-0ubuntu3~24.04.1");
}

#[test]
fn doc_example_backport_to_2204() {
    // "1.90.0+dfsg2~24.04-0ubuntu3~24.04.1" → retarget to 22.04
    // → "1.90.0+dfsg2~22.04-0ubuntu3~22.04.1"
    let mut v = RustcPackageVersion::parse("1.90.0+dfsg2~24.04-0ubuntu3~24.04.1").unwrap();
    v.retarget_series("22.04");
    assert_eq!(v.to_version_string(), "1.90.0+dfsg2~22.04-0ubuntu3~22.04.1");
}

// --- is_backport / is_stage0 ---

#[test]
fn is_backport_detection() {
    let v = RustcPackageVersion::parse("1.95.0+dfsg-0ubuntu1").unwrap();
    assert!(!v.is_backport());

    let v = RustcPackageVersion::parse("1.90.0+dfsg2~24.04-0ubuntu3~24.04.1").unwrap();
    assert!(v.is_backport());
}

#[test]
fn is_stage0_detection() {
    let v = RustcPackageVersion::parse("1.95.0+dfsg-0ubuntu1").unwrap();
    assert!(!v.is_stage0());

    let v = RustcPackageVersion::parse("1.92.0+dfsg~24.04~stage0-0ubuntu1~24.04.3").unwrap();
    assert!(v.is_stage0());
}

// --- PPA suffix tests ---

#[test]
fn parse_non_backport_with_ppa() {
    let v = RustcPackageVersion::parse("1.88.0+dfsg-0ubuntu1~ppa1").unwrap();
    assert_eq!(v.upstream, RustVersion::parse("1.88.0").unwrap());
    assert_eq!(v.repack_number, None);
    assert_eq!(v.series, None);
    assert_eq!(v.ubuntu_revision, 1);
    assert_eq!(v.ppa, Some(1));
}

#[test]
fn parse_backport_with_ppa() {
    let v = RustcPackageVersion::parse("1.92.0+dfsg~20.04-0ubuntu1~20.04.1~ppa1").unwrap();
    assert_eq!(v.upstream, RustVersion::parse("1.92.0").unwrap());
    assert_eq!(v.series, Some("20.04".to_owned()));
    assert_eq!(v.backport_revision, Some(1));
    assert_eq!(v.ppa, Some(1));
}

#[test]
fn roundtrip_with_ppa() {
    let input = "1.88.0+dfsg-0ubuntu1~ppa3";
    let v = RustcPackageVersion::parse(input).unwrap();
    assert_eq!(v.to_version_string(), input);
}

#[test]
fn roundtrip_backport_with_ppa() {
    let input = "1.92.0+dfsg~20.04-0ubuntu1~20.04.1~ppa1";
    let v = RustcPackageVersion::parse(input).unwrap();
    assert_eq!(v.to_version_string(), input);
}

#[test]
fn bump_ppa() {
    let mut v = RustcPackageVersion::parse("1.88.0+dfsg-0ubuntu1~ppa1").unwrap();
    v.bump_ppa();
    assert_eq!(v.to_version_string(), "1.88.0+dfsg-0ubuntu1~ppa2");
}

#[test]
fn bump_ppa_from_none() {
    let mut v = RustcPackageVersion::parse("1.88.0+dfsg-0ubuntu1").unwrap();
    v.bump_ppa();
    assert_eq!(v.to_version_string(), "1.88.0+dfsg-0ubuntu1~ppa1");
}

#[test]
fn clear_ppa() {
    let mut v = RustcPackageVersion::parse("1.88.0+dfsg-0ubuntu1~ppa3").unwrap();
    v.clear_ppa();
    assert_eq!(v.to_version_string(), "1.88.0+dfsg-0ubuntu1");
}

#[test]
fn to_backport_clears_ppa() {
    let mut v = RustcPackageVersion::parse("1.95.0+dfsg-0ubuntu2~ppa1").unwrap();
    v.to_backport("24.04");
    assert_eq!(v.to_version_string(), "1.95.0+dfsg~24.04-0ubuntu2~24.04.1");
    assert_eq!(v.ppa, None);
}

fn parse_error(s: &str) -> String {
    match RustcPackageVersion::parse(s) {
        Err(ThermiteError::InvalidRustVersion(m)) => m,
        other => panic!("expected InvalidRustVersion, got {other:?}"),
    }
}

#[test]
fn parse_errors_name_the_problem() {
    assert_eq!(
        parse_error("1.85.0+dfsg0ubuntu1"),
        "missing '-' separator in version string: 1.85.0+dfsg0ubuntu1"
    );
    assert_eq!(parse_error("1.85.0-0ubuntu1"), "missing '+dfsg' in upstream part: 1.85.0");
    assert_eq!(parse_error("1.85+dfsg-0ubuntu1"), "1.85");
    assert_eq!(
        parse_error("1.85.0+dfsgx-0ubuntu1"),
        "unexpected characters after repack number in upstream part: 'x'"
    );
    assert_eq!(
        parse_error("1.85.0+dfsg~24.04~beta-0ubuntu1"),
        "unexpected suffix after series in upstream: '~beta'"
    );
    assert_eq!(parse_error("1.85.0+dfsg~24-0ubuntu1"), "invalid series format: '24'");
    assert_eq!(
        parse_error("1.85.0+dfsg~24.04.x-0ubuntu1"),
        "invalid backport repack number in '24.04.x'"
    );
    assert_eq!(
        parse_error("1.85.0+dfsg-ubuntu1"),
        "debian revision must start with '0ubuntu': got 'ubuntu1' in '1.85.0+dfsg-ubuntu1'"
    );
    assert_eq!(
        parse_error("1.85.0+dfsg-0ubuntux"),
        "invalid ubuntu revision number 'x' in '1.85.0+dfsg-0ubuntux'"
    );
    assert_eq!(
        parse_error("1.85.0+dfsg~24.04-0ubuntu1~2404"),
        "expected '<series>.<backport_revision>' but got '2404' in '1.85.0+dfsg~24.04-0ubuntu1~2404'"
    );
    assert_eq!(
        parse_error("1.85.0+dfsg~24.04-0ubuntu1~24.04.z"),
        "invalid backport revision 'z' in '1.85.0+dfsg~24.04-0ubuntu1~24.04.z'"
    );
}

#[test]
fn render_then_parse_gives_back_the_version() {
    let mut v = RustcPackageVersion::new(
        RustVersion::parse("1.91.2").unwrap(),
        Some(4),
        Some("22.04".to_owned()),
        Some(2),
        true,
        7,
        Some(3),
    );
    v.set_ppa(Some(9));
    let text = v.to_version_string();
    assert_eq!(text, "1.91.2+dfsg4~22.04.2~stage0-0ubuntu7~22.04.3~ppa9");
    let back = RustcPackageVersion::parse(&text).unwrap();
    assert_eq!(back.to_version_string(), text);
    assert_eq!(back.upstream, v.upstream);
    assert_eq!(back.repack_number, Some(4));
    assert_eq!(back.series, Some("22.04".to_owned()));
    assert_eq!(back.backport_repack, Some(2));
    assert!(back.stage0);
    assert_eq!(back.ubuntu_revision, 7);
    assert_eq!(back.backport_revision, Some(3));
    assert_eq!(back.ppa, Some(9));
}

#[test]
fn parse_accepts_non_canonical_numbers_that_render_differently() {
    let v = RustcPackageVersion::parse("1.85.00+dfsg-0ubuntu1").unwrap();
    assert_eq!(v.to_version_string(), "1.85.0+dfsg-0ubuntu1");
}

#[test]
fn parse_rejects_backport_revision_without_series() {
    assert_eq!(
        parse_error("1.90.0+dfsg2-0ubuntu3~24.04.1"),
        "series and backport revision must appear together in '1.90.0+dfsg2-0ubuntu3~24.04.1'"
    );
}

#[test]
fn parse_rejects_series_without_backport_revision() {
    assert_eq!(
        parse_error("1.85.0+dfsg~24.04-0ubuntu1"),
        "series and backport revision must appear together in '1.85.0+dfsg~24.04-0ubuntu1'"
    );
}

#[test]
fn parse_rejects_repack_number_out_of_range() {
    assert_eq!(
        parse_error("1.85.0+dfsg4294967296-0ubuntu1"),
        "invalid repack number '4294967296' in '1.85.0+dfsg4294967296-0ubuntu1'"
    );
    let v = RustcPackageVersion::parse("1.85.0+dfsg4294967295-0ubuntu1").unwrap();
    assert_eq!(v.repack_number, Some(4294967295));
}
