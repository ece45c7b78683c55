use thermite::types::versions::RustVersion;

#[test]
fn parse_valid_version() {
    let v = RustVersion::parse("1.85.1").unwrap();
    assert_eq!(v.major, 1);
    assert_eq!(v.minor, 85);
    assert_eq!(v.patch, 1);
    assert_eq!(v.to_version_string(), "1.85.1");
}

#[test]
fn parse_invalid_versions() {
    assert!(RustVersion::parse("1.85").is_err());
    assert!(RustVersion::parse("1.85.x").is_err());
    assert!(RustVersion::parse("").is_err());
    assert!(RustVersion::parse("1.2.3.4").is_err());
}

#[test]
fn short_version() {
    let v = RustVersion::parse("1.85.1").unwrap();
    assert_eq!(v.short().to_version_string(), "1.85");
}

#[test]
fn rust_version_render_then_parse_gives_back_the_version() {
    let v = RustVersion { major: 1, minor: 90, patch: 12 };
    let text = v.to_version_string();
    assert_eq!(text, "1.90.12");
    assert_eq!(RustVersion::parse(&text).unwrap(), v);
}

#[test]
fn rust_version_accepts_leading_plus_and_zeros_like_u32_parse() {
    let v = RustVersion::parse("01.+2.0").unwrap();
    assert_eq!(v, RustVersion { major: 1, minor: 2, patch: 0 });
}

#[test]
fn rust_version_rejects_overflowing_component() {
    assert!(RustVersion::parse("1.4294967296.0").is_err());
    assert!(RustVersion::parse("1.4294967295.0").is_ok());
}
