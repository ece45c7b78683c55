use thermite::types::ubuntu::{backport_chain, known_release, UbuntuRelease, BACKPORT_CHAIN_LEN, KNOWN_RELEASE_COUNT};

#[test]
fn parse_known_release() {
    assert!(UbuntuRelease::parse("noble").is_ok());
    assert!(UbuntuRelease::parse("jammy").is_ok());
}

#[test]
fn reject_unknown_release() {
    assert!(UbuntuRelease::parse("foobar").is_err());
    assert!(UbuntuRelease::parse("").is_err());
}

#[test]
fn series_number_returns_correct_value() {
    assert_eq!(UbuntuRelease::parse("jammy").unwrap().series_number(), "22.04");
    assert_eq!(UbuntuRelease::parse("noble").unwrap().series_number(), "24.04");
    assert_eq!(UbuntuRelease::parse("focal").unwrap().series_number(), "20.04");
    assert_eq!(UbuntuRelease::parse("questing").unwrap().series_number(), "25.10");
}

#[test]
fn devel_returns_last_known_release_adjective() {
    let last = known_release(KNOWN_RELEASE_COUNT - 1);
    assert_eq!(UbuntuRelease::devel(), last.0);
}

#[test]
fn is_devel_true_for_last_known_release() {
    let last = known_release(KNOWN_RELEASE_COUNT - 1);
    let r = UbuntuRelease::parse(last.0).unwrap();
    assert!(r.is_devel(), "{} should be devel", last.0);
}

#[test]
fn is_devel_false_for_non_last_release() {
    let r = UbuntuRelease::parse("noble").unwrap();
    if UbuntuRelease::devel() != "noble" {
        assert!(!r.is_devel());
    }
}

#[test]
fn parse_keeps_the_name_and_rejects_case_variants() {
    assert_eq!(UbuntuRelease::parse("noble").unwrap().as_str(), "noble");
    assert!(UbuntuRelease::parse("Noble").is_err());
    assert!(UbuntuRelease::parse("noble ").is_err());
}

#[test]
fn backport_chain_is_ordered_oldest_first_and_positions_match() {
    let mut names = Vec::new();
    for k in 0..BACKPORT_CHAIN_LEN {
        names.push(backport_chain(k));
    }
    assert_eq!(names, vec!["focal", "jammy", "noble", "resolute", "stonking"]);
    for (k, name) in names.iter().enumerate() {
        assert_eq!(UbuntuRelease::parse(name).unwrap().chain_position(), Some(k));
    }
    assert_eq!(UbuntuRelease::parse("plucky").unwrap().chain_position(), None);
}
