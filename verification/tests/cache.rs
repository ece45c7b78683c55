use thermite::cache::{
    cache_base, clear_allowed, entry_file_name, format_age, lookup_allowed, store_after_query, store_allowed,
    temp_entry_name, valid_key, CacheState, RMADISON_NAMESPACE,
};
use thermite::types::params::CacheMode;

#[test]
fn valid_key_accepts_typical_queries() {
    assert!(valid_key("libgit2"));
    assert!(valid_key("rustc-1.85"));
    assert!(valid_key("llvm-toolchain-22"));
}

#[test]
fn valid_key_rejects_traversal_and_separators() {
    assert!(!valid_key(""));
    assert!(!valid_key(".hidden"));
    assert!(!valid_key(".."));
    assert!(!valid_key("a/b"));
    assert!(!valid_key("a\\b"));
    assert!(!valid_key("pkg\nname"));
    assert!(!valid_key("pkg name\t"));
}

#[test]
fn valid_key_rejects_non_ascii() {
    assert!(!valid_key("rustc-1.85…"));
}

#[test]
fn format_age_buckets() {
    assert_eq!(format_age(None), "age unknown");
    assert_eq!(format_age(Some(0)), "just now");
    assert_eq!(format_age(Some(59)), "just now");
    assert_eq!(format_age(Some(60)), "1m old");
    assert_eq!(format_age(Some(3599)), "59m old");
    assert_eq!(format_age(Some(3600)), "1h old");
    assert_eq!(format_age(Some(86399)), "23h old");
    assert_eq!(format_age(Some(86400)), "1d old");
    assert_eq!(format_age(Some(7 * 86400)), "7d old");
}

#[test]
fn off_mode_neither_reads_nor_writes() {
    assert!(!lookup_allowed(CacheMode::Off, "libgit2"));
    assert!(!store_allowed(CacheMode::Off, "libgit2"));
    assert!(!clear_allowed(CacheMode::Off));
}

#[test]
fn update_mode_writes_but_never_reads() {
    assert!(!lookup_allowed(CacheMode::Update, "libgit2"));
    assert!(store_allowed(CacheMode::Update, "libgit2"));
    assert!(clear_allowed(CacheMode::Update));
}

#[test]
fn on_mode_reads_and_writes_valid_keys_only() {
    assert!(lookup_allowed(CacheMode::On, "libgit2"));
    assert!(store_allowed(CacheMode::On, "libgit2"));
    assert!(!lookup_allowed(CacheMode::On, "../etc"));
    assert!(!store_allowed(CacheMode::On, "a/b"));
}

#[test]
fn entry_names_follow_the_key() {
    assert_eq!(entry_file_name("libgit2"), "libgit2.txt");
    assert_eq!(temp_entry_name("libgit2", 4242), "libgit2.tmp.4242");
    assert_eq!(RMADISON_NAMESPACE, "rmadison");
}

#[test]
fn cache_base_prefers_xdg_then_home() {
    assert_eq!(
        cache_base(Some("/x"), Some("/home/u")),
        Some(vec!["/x".to_owned(), "canonical".to_owned(), "thermite".to_owned()])
    );
    assert_eq!(
        cache_base(Some("  "), Some("/home/u")),
        Some(vec![
            "/home/u".to_owned(),
            ".cache".to_owned(),
            "canonical".to_owned(),
            "thermite".to_owned()
        ])
    );
    assert_eq!(cache_base(None, None), None);
    assert_eq!(cache_base(None, Some("")), None);
}

#[test]
fn cache_mode_is_set_once_and_clear_runs_as_on() {
    let mut st = CacheState::new();
    assert_eq!(st.cache_mode(), CacheMode::On);
    assert!(st.activate(CacheMode::Clear));
    assert_eq!(st.cache_mode(), CacheMode::On);
    st.set_cache_mode(CacheMode::Off);
    assert_eq!(st.cache_mode(), CacheMode::On);

    let mut other = CacheState::new();
    assert!(!other.activate(CacheMode::Update));
    assert_eq!(other.cache_mode(), CacheMode::Update);
}

#[test]
fn failed_queries_are_never_stored() {
    assert!(store_after_query(true, CacheMode::On, "rustc-1.85"));
    assert!(store_after_query(true, CacheMode::Update, "rustc-1.85"));
    assert!(!store_after_query(false, CacheMode::On, "rustc-1.85"));
    assert!(!store_after_query(false, CacheMode::Update, "rustc-1.85"));
    assert!(!store_after_query(true, CacheMode::Off, "rustc-1.85"));
    assert!(!store_after_query(true, CacheMode::On, "a/b"));
}
