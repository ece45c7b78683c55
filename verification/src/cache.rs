//! The persistent cache of `rmadison` query results: which queries may be
//! cached, what each cache mode allows, where entries live, and how old
//! they look.
//!
//! One file per query lives under
//! `$XDG_CACHE_HOME/canonical/thermite/rmadison/` (by default under
//! `~/.cache`).  The cache is best-effort: its failures never fail a
//! workflow, they degrade to running the query.
use vstd::prelude::*;

use crate::text::{
    chars_to_string, contains, contains_s, dec_s, find, owned, push_all, push_dec, starts_with,
    starts_with_s, str_chars, trim_s, trim_v,
};
use crate::types::params::CacheMode;

verus! {

/// Namespace directory below the cache base holding rmadison results.
pub const RMADISON_NAMESPACE: &'static str = "rmadison";

/// The cache mode of a run: set once, at startup; later settings are
/// ignored, and an unset mode reads as [`CacheMode::On`].
pub struct CacheState {
    mode: Option<CacheMode>,
}

impl View for CacheState {
    type V = Option<CacheMode>;

    closed spec fn view(&self) -> Option<CacheMode> {
        self.mode
    }
}

impl CacheState {
    /// A state in which no mode was set yet.
    pub fn new() -> (r: Self)
        ensures
            r@ is None,
    {
        CacheState { mode: None }
    }

    /// Set the mode, unless one was set already.
    pub fn set_cache_mode(&mut self, mode: CacheMode)
        ensures
            final(self)@ == (match old(self)@ {
                Some(m) => Some(m),
                None => Some(mode),
            }),
    {
        if self.mode.is_none() {
            self.mode = Some(mode);
        }
    }

    /// The mode in force (`On` when none was set).
    pub fn cache_mode(&self) -> (r: CacheMode)
        ensures
            r == match self@ {
                Some(m) => m,
                None => CacheMode::On,
            },
    {
        match self.mode {
            Some(m) => m,
            None => CacheMode::On,
        }
    }

    /// Activate the CLI `--cache` mode.  `Clear` asks for the cache to be
    /// wiped first (the result is `true`), after which the run uses `On`;
    /// every other mode is stored as it is.
    pub fn activate(&mut self, mode: CacheMode) -> (clear_first: bool)
        ensures
            clear_first == (mode == CacheMode::Clear),
            final(self)@ == (match old(self)@ {
                Some(m) => Some(m),
                None => Some(
                    if mode == CacheMode::Clear {
                        CacheMode::On
                    } else {
                        mode
                    },
                ),
            }),
    {
        if mode == CacheMode::Clear {
            self.set_cache_mode(CacheMode::On);
            true
        } else {
            self.set_cache_mode(mode);
            false
        }
    }
}

/// An environment value that is set and not blank.
pub open spec fn usable_s(v: Option<&str>) -> bool {
    match v {
        Some(x) => trim_s(x@).len() > 0,
        None => false,
    }
}

/// The components of the cache base directory, to be joined as a path:
/// `$XDG_CACHE_HOME/canonical/thermite` when that is set and not blank,
/// else `$HOME/.cache/canonical/thermite` when `HOME` is, else none.
pub fn cache_base(xdg_cache_home: Option<&str>, home: Option<&str>) -> (r: Option<Vec<String>>)
    ensures
        r is Some <==> (usable_s(xdg_cache_home) || usable_s(home)),
        r matches Some(v) ==> crate::text::string_views(v@) == if usable_s(xdg_cache_home) {
            seq![xdg_cache_home->0@, "canonical"@, "thermite"@]
        } else {
            seq![home->0@, ".cache"@, "canonical"@, "thermite"@]
        },
{
    match xdg_cache_home {
        Some(x) => {
            if trim_v(&str_chars(x)).len() > 0 {
                let mut v: Vec<String> = Vec::new();
                v.push(owned(x));
                v.push(owned("canonical"));
                v.push(owned("thermite"));
                assert(crate::text::string_views(v@) =~= seq![x@, "canonical"@, "thermite"@]);
                return Some(v);
            }
        },
        None => {},
    }
    match home {
        Some(h) => {
            if trim_v(&str_chars(h)).len() > 0 {
                let mut v: Vec<String> = Vec::new();
                v.push(owned(h));
                v.push(owned(".cache"));
                v.push(owned("canonical"));
                v.push(owned("thermite"));
                assert(crate::text::string_views(v@) =~= seq![h@, ".cache"@, "canonical"@, "thermite"@]);
                return Some(v);
            }
            None
        },
        None => None,
    }
}

/// A cached rmadison result.
#[derive(Debug, Clone)]
pub struct CacheHit {
    /// The cached stdout of the original `rmadison` invocation.
    pub data: String,
    /// Age of the cache entry in seconds, when its mtime could be read.
    pub age_secs: Option<u64>,
}

/// A query that may name a cache entry: non-empty, not starting with `.`,
/// free of `/`, `\` and `..`, and only printable ASCII.
pub open spec fn valid_key_s(key: Seq<char>) -> bool {
    &&& key.len() > 0
    &&& key[0] != '.'
    &&& !contains_s(key, seq!['/'])
    &&& !contains_s(key, seq!['\\'])
    &&& !contains_s(key, ".."@)
    &&& forall|i: int| 0 <= i < key.len() ==> 0x20 <= (#[trigger] key[i]) as u32 <= 0x7e
}

/// Validate a cache key (an rmadison query such as `libgit2` or
/// `rustc-1.85`).
pub fn valid_key(key: &str) -> (r: bool)
    ensures
        r == valid_key_s(key@),
{
    let k = str_chars(key);
    if k.len() == 0 || k[0] == '.' {
        return false;
    }
    let slash = str_chars("/");
    let backslash = str_chars("\\");
    proof {
        reveal_strlit("/");
        reveal_strlit("\\");
    }
    assert(slash@ =~= seq!['/']);
    assert(backslash@ =~= seq!['\\']);
    if contains(&k, &slash) || contains(&k, &backslash) || contains(&k, &str_chars("..")) {
        return false;
    }
    let mut i: usize = 0;
    while i < k.len()
        invariant
            i <= k.len(),
            k@ == key@,
            forall|j: int| 0 <= j < i ==> 0x20 <= (#[trigger] k@[j]) as u32 <= 0x7e,
        decreases k.len() - i,
    {
        let c = k[i] as u32;
        if !(0x20 <= c && c <= 0x7e) {
            assert(key@[i as int] == k@[i as int]);
            assert(!(0x20 <= (key@[i as int]) as u32 <= 0x7e));
            return false;
        }
        i = i + 1;
    }
    true
}

/// A lookup reads the cache only in `On` (and `Clear`) mode, and only for a
/// valid key.
pub open spec fn lookup_allowed_s(mode: CacheMode, key: Seq<char>) -> bool {
    (mode == CacheMode::On || mode == CacheMode::Clear) && valid_key_s(key)
}

/// A store writes the cache in every mode but `Off`, and only for a valid
/// key.
pub open spec fn store_allowed_s(mode: CacheMode, key: Seq<char>) -> bool {
    mode != CacheMode::Off && valid_key_s(key)
}

/// `Off` mode never touches the cache, `Update` mode writes but never
/// reads, and an invalid key is never looked up or stored in any mode.
pub proof fn lemma_mode_access(key: Seq<char>, mode: CacheMode)
    ensures
        !lookup_allowed_s(CacheMode::Off, key) && !store_allowed_s(CacheMode::Off, key),
        !lookup_allowed_s(CacheMode::Update, key),
        store_allowed_s(CacheMode::Update, key) == valid_key_s(key),
        !valid_key_s(key) ==> !lookup_allowed_s(mode, key) && !store_allowed_s(mode, key),
{
}

/// Whether a lookup of `key` may read the cache in `mode`.
pub fn lookup_allowed(mode: CacheMode, key: &str) -> (r: bool)
    ensures
        r == lookup_allowed_s(mode, key@),
{
    match mode {
        CacheMode::Off | CacheMode::Update => false,
        CacheMode::On | CacheMode::Clear => valid_key(key),
    }
}

/// Whether a store of `key` may write the cache in `mode`.
pub fn store_allowed(mode: CacheMode, key: &str) -> (r: bool)
    ensures
        r == store_allowed_s(mode, key@),
{
    match mode {
        CacheMode::Off => false,
        _ => valid_key(key),
    }
}

/// Whether the outcome of a query is written to the cache: only a query that
/// succeeded (failures are never stored), and only where a store is allowed.
pub fn store_after_query(query_ok: bool, mode: CacheMode, key: &str) -> (r: bool)
    ensures
        r == (query_ok && store_allowed_s(mode, key@)),
{
    query_ok && store_allowed(mode, key)
}

/// Whether clearing may touch the cache in `mode` (`Off` leaves it alone).
pub fn clear_allowed(mode: CacheMode) -> (r: bool)
    ensures
        r == (mode != CacheMode::Off),
{
    match mode {
        CacheMode::Off => false,
        _ => true,
    }
}

/// The file name of the entry for `key` in the namespace directory.
pub fn entry_file_name(key: &str) -> (r: String)
    ensures
        r@ == key@ + ".txt"@,
{
    let mut v = str_chars(key);
    push_all(&mut v, &str_chars(".txt"));
    chars_to_string(&v)
}

/// The file name under which process `pid` writes the entry for `key`
/// before renaming it into place.
pub fn temp_entry_name(key: &str, pid: u32) -> (r: String)
    ensures
        r@ == key@ + ".tmp."@ + dec_s(pid as nat),
{
    let mut v = str_chars(key);
    push_all(&mut v, &str_chars(".tmp."));
    push_dec(&mut v, pid as u64);
    chars_to_string(&v)
}

/// How old an entry looks: unknown, just now (under a minute), or whole
/// minutes, hours or days.
pub open spec fn format_age_s(age_secs: Option<u64>) -> Seq<char> {
    match age_secs {
        None => "age unknown"@,
        Some(s) => if s < 60 {
            "just now"@
        } else if s < 3600 {
            dec_s((s / 60) as nat) + "m old"@
        } else if s < 86400 {
            dec_s((s / 3600) as nat) + "h old"@
        } else {
            dec_s((s / 86400) as nat) + "d old"@
        },
    }
}

/// Format a cache-entry age for the "using cached result" notice.
pub fn format_age(age_secs: Option<u64>) -> (r: String)
    ensures
        r@ == format_age_s(age_secs),
{
    match age_secs {
        None => owned("age unknown"),
        Some(s) => {
            if s < 60 {
                return owned("just now");
            }
            let (n, unit) = if s < 3600 {
                (s / 60, "m old")
            } else if s < 86400 {
                (s / 3600, "h old")
            } else {
                (s / 86400, "d old")
            };
            let mut v: Vec<char> = Vec::new();
            push_dec(&mut v, n);
            push_all(&mut v, &str_chars(unit));
            chars_to_string(&v)
        },
    }
}

} // verus!
