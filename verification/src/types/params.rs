//! Validated parameters of the `update`, `backport` and `tarball` commands.
use vstd::prelude::*;

use crate::error::ThermiteError;
use crate::text::{
    all_digit_chars, all_digits, chars_to_string, eq_ignore_ascii_case, eq_ignore_case_s,
    push_all, str_chars,
};
use crate::types::ubuntu::{devel_name, is_known_release, series_of, UbuntuRelease};
use crate::types::versions::{parse_rust_version_s, RustVersion};

verus! {

/// How the persistent rmadison result cache is used.
#[derive(Debug, Clone, Copy, PartialEq, Eq, Structural)]
pub enum CacheMode {
    /// Use cached results when present; fetch, store and return on a miss.
    On,
    /// Ignore the cache entirely: always fetch, never read or write entries.
    Off,
    /// Always fetch fresh results and overwrite cached entries.
    Update,
    /// Wipe the cached results, then behave like `On`.
    Clear,
}

impl Default for CacheMode {
    fn default() -> (r: Self)
        ensures
            r == CacheMode::On,
    {
        CacheMode::On
    }
}

/// What the `tarball` command does with the tarball(s).
#[derive(Debug, Clone, Copy, PartialEq, Eq, Structural)]
pub enum TarballAction {
    Download,
    Generate,
    Overlay,
}

/// The word `devel`, accepted in any ASCII case as an alias of the current
/// development release.
pub open spec fn devel_word() -> Seq<char> {
    "devel"@
}

pub open spec fn is_devel_word(s: Seq<char>) -> bool {
    eq_ignore_case_s(s, devel_word())
}

/// A Launchpad bug number: a non-empty string of ASCII digits.
pub open spec fn valid_bug_number(s: Seq<char>) -> bool {
    s.len() > 0 && all_digits(s)
}

fn is_devel_alias(s: &Vec<char>) -> (r: bool)
    ensures
        r == is_devel_word(s@),
{
    eq_ignore_ascii_case(s, &str_chars("devel"))
}

fn valid_bug(s: &Vec<char>) -> (r: bool)
    ensures
        r == valid_bug_number(s@),
{
    s.len() > 0 && all_digit_chars(s)
}

/// The message of the `InvalidLpBugNumber` error for the bug number `b`.
pub open spec fn bug_number_error_s(b: Seq<char>) -> Seq<char> {
    "'"@ + b + "' must be a non-empty string of digits"@
}

fn bug_number_error(b: &Vec<char>) -> (e: ThermiteError)
    ensures
        e matches ThermiteError::InvalidLpBugNumber(m) && m@ == bug_number_error_s(b@),
{
    let mut m = str_chars("'");
    push_all(&mut m, b);
    push_all(&mut m, &str_chars("' must be a non-empty string of digits"));
    ThermiteError::InvalidLpBugNumber(chars_to_string(&m))
}

/// Parameters for the `thermite backport` command, validated on construction.
#[derive(Debug, Clone)]
pub struct BackportParams {
    /// Full Rust version being backported, e.g. `1.85.0`.
    pub rust_version: RustVersion,
    /// Ubuntu release being backported from.
    pub source_release: UbuntuRelease,
    /// `true` when the source was given as `devel` and resolved to the current
    /// development release.
    pub source_release_is_devel_alias: bool,
    /// Ubuntu release being backported to.
    pub release: UbuntuRelease,
    /// Launchpad username; also the personal Git remote name.
    pub lpuser: String,
    /// Local Git remote name of the Foundations rustc repository.
    pub git_remote: String,
    /// Launchpad bug number (digits only); `None` for a proactive backport.
    pub lp_bug_number: Option<String>,
    /// When `true`, hard-to-revert operations are only described.
    pub dry_run: bool,
}

/// The release that the source argument of `backport` names.
pub open spec fn source_name(source: Seq<char>) -> Seq<char> {
    if is_devel_word(source) {
        devel_name()
    } else {
        source
    }
}

impl BackportParams {
    /// Construct and validate the parameters of a backport. The checks run in
    /// this order, the first failing one giving the error:
    /// an empty `lpuser` (`InvalidLpUser`); a bug number that is not a
    /// non-empty digit string (`InvalidLpBugNumber`); an unknown source
    /// release, `devel` in any ASCII case standing for the current development
    /// release (`UnknownRelease`); a `devel` target (`InvalidBackportReleases`);
    /// an unknown target (`UnknownRelease`); source equal to target
    /// (`InvalidBackportReleases`); a Rust version that is not `X.Y.Z`
    /// (`InvalidRustVersion`).
    pub fn new(
        rust_version: &str,
        source_release: &str,
        release: &str,
        lpuser: &str,
        git_remote: &str,
        lp_bug_number: Option<&str>,
        dry_run: bool,
    ) -> (r: Result<Self, ThermiteError>)
        ensures
            lpuser@.len() == 0 ==> (r matches Err(ThermiteError::InvalidLpUser(m)) && m@
                == "lpuser must not be empty"@),
            lpuser@.len() > 0 && (lp_bug_number matches Some(b) && !valid_bug_number(b@)) ==> (
            r matches Err(ThermiteError::InvalidLpBugNumber(m)) && m@ == bug_number_error_s(
                lp_bug_number->0@,
            )),
            ({
                let early = lpuser@.len() == 0 || (lp_bug_number matches Some(b)
                    && !valid_bug_number(b@));
                let src = source_name(source_release@);
                &&& !early && !is_known_release(src) ==> (r matches Err(
                    ThermiteError::UnknownRelease(m),
                ) && m@ == source_release@)
                &&& !early && is_known_release(src) && is_devel_word(release@) ==> (r matches Err(
                    ThermiteError::InvalidBackportReleases(m),
                ) && m@
                    == "cannot backport to 'devel'; specify a concrete target release (e.g. 'resolute', 'noble')"@)
                &&& !early && is_known_release(src) && !is_devel_word(release@)
                    && !is_known_release(release@) ==> (r matches Err(
                    ThermiteError::UnknownRelease(m),
                ) && m@ == release@)
                &&& !early && is_known_release(src) && !is_devel_word(release@) && is_known_release(
                    release@,
                ) && src == release@ ==> (r matches Err(ThermiteError::InvalidBackportReleases(m))
                    && m@ == "source release and target release must differ (both are '"@ + release@
                    + "')"@)
                &&& !early && is_known_release(src) && !is_devel_word(release@) && is_known_release(
                    release@,
                ) && src != release@ && parse_rust_version_s(rust_version@) is None ==> (r matches Err(
                    ThermiteError::InvalidRustVersion(m),
                ) && m@ == rust_version@)
                &&& !early && is_known_release(src) && !is_devel_word(release@) && is_known_release(
                    release@,
                ) && src != release@ && parse_rust_version_s(rust_version@) is Some ==> (r matches Ok(
                    p,
                ) && p.rust_version == parse_rust_version_s(rust_version@)->0 && p.source_release@
                    == src && p.source_release_is_devel_alias == is_devel_word(source_release@)
                    && p.release@ == release@ && p.lpuser@ == lpuser@ && p.git_remote@
                    == git_remote@ && p.dry_run == dry_run && (match lp_bug_number {
                    Some(b) => p.lp_bug_number matches Some(x) && x@ == b@,
                    None => p.lp_bug_number is None,
                }))
            }),
    {
        if lpuser.is_empty() {
            return Err(
                ThermiteError::InvalidLpUser(
                    chars_to_string(&str_chars("lpuser must not be empty")),
                ),
            );
        }
        if let Some(bug) = lp_bug_number {
            let b = str_chars(bug);
            if !valid_bug(&b) {
                return Err(bug_number_error(&b));
            }
        }
        let src_chars = str_chars(source_release);
        let source_is_devel = is_devel_alias(&src_chars);
        let source = if source_is_devel {
            UbuntuRelease::devel_release()
        } else {
            UbuntuRelease::parse(source_release)?
        };
        proof {
            if !source_is_devel {
                assert(source_name(source_release@) == source_release@);
            }
        }
        source.check_known();
        let rel_chars = str_chars(release);
        if is_devel_alias(&rel_chars) {
            return Err(
                ThermiteError::InvalidBackportReleases(
                    chars_to_string(
                        &str_chars(
                            "cannot backport to 'devel'; specify a concrete target release (e.g. 'resolute', 'noble')",
                        ),
                    ),
                ),
            );
        }
        let target = UbuntuRelease::parse(release)?;
        if source.same_as(&target) {
            let mut m = str_chars("source release and target release must differ (both are '");
            push_all(&mut m, &rel_chars);
            push_all(&mut m, &str_chars("')"));
            return Err(ThermiteError::InvalidBackportReleases(chars_to_string(&m)));
        }
        let rust_version = RustVersion::parse(rust_version)?;
        let lp_bug_number = match lp_bug_number {
            Some(b) => Some(chars_to_string(&str_chars(b))),
            None => None,
        };
        Ok(
            BackportParams {
                rust_version,
                source_release: source,
                source_release_is_devel_alias: source_is_devel,
                release: target,
                lpuser: chars_to_string(&str_chars(lpuser)),
                git_remote: chars_to_string(&str_chars(git_remote)),
                lp_bug_number,
                dry_run,
            },
        )
    }
}

/// Parameters for the `thermite update` command, validated on construction.
#[derive(Debug, Clone)]
pub struct UpdateParams {
    /// Full Rust version being packaged, e.g. `1.85.1`.
    pub rust_update_version: RustVersion,
    /// Full Rust version being replaced, e.g. `1.84.0`.
    pub rust_old_version: RustVersion,
    /// Target Ubuntu release.
    pub release: UbuntuRelease,
    /// Launchpad username; also the personal Git remote name.
    pub lpuser: String,
    /// Local Git remote name of the Foundations rustc repository.
    pub git_remote: String,
    /// Launchpad bug number (digits only).
    pub lp_bug_number: String,
}

impl UpdateParams {
    /// Construct and validate the parameters of an update. The checks run in
    /// this order, the first failing one giving the error: an empty `lpuser`
    /// (`InvalidLpUser`); a bug number that is not a non-empty digit string
    /// (`InvalidLpBugNumber`); the new and then the old Rust version
    /// (`InvalidRustVersion`); the release (`UnknownRelease`).
    pub fn new(
        rust_update_version: &str,
        rust_old_version: &str,
        release: &str,
        lpuser: &str,
        git_remote: &str,
        lp_bug_number: &str,
    ) -> (r: Result<Self, ThermiteError>)
        ensures
            lpuser@.len() == 0 ==> (r matches Err(ThermiteError::InvalidLpUser(m)) && m@
                == "lpuser must not be empty"@),
            lpuser@.len() > 0 && !valid_bug_number(lp_bug_number@) ==> (r matches Err(
                ThermiteError::InvalidLpBugNumber(m),
            ) && m@ == bug_number_error_s(lp_bug_number@)),
            lpuser@.len() > 0 && valid_bug_number(lp_bug_number@) && parse_rust_version_s(
                rust_update_version@,
            ) is None ==> (r matches Err(ThermiteError::InvalidRustVersion(m)) && m@
                == rust_update_version@),
            lpuser@.len() > 0 && valid_bug_number(lp_bug_number@) && parse_rust_version_s(
                rust_update_version@,
            ) is Some && parse_rust_version_s(rust_old_version@) is None ==> (r matches Err(
                ThermiteError::InvalidRustVersion(m),
            ) && m@ == rust_old_version@),
            lpuser@.len() > 0 && valid_bug_number(lp_bug_number@) && parse_rust_version_s(
                rust_update_version@,
            ) is Some && parse_rust_version_s(rust_old_version@) is Some && !is_known_release(
                release@,
            ) ==> (r matches Err(ThermiteError::UnknownRelease(m)) && m@ == release@),
            lpuser@.len() > 0 && valid_bug_number(lp_bug_number@) && parse_rust_version_s(
                rust_update_version@,
            ) is Some && parse_rust_version_s(rust_old_version@) is Some && is_known_release(
                release@,
            ) ==> (r matches Ok(p) && p.rust_update_version == parse_rust_version_s(
                rust_update_version@,
            )->0 && p.rust_old_version == parse_rust_version_s(rust_old_version@)->0
                && p.release@ == release@ && p.lpuser@ == lpuser@ && p.git_remote@ == git_remote@
                && p.lp_bug_number@ == lp_bug_number@),
    {
        if lpuser.is_empty() {
            return Err(
                ThermiteError::InvalidLpUser(
                    chars_to_string(&str_chars("lpuser must not be empty")),
                ),
            );
        }
        let b = str_chars(lp_bug_number);
        if !valid_bug(&b) {
            return Err(bug_number_error(&b));
        }
        let rust_update_version = RustVersion::parse(rust_update_version)?;
        let rust_old_version = RustVersion::parse(rust_old_version)?;
        let release = UbuntuRelease::parse(release)?;
        Ok(
            UpdateParams {
                rust_update_version,
                rust_old_version,
                release,
                lpuser: chars_to_string(&str_chars(lpuser)),
                git_remote: chars_to_string(&str_chars(git_remote)),
                lp_bug_number: chars_to_string(&b),
            },
        )
    }
}

/// Parameters for the `thermite tarball` command, validated on construction.
#[derive(Debug)]
pub struct TarballParams {
    /// What to do with the tarball(s).
    pub action: TarballAction,
    /// Full Rust version the tarballs are named after.
    pub rust_version: RustVersion,
    /// Release whose series number suffixes backport-style names.
    pub series: Option<UbuntuRelease>,
    /// Overwrite an existing tarball when generating.
    pub force: bool,
    /// Replace (rather than merge) `vendor/` when overlaying.
    pub overlay_replace: bool,
}

/// The text after `+dfsg` in tarball names: `~<series number>` or nothing.
pub open spec fn dfsg_suffix_s(series: Option<Seq<char>>) -> Seq<char> {
    match series {
        Some(name) => seq!['~'] + series_of(name),
        None => seq![],
    }
}

impl TarballParams {
    /// Construct and validate the parameters of a tarball command: the Rust
    /// version must be `X.Y.Z` (`InvalidRustVersion`), then the series, when
    /// given, must be a known release (`UnknownRelease`).
    pub fn new(
        action: TarballAction,
        rust_version: &str,
        series: Option<&str>,
        force: bool,
        overlay_replace: bool,
    ) -> (r: Result<Self, ThermiteError>)
        ensures
            parse_rust_version_s(rust_version@) is None ==> (r matches Err(
                ThermiteError::InvalidRustVersion(m),
            ) && m@ == rust_version@),
            parse_rust_version_s(rust_version@) is Some && (series matches Some(s)
                && !is_known_release(s@)) ==> (r matches Err(ThermiteError::UnknownRelease(m))
                && m@ == series->0@),
            parse_rust_version_s(rust_version@) is Some && !(series matches Some(s)
                && !is_known_release(s@)) ==> (r matches Ok(p) && p.action == action
                && p.rust_version == parse_rust_version_s(rust_version@)->0 && p.force == force
                && p.overlay_replace == overlay_replace && (match series {
                Some(s) => p.series matches Some(rel) && rel@ == s@,
                None => p.series is None,
            })),
    {
        let rust_version = RustVersion::parse(rust_version)?;
        let series = match series {
            Some(s) => Some(UbuntuRelease::parse(s)?),
            None => None,
        };
        Ok(TarballParams { action, rust_version, series, force, overlay_replace })
    }

    /// The text after `+dfsg` in the tarball names: `~<series number>` for
    /// backport-style names, empty for plain update naming.
    pub fn dfsg_suffix(&self) -> (r: String)
        ensures
            r@ == dfsg_suffix_s(
                match self.series {
                    Some(rel) => Some(rel@),
                    None => None,
                },
            ),
    {
        match &self.series {
            Some(rel) => {
                let mut v: Vec<char> = Vec::new();
                v.push('~');
                crate::text::push_all(&mut v, &str_chars(rel.series_number()));
                chars_to_string(&v)
            },
            None => chars_to_string(&Vec::new()),
        }
    }
}

} // verus!
