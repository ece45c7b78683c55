//! The `thermite version` command group: parsing, explaining, formatting
//! and bumping Ubuntu `rustc` package version strings.
//!
//! The functions here compute what the subcommands print; reading a
//! changelog and printing are left to the caller.
use vstd::prelude::*;

use crate::error::ThermiteError;
use crate::steps::changelog::{changelog_version_s, read_current_version};
use crate::text::{
    chars_to_string, dec_s, owned, push_all, push_dec, str_chars, string_views,
};
use crate::types::package_version::{
    lemma_version_roundtrip, opt_view, parse_package_version_s, render_version, well_formed_version,
    RustcPackageVersion, VersionFields,
};
use crate::types::ubuntu::{is_known_release, series_of, UbuntuRelease};
use crate::types::versions::{parse_rust_version_s, RustVersion};

verus! {

// ── Series ───────────────────────────────────────────────────────────────────

pub open spec fn opt_str(o: Option<&str>) -> Option<Seq<char>> {
    match o {
        Some(s) => Some(s@),
        None => None,
    }
}

/// The series that `--series` or `--release` (mutually exclusive) name;
/// `Err(None)` when both are given, `Err(Some(r))` for an unknown release
/// `r`.
pub open spec fn resolve_series_s(series: Option<Seq<char>>, release: Option<Seq<char>>) -> Result<
    Option<Seq<char>>,
    Option<Seq<char>>,
> {
    match (series, release) {
        (Some(_), Some(_)) => Err(None),
        (Some(s), None) => Ok(Some(s)),
        (None, Some(r)) => if is_known_release(r) {
            Ok(Some(series_of(r)))
        } else {
            Err(Some(r))
        },
        (None, None) => Ok(None),
    }
}

/// The error of [`resolve_series_s`]'s outcome.
pub open spec fn series_error_matches(e: ThermiteError, err: Option<Seq<char>>) -> bool {
    match err {
        None => e matches ThermiteError::InvalidRustVersion(m) && m@
            == "--series and --release are mutually exclusive"@,
        Some(r) => e matches ThermiteError::UnknownRelease(m) && m@ == r,
    }
}

/// Resolve a series from `--series` or `--release` (mutually exclusive).
pub fn resolve_series(series: Option<&str>, release: Option<&str>) -> (r: Result<
    Option<String>,
    ThermiteError,
>)
    ensures
        match resolve_series_s(opt_str(series), opt_str(release)) {
            Ok(s) => r matches Ok(x) && opt_view(x) == s,
            Err(err) => r matches Err(e) && series_error_matches(e, err),
        },
{
    match (series, release) {
        (Some(_), Some(_)) => Err(
            ThermiteError::InvalidRustVersion(owned("--series and --release are mutually exclusive")),
        ),
        (Some(s), None) => Ok(Some(owned(s))),
        (None, Some(r)) => {
            let rel = UbuntuRelease::parse(r)?;
            Ok(Some(owned(rel.series_number())))
        },
        (None, None) => Ok(None),
    }
}

// ── Ordinals ─────────────────────────────────────────────────────────────────

pub open spec fn ordinal_suffix_s(n: u32) -> Seq<char> {
    if n % 100 == 11 || n % 100 == 12 || n % 100 == 13 {
        "th"@
    } else if n % 10 == 1 {
        "st"@
    } else if n % 10 == 2 {
        "nd"@
    } else if n % 10 == 3 {
        "rd"@
    } else {
        "th"@
    }
}

pub open spec fn ordinal_s(n: u32) -> Seq<char> {
    dec_s(n as nat) + ordinal_suffix_s(n)
}

/// The English ordinal of a number (e.g. "1st", "2nd", "3rd", "11th").
pub fn ordinal(n: u32) -> (r: String)
    ensures
        r@ == ordinal_s(n),
{
    let suffix = if n % 100 == 11 || n % 100 == 12 || n % 100 == 13 {
        "th"
    } else if n % 10 == 1 {
        "st"
    } else if n % 10 == 2 {
        "nd"
    } else if n % 10 == 3 {
        "rd"
    } else {
        "th"
    };
    let mut v: Vec<char> = Vec::new();
    push_dec(&mut v, n as u64);
    push_all(&mut v, &str_chars(suffix));
    chars_to_string(&v)
}

// ── Reading the version to work on ──────────────────────────────────────────

/// What the version input names on disk.
#[derive(Debug, Clone, Copy, PartialEq, Eq, Structural)]
pub enum InputKind {
    /// Nothing exists at the path: the input is a literal version string.
    Missing,
    /// A directory: a package root, whose `debian/changelog` holds the version.
    Directory,
    /// A file: a changelog holding the version.
    File,
}

/// The path the version input denotes (`.` when none is given).
pub fn version_input_path(input: Option<&str>) -> (r: String)
    ensures
        r@ == match input {
            Some(s) => s@,
            None => "."@,
        },
{
    match input {
        Some(s) => owned(s),
        None => owned("."),
    }
}

/// Resolve the version string to work on: a literal when nothing exists at
/// the input path, else the version on the header line of the changelog
/// `changelog` read from there (see [`read_current_version`]).
pub fn resolve_version_input(input: Option<&str>, kind: InputKind, changelog: &str) -> (r: Result<
    String,
    ThermiteError,
>)
    ensures
        kind == InputKind::Missing ==> (r matches Ok(s) && s@ == match input {
            Some(x) => x@,
            None => "."@,
        }),
        kind != InputKind::Missing && changelog_version_s(changelog@).len() > 0 ==> (r matches Ok(
            s,
        ) && s@ == changelog_version_s(changelog@)),
        kind != InputKind::Missing && changelog_version_s(changelog@).len() == 0 ==> (r matches Err(
            ThermiteError::Io(m),
        ) && m@ == "could not parse version from debian/changelog first line: '"@
            + crate::steps::changelog::first_line_s(changelog@) + "'"@),
{
    match kind {
        InputKind::Missing => Ok(version_input_path(input)),
        _ => read_current_version(changelog),
    }
}

// ── version parse ───────────────────────────────────────────────────────────

pub open spec fn opt_num_s(o: Option<u32>) -> Seq<char> {
    match o {
        Some(n) => dec_s(n as nat),
        None => "(none)"@,
    }
}

/// The key-value lines that `version parse` prints.
pub open spec fn parsed_lines_s(v: VersionFields) -> Seq<Seq<char>> {
    seq![
        "Upstream version:  "@ + v.upstream.render(),
        "Repack number:     "@ + opt_num_s(v.repack_number),
        "Series:            "@ + match v.series {
            Some(s) => s,
            None => "(none)"@,
        },
        "Backport repack:   "@ + opt_num_s(v.backport_repack),
        "Stage0:            "@ + if v.stage0 {
            "yes"@
        } else {
            "no"@
        },
        "Ubuntu revision:   "@ + dec_s(v.ubuntu_revision as nat),
        "Backport revision: "@ + opt_num_s(v.backport_revision),
        "PPA:               "@ + opt_num_s(v.ppa),
    ]
}

fn label_num(label: &str, o: Option<u32>) -> (r: String)
    ensures
        r@ == label@ + opt_num_s(o),
{
    let mut s = str_chars(label);
    match o {
        Some(n) => push_dec(&mut s, n as u64),
        None => push_all(&mut s, &str_chars("(none)")),
    }
    chars_to_string(&s)
}

fn label_text(label: &str, t: &str) -> (r: String)
    ensures
        r@ == label@ + t@,
{
    let mut s = str_chars(label);
    push_all(&mut s, &str_chars(t));
    chars_to_string(&s)
}

fn label_chars(label: &str, t: &Vec<char>) -> (r: String)
    ensures
        r@ == label@ + t@,
{
    let mut s = str_chars(label);
    push_all(&mut s, t);
    chars_to_string(&s)
}

/// The lines that `version parse` prints for a version.
pub fn parsed_lines(v: &RustcPackageVersion) -> (r: Vec<String>)
    ensures
        string_views(r@) == parsed_lines_s(v@),
{
    let mut out: Vec<String> = Vec::new();
    out.push(label_chars("Upstream version:  ", &v.upstream.render_chars()));
    out.push(label_num("Repack number:     ", v.repack_number));
    out.push(
        match &v.series {
            Some(s) => label_text("Series:            ", s.as_str()),
            None => label_text("Series:            ", "(none)"),
        },
    );
    out.push(label_num("Backport repack:   ", v.backport_repack));
    out.push(label_text("Stage0:            ", if v.stage0 { "yes" } else { "no" }));
    out.push(label_num("Ubuntu revision:   ", Some(v.ubuntu_revision)));
    out.push(label_num("Backport revision: ", v.backport_revision));
    out.push(label_num("PPA:               ", v.ppa));
    assert(string_views(out@) =~= parsed_lines_s(v@));
    out
}

// ── version explain ─────────────────────────────────────────────────────────

pub open spec fn upstream_section_s(v: VersionFields) -> Seq<Seq<char>> {
    seq![
        "  Upstream version: "@ + v.upstream.render(),
        "    The upstream Rust toolchain version from the Rust Foundation."@,
        "    Only changes when upstream releases a patch (e.g. 1.85.0 -> 1.85.1)."@,
        seq![],
    ]
}

pub open spec fn repack_section_s(v: VersionFields) -> Seq<Seq<char>> {
    match v.repack_number {
        None => seq![
            "  Repack: +dfsg"@,
            "    The orig tarball has not been modified since the initial upload."@,
            "    '+dfsg' is always present because unneeded dependencies are pruned."@,
            seq![],
        ],
        Some(n) => seq![
            "  Repack: +dfsg"@ + dec_s(n as nat),
            "    The orig tarball has been repacked "@ + dec_s(n as nat)
                + " time(s) after the initial upload."@,
            "    Each repack resets the Ubuntu revision back to 1."@,
            seq![],
        ],
    }
}

pub open spec fn series_section_s(v: VersionFields) -> Seq<Seq<char>> {
    match v.series {
        None => seq![],
        Some(series) => seq![
            "  Backport series: ~"@ + series,
            "    This is a backport targeting Ubuntu "@ + series + "."@,
            "    The series number is added regardless of whether the orig tarball"@,
            "    was modified for the backport."@,
            seq![],
        ] + match v.backport_repack {
            None => seq![],
            Some(b) => seq![
                "  Backport repack: ."@ + dec_s(b as nat),
                "    The orig tarball was modified "@ + dec_s(b as nat)
                    + " additional time(s) for this"@,
                "    specific series after the initial backport upload."@,
                seq![],
            ],
        },
    }
}

pub open spec fn stage0_section_s(v: VersionFields) -> Seq<Seq<char>> {
    if v.stage0 {
        seq![
            "  Stage0 bootstrap: ~stage0"@,
            "    This is a stage0 bootstrap package used to start the bootstrapping"@,
            "    process. It should never be uploaded to the Archive (PPA only)."@,
            seq![],
        ]
    } else {
        seq![]
    }
}

pub open spec fn ubuntu_section_s(v: VersionFields) -> Seq<Seq<char>> {
    seq!["  Ubuntu revision: -0ubuntu"@ + dec_s(v.ubuntu_revision as nat)] + (if v.ubuntu_revision
        == 1 {
        seq!["    Initial upload for the given upstream source."@]
    } else {
        seq!["    The "@ + ordinal_s(v.ubuntu_revision) + " Ubuntu revision for this upstream source."@]
    }) + seq![
        "    The '0' before 'ubuntu' means this package is never synced from Debian."@,
        seq![],
    ]
}

pub open spec fn backport_revision_section_s(v: VersionFields) -> Seq<Seq<char>> {
    match v.backport_revision {
        None => seq![],
        Some(r) => seq![
            "  Backport revision: ~"@ + match v.series {
                Some(s) => s,
                None => "??"@,
            } + "."@ + dec_s(r as nat),
        ] + (if r == 1 {
            seq!["    Initial upload of this backport."@]
        } else {
            seq![
                "    The "@ + ordinal_s(r) + " revision of this backport (changes that don't affect the"@,
                "    orig tarball)."@,
            ]
        }) + seq![seq![]],
    }
}

pub open spec fn ppa_section_s(v: VersionFields) -> Seq<Seq<char>> {
    match v.ppa {
        None => seq![],
        Some(p) => seq![
            "  PPA: ~ppa"@ + dec_s(p as nat),
            "    This is the "@ + ordinal_s(p) + " push to a Personal Package Archive for testing."@,
            "    PPA suffixes are temporary and should not be committed to version"@,
            "    control or uploaded to the main Archive."@,
            seq![],
        ],
    }
}

/// The lines that `version explain` prints: the version as given, then one
/// section per component present.
pub open spec fn explanation_lines_s(v: VersionFields, original: Seq<char>) -> Seq<Seq<char>> {
    seq![seq![], "  "@ + original, seq![]] + upstream_section_s(v) + repack_section_s(v)
        + series_section_s(v) + stage0_section_s(v) + ubuntu_section_s(v)
        + backport_revision_section_s(v) + ppa_section_s(v)
}

fn push_text(out: &mut Vec<String>, t: &str)
    ensures
        string_views(final(out)@) == string_views(old(out)@).push(t@),
{
    let s = owned(t);
    out.push(s);
    assert(string_views(out@) =~= string_views(old(out)@).push(t@));
}

fn push_chars(out: &mut Vec<String>, t: Vec<char>)
    ensures
        string_views(final(out)@) == string_views(old(out)@).push(t@),
{
    let s = chars_to_string(&t);
    out.push(s);
    assert(string_views(out@) =~= string_views(old(out)@).push(t@));
}

fn cat3(a: &str, n: u32, b: &str) -> (r: Vec<char>)
    ensures
        r@ == a@ + dec_s(n as nat) + b@,
{
    let mut v = str_chars(a);
    push_dec(&mut v, n as u64);
    push_all(&mut v, &str_chars(b));
    v
}

fn cat_ord(a: &str, n: u32, b: &str) -> (r: Vec<char>)
    ensures
        r@ == a@ + ordinal_s(n) + b@,
{
    let mut v = str_chars(a);
    push_all(&mut v, &str_chars(ordinal(n).as_str()));
    push_all(&mut v, &str_chars(b));
    v
}

fn push_upstream_section(out: &mut Vec<String>, v: &RustcPackageVersion)
    ensures
        string_views(final(out)@) == string_views(old(out)@) + upstream_section_s(v@),
{
    let mut l = str_chars("  Upstream version: ");
    push_all(&mut l, &v.upstream.render_chars());
    push_chars(out, l);
    push_text(out, "    The upstream Rust toolchain version from the Rust Foundation.");
    push_text(out, "    Only changes when upstream releases a patch (e.g. 1.85.0 -> 1.85.1).");
    push_text(out, "");
    proof {
        reveal_strlit("");
    }
    assert(string_views(out@) =~~= string_views(old(out)@) + upstream_section_s(v@));
}

fn push_repack_section(out: &mut Vec<String>, v: &RustcPackageVersion)
    ensures
        string_views(final(out)@) == string_views(old(out)@) + repack_section_s(v@),
{
    match v.repack_number {
        None => {
            push_text(out, "  Repack: +dfsg");
            push_text(out, "    The orig tarball has not been modified since the initial upload.");
            push_text(out, "    '+dfsg' is always present because unneeded dependencies are pruned.");
        },
        Some(n) => {
            push_chars(out, cat3("  Repack: +dfsg", n, ""));
            push_chars(
                out,
                cat3("    The orig tarball has been repacked ", n, " time(s) after the initial upload."),
            );
            push_text(out, "    Each repack resets the Ubuntu revision back to 1.");
        },
    }
    push_text(out, "");
    proof {
        reveal_strlit("");
    }
    assert(string_views(out@) =~~= string_views(old(out)@) + repack_section_s(v@));
}

fn push_series_section(out: &mut Vec<String>, v: &RustcPackageVersion)
    ensures
        string_views(final(out)@) == string_views(old(out)@) + series_section_s(v@),
{
    proof {
        reveal_strlit("");
    }
    match &v.series {
        None => {
            assert(string_views(out@) =~~= string_views(old(out)@) + series_section_s(v@));
        },
        Some(series) => {
            let sc = str_chars(series.as_str());
            let mut a = str_chars("  Backport series: ~");
            push_all(&mut a, &sc);
            push_chars(out, a);
            let mut b = str_chars("    This is a backport targeting Ubuntu ");
            push_all(&mut b, &sc);
            push_all(&mut b, &str_chars("."));
            push_chars(out, b);
            push_text(out, "    The series number is added regardless of whether the orig tarball");
            push_text(out, "    was modified for the backport.");
            push_text(out, "");
            let ghost mid = string_views(out@);
            match v.backport_repack {
                None => {},
                Some(bp) => {
                    push_chars(out, cat3("  Backport repack: .", bp, ""));
                    push_chars(
                        out,
                        cat3("    The orig tarball was modified ", bp, " additional time(s) for this"),
                    );
                    push_text(out, "    specific series after the initial backport upload.");
                    push_text(out, "");
                },
            }
            assert(string_views(out@) =~~= string_views(old(out)@) + series_section_s(v@));
        },
    }
}

fn push_stage0_section(out: &mut Vec<String>, v: &RustcPackageVersion)
    ensures
        string_views(final(out)@) == string_views(old(out)@) + stage0_section_s(v@),
{
    proof {
        reveal_strlit("");
    }
    if v.stage0 {
        push_text(out, "  Stage0 bootstrap: ~stage0");
        push_text(out, "    This is a stage0 bootstrap package used to start the bootstrapping");
        push_text(out, "    process. It should never be uploaded to the Archive (PPA only).");
        push_text(out, "");
    }
    assert(string_views(out@) =~~= string_views(old(out)@) + stage0_section_s(v@));
}

fn push_ubuntu_section(out: &mut Vec<String>, v: &RustcPackageVersion)
    ensures
        string_views(final(out)@) == string_views(old(out)@) + ubuntu_section_s(v@),
{
    proof {
        reveal_strlit("");
    }
    push_chars(out, cat3("  Ubuntu revision: -0ubuntu", v.ubuntu_revision, ""));
    if v.ubuntu_revision == 1 {
        push_text(out, "    Initial upload for the given upstream source.");
    } else {
        push_chars(
            out,
            cat_ord("    The ", v.ubuntu_revision, " Ubuntu revision for this upstream source."),
        );
    }
    push_text(out, "    The '0' before 'ubuntu' means this package is never synced from Debian.");
    push_text(out, "");
    assert(string_views(out@) =~~= string_views(old(out)@) + ubuntu_section_s(v@));
}

fn push_backport_revision_section(out: &mut Vec<String>, v: &RustcPackageVersion)
    ensures
        string_views(final(out)@) == string_views(old(out)@) + backport_revision_section_s(v@),
{
    proof {
        reveal_strlit("");
    }
    match v.backport_revision {
        None => {},
        Some(r) => {
            let mut a = str_chars("  Backport revision: ~");
            match &v.series {
                Some(s) => push_all(&mut a, &str_chars(s.as_str())),
                None => push_all(&mut a, &str_chars("??")),
            }
            push_all(&mut a, &str_chars("."));
            push_dec(&mut a, r as u64);
            push_chars(out, a);
            if r == 1 {
                push_text(out, "    Initial upload of this backport.");
            } else {
                push_chars(
                    out,
                    cat_ord(
                        "    The ",
                        r,
                        " revision of this backport (changes that don't affect the",
                    ),
                );
                push_text(out, "    orig tarball).");
            }
            push_text(out, "");
        },
    }
    assert(string_views(out@) =~~= string_views(old(out)@) + backport_revision_section_s(v@));
}

fn push_ppa_section(out: &mut Vec<String>, v: &RustcPackageVersion)
    ensures
        string_views(final(out)@) == string_views(old(out)@) + ppa_section_s(v@),
{
    proof {
        reveal_strlit("");
    }
    match v.ppa {
        None => {},
        Some(p) => {
            push_chars(out, cat3("  PPA: ~ppa", p, ""));
            push_chars(
                out,
                cat_ord("    This is the ", p, " push to a Personal Package Archive for testing."),
            );
            push_text(out, "    PPA suffixes are temporary and should not be committed to version");
            push_text(out, "    control or uploaded to the main Archive.");
            push_text(out, "");
        },
    }
    assert(string_views(out@) =~~= string_views(old(out)@) + ppa_section_s(v@));
}

/// The lines that `version explain` prints for `v`, given as `original`.
pub fn explanation_lines(v: &RustcPackageVersion, original: &str) -> (r: Vec<String>)
    ensures
        string_views(r@) == explanation_lines_s(v@, original@),
{
    proof {
        reveal_strlit("");
    }
    let mut out: Vec<String> = Vec::new();
    push_text(&mut out, "");
    let mut o = str_chars("  ");
    push_all(&mut o, &str_chars(original));
    push_chars(&mut out, o);
    push_text(&mut out, "");
    push_upstream_section(&mut out, v);
    push_repack_section(&mut out, v);
    push_series_section(&mut out, v);
    push_stage0_section(&mut out, v);
    push_ubuntu_section(&mut out, v);
    push_backport_revision_section(&mut out, v);
    push_ppa_section(&mut out, v);
    assert(string_views(out@) =~~= explanation_lines_s(v@, original@));
    out
}

/// Run the `version explain` subcommand on a version string: the lines to
/// print, or the parse error.
pub fn run_explain(version_str: &str) -> (r: Result<Vec<String>, ThermiteError>)
    ensures
        parse_package_version_s(version_str@) matches Some(f) ==> (r matches Ok(ls) && string_views(
            ls@,
        ) == explanation_lines_s(f, version_str@)),
        parse_package_version_s(version_str@) is None ==> (r matches Err(
            ThermiteError::InvalidRustVersion(m),
        ) && m@ == crate::types::package_version::parse_error_s(version_str@)),
{
    match RustcPackageVersion::parse(version_str) {
        Ok(v) => Ok(explanation_lines(&v, version_str)),
        Err(e) => Err(e),
    }
}

// ── version format ──────────────────────────────────────────────────────────

/// The version that `version format` builds once its options are valid:
/// a backport (with a series) defaults its revision to 1.
pub open spec fn format_fields_s(
    upstream: RustVersion,
    repack_number: Option<u32>,
    series: Option<Seq<char>>,
    backport_repack: Option<u32>,
    stage0: bool,
    ubuntu_revision: u32,
    backport_revision: Option<u32>,
    ppa: Option<u32>,
) -> VersionFields {
    VersionFields {
        upstream,
        repack_number,
        series,
        backport_repack,
        stage0,
        ubuntu_revision,
        backport_revision: if series is Some {
            Some(
                match backport_revision {
                    Some(r) => r,
                    None => 1,
                },
            )
        } else {
            None
        },
        ppa,
    }
}

/// Run the `version format` subcommand: the version text built from its
/// components.  The upstream version must parse, `--series` and
/// `--release` are exclusive (a release must be known), and without a
/// series neither a backport repack, nor stage0, nor a backport revision may
/// be given.
pub fn run_format(
    upstream: &str,
    repack_number: Option<u32>,
    series: Option<&str>,
    release: Option<&str>,
    backport_repack: Option<u32>,
    stage0: bool,
    ubuntu_revision: u32,
    backport_revision: Option<u32>,
    ppa: Option<u32>,
) -> (r: Result<String, ThermiteError>)
    ensures
        parse_rust_version_s(upstream@) is None ==> (r matches Err(
            ThermiteError::InvalidRustVersion(m),
        ) && m@ == upstream@),
        parse_rust_version_s(upstream@) is Some ==> match resolve_series_s(
            opt_str(series),
            opt_str(release),
        ) {
            Err(err) => r matches Err(e) && series_error_matches(e, err),
            Ok(None) if backport_repack is Some => r matches Err(
                ThermiteError::InvalidRustVersion(m),
            ) && m@ == "--backport-repack requires --series or --release"@,
            Ok(None) if stage0 => r matches Err(ThermiteError::InvalidRustVersion(m)) && m@
                == "--stage0 requires --series or --release"@,
            Ok(None) if backport_revision is Some => r matches Err(
                ThermiteError::InvalidRustVersion(m),
            ) && m@ == "--backport-revision requires --series or --release"@,
            Ok(sr) => r matches Ok(s) && s@ == render_version(
                format_fields_s(
                    parse_rust_version_s(upstream@)->0,
                    repack_number,
                    sr,
                    backport_repack,
                    stage0,
                    ubuntu_revision,
                    backport_revision,
                    ppa,
                ),
            ),
        },
{
    let upstream_ver = RustVersion::parse(upstream)?;
    let resolved = resolve_series(series, release)?;
    if resolved.is_none() {
        if backport_repack.is_some() {
            return Err(
                ThermiteError::InvalidRustVersion(
                    owned("--backport-repack requires --series or --release"),
                ),
            );
        }
        if stage0 {
            return Err(
                ThermiteError::InvalidRustVersion(owned("--stage0 requires --series or --release")),
            );
        }
        if backport_revision.is_some() {
            return Err(
                ThermiteError::InvalidRustVersion(
                    owned("--backport-revision requires --series or --release"),
                ),
            );
        }
    }
    let bp_rev = if resolved.is_some() {
        Some(
            match backport_revision {
                Some(r) => r,
                None => 1,
            },
        )
    } else {
        None
    };
    let mut v = RustcPackageVersion::new(
        upstream_ver,
        repack_number,
        resolved,
        backport_repack,
        stage0,
        ubuntu_revision,
        bp_rev,
    );
    v.set_ppa(ppa);
    Ok(v.to_version_string())
}

// ── version bump ────────────────────────────────────────────────────────────

/// The bump operation to perform.
#[derive(Debug, Clone)]
pub enum BumpOperation {
    /// New upstream patch release — resets all fields.
    PatchRelease { upstream: String },
    /// Increment the Ubuntu revision.
    UbuntuRevision,
    /// Increment the repack number (resets Ubuntu revision).
    Repack,
    /// Generate a backport version (sets series, backport_revision=1).
    Backport { series: Option<String>, release: Option<String> },
    /// Increment the backport revision.
    BackportRevision,
    /// Increment the backport repack (resets backport revision).
    BackportRepack,
    /// Retarget a backport to a different series.
    Retarget { series: Option<String>, release: Option<String> },
    /// Increment the PPA number (for PPA upload iteration).
    Ppa,
    /// Remove the PPA suffix (for final archive upload).
    ClearPpa,
}

/// The counter that the operation increments is below its maximum.
pub open spec fn bump_in_range_s(v: VersionFields, op: BumpOperation) -> bool {
    match op {
        BumpOperation::UbuntuRevision => v.ubuntu_revision < u32::MAX,
        BumpOperation::Repack => v.repack_number matches Some(n) ==> n < u32::MAX,
        BumpOperation::BackportRevision => v.backport_revision matches Some(n) ==> n < u32::MAX,
        BumpOperation::BackportRepack => v.backport_repack matches Some(n) ==> n < u32::MAX,
        BumpOperation::Ppa => v.ppa matches Some(n) ==> n < u32::MAX,
        _ => true,
    }
}

/// Whether the counter that `op` increments is below its maximum.
pub fn bump_in_range(v: &RustcPackageVersion, op: &BumpOperation) -> (r: bool)
    ensures
        r == bump_in_range_s(v@, *op),
{
    match op {
        BumpOperation::UbuntuRevision => v.ubuntu_revision < u32::MAX,
        BumpOperation::Repack => match v.repack_number {
            Some(n) => n < u32::MAX,
            None => true,
        },
        BumpOperation::BackportRevision => match v.backport_revision {
            Some(n) => n < u32::MAX,
            None => true,
        },
        BumpOperation::BackportRepack => match v.backport_repack {
            Some(n) => n < u32::MAX,
            None => true,
        },
        BumpOperation::Ppa => match v.ppa {
            Some(n) => n < u32::MAX,
            None => true,
        },
        _ => true,
    }
}

pub open spec fn opt_string(o: Option<String>) -> Option<Seq<char>> {
    match o {
        Some(s) => Some(s@),
        None => None,
    }
}

/// The version after the operation, for the operations that cannot fail.
pub open spec fn bump_fields_s(v: VersionFields, op: BumpOperation) -> VersionFields {
    match op {
        BumpOperation::UbuntuRevision => VersionFields {
            ubuntu_revision: (v.ubuntu_revision + 1) as u32,
            ..v
        },
        BumpOperation::Repack => VersionFields {
            repack_number: Some(
                match v.repack_number {
                    Some(n) => (n + 1) as u32,
                    None => 1,
                },
            ),
            ubuntu_revision: 1,
            ..v
        },
        BumpOperation::BackportRevision => VersionFields {
            backport_revision: Some(
                match v.backport_revision {
                    Some(n) => (n + 1) as u32,
                    None => 2,
                },
            ),
            ..v
        },
        BumpOperation::BackportRepack => VersionFields {
            backport_repack: Some(
                match v.backport_repack {
                    Some(n) => (n + 1) as u32,
                    None => 1,
                },
            ),
            backport_revision: Some(1),
            ..v
        },
        BumpOperation::Ppa => VersionFields {
            ppa: Some(
                match v.ppa {
                    Some(n) => (n + 1) as u32,
                    None => 1,
                },
            ),
            ..v
        },
        BumpOperation::ClearPpa => VersionFields { ppa: None, ..v },
        _ => v,
    }
}

/// A backport of `v` to `series` (also what retargeting gives).
pub open spec fn backport_fields_s(v: VersionFields, series: Seq<char>) -> VersionFields {
    VersionFields {
        series: Some(series),
        backport_repack: None,
        backport_revision: Some(1),
        stage0: false,
        ppa: None,
        ..v
    }
}

/// The outcome of a bump on a parsed version: the new version, or the
/// failure of the operation's own input.
pub open spec fn run_bump_matches(v: VersionFields, op: BumpOperation, r: Result<
    RustcPackageVersion,
    ThermiteError,
>) -> bool {
    match op {
        BumpOperation::PatchRelease { upstream } => match parse_rust_version_s(upstream@) {
            Some(u) => r matches Ok(w) && w@ == (VersionFields {
                upstream: u,
                repack_number: None,
                series: None,
                backport_repack: None,
                stage0: false,
                ubuntu_revision: 1,
                backport_revision: None,
                ppa: None,
            }),
            None => r matches Err(ThermiteError::InvalidRustVersion(m)) && m@ == upstream@,
        },
        BumpOperation::Backport { series, release } => match resolve_series_s(
            opt_string(series),
            opt_string(release),
        ) {
            Ok(Some(s)) => r matches Ok(w) && w@ == backport_fields_s(v, s),
            Ok(None) => r matches Err(ThermiteError::InvalidRustVersion(m)) && m@
                == "backport operation requires --series or --release"@,
            Err(err) => r matches Err(e) && series_error_matches(e, err),
        },
        BumpOperation::Retarget { series, release } => match resolve_series_s(
            opt_string(series),
            opt_string(release),
        ) {
            Ok(Some(s)) => r matches Ok(w) && w@ == backport_fields_s(v, s),
            Ok(None) => r matches Err(ThermiteError::InvalidRustVersion(m)) && m@
                == "retarget operation requires --series or --release"@,
            Err(err) => r matches Err(e) && series_error_matches(e, err),
        },
        _ => r matches Ok(w) && w@ == bump_fields_s(v, op),
    }
}

fn opt_as_str(o: &Option<String>) -> (r: Option<&str>)
    ensures
        opt_str(r) == opt_string(*o),
{
    match o {
        Some(s) => Some(s.as_str()),
        None => None,
    }
}

/// Apply a bump operation to a parsed version.
pub fn apply_bump(mut v: RustcPackageVersion, operation: &BumpOperation) -> (r: Result<
    RustcPackageVersion,
    ThermiteError,
>)
    requires
        bump_in_range_s(v@, *operation),
    ensures
        run_bump_matches(v@, *operation, r),
{
    match operation {
        BumpOperation::PatchRelease { upstream } => {
            let new_upstream = RustVersion::parse(upstream.as_str())?;
            v.bump_patch_release(new_upstream);
        },
        BumpOperation::UbuntuRevision => {
            v.bump_ubuntu_revision();
        },
        BumpOperation::Repack => {
            v.bump_repack();
        },
        BumpOperation::Backport { series, release } => {
            match resolve_series(opt_as_str(series), opt_as_str(release))? {
                Some(s) => v.to_backport(s.as_str()),
                None => {
                    return Err(
                        ThermiteError::InvalidRustVersion(
                            owned("backport operation requires --series or --release"),
                        ),
                    );
                },
            }
        },
        BumpOperation::BackportRevision => {
            v.bump_backport_revision();
        },
        BumpOperation::BackportRepack => {
            v.bump_backport_repack();
        },
        BumpOperation::Retarget { series, release } => {
            match resolve_series(opt_as_str(series), opt_as_str(release))? {
                Some(s) => v.retarget_series(s.as_str()),
                None => {
                    return Err(
                        ThermiteError::InvalidRustVersion(
                            owned("retarget operation requires --series or --release"),
                        ),
                    );
                },
            }
        },
        BumpOperation::Ppa => {
            v.bump_ppa();
        },
        BumpOperation::ClearPpa => {
            v.clear_ppa();
        },
    }
    Ok(v)
}

/// Run the `version bump` subcommand on a version string: the bumped
/// version, the parse error, or the failure of the operation's input.
pub fn run_bump(version_str: &str, operation: &BumpOperation) -> (r: Result<
    RustcPackageVersion,
    ThermiteError,
>)
    requires
        parse_package_version_s(version_str@) matches Some(f) ==> bump_in_range_s(f, *operation),
    ensures
        parse_package_version_s(version_str@) matches Some(f) ==> run_bump_matches(f, *operation, r),
        parse_package_version_s(version_str@) is None ==> (r matches Err(
            ThermiteError::InvalidRustVersion(m),
        ) && m@ == crate::types::package_version::parse_error_s(version_str@)),
{
    match RustcPackageVersion::parse(version_str) {
        Ok(v) => apply_bump(v, operation),
        Err(e) => Err(e),
    }
}

/// The next value of a counter: one more than its current value, or
/// `start` when it has none yet.
pub open spec fn next_count(o: Option<u32>, start: int) -> int {
    match o {
        Some(n) => n + 1,
        None => start,
    }
}

/// What each bump does to a version `v` (the outcome `r` of
/// [`apply_bump`], and of [`run_bump`] on the text of `v`):
///
/// - `UbuntuRevision` adds one to the Ubuntu revision.
/// - `Repack` adds one to the repack number (1 after a bare `+dfsg`) and
///   resets the Ubuntu revision to 1, whatever it was.
/// - `BackportRevision` adds one to the backport revision (2 when there
///   was none, the first being 1).
/// - `BackportRepack` adds one to the backport repack (1 when there was
///   none) and resets the backport revision to 1.
/// - `Ppa` adds one to the PPA number (1 when there was none); `ClearPpa`
///   removes it.
/// - `PatchRelease` to a new upstream version starts over: bare `+dfsg`,
///   no series, Ubuntu revision 1, no backport parts, no PPA number.
/// - A backport or retarget to series `s` sets the series to `s` and the
///   backport revision to 1, and drops the backport repack, the stage0
///   marker and the PPA number.
///
/// Each other operation keeps every field it does not name.
pub proof fn lemma_bump_effects(v: VersionFields, op: BumpOperation, r: Result<
    RustcPackageVersion,
    ThermiteError,
>)
    requires
        bump_in_range_s(v, op),
        run_bump_matches(v, op, r),
    ensures
        op is UbuntuRevision ==> (r is Ok && {
            let w = r->Ok_0@;
            &&& w.ubuntu_revision == v.ubuntu_revision + 1
            &&& w == (VersionFields { ubuntu_revision: w.ubuntu_revision, ..v })
        }),
        op is Repack ==> (r is Ok && {
            let w = r->Ok_0@;
            &&& w.repack_number is Some
            &&& w.repack_number->0 == next_count(v.repack_number, 1)
            &&& w.ubuntu_revision == 1
            &&& w == (VersionFields { repack_number: w.repack_number, ubuntu_revision: 1, ..v })
        }),
        op is BackportRevision ==> (r is Ok && {
            let w = r->Ok_0@;
            &&& w.backport_revision is Some
            &&& w.backport_revision->0 == next_count(v.backport_revision, 2)
            &&& w == (VersionFields { backport_revision: w.backport_revision, ..v })
        }),
        op is BackportRepack ==> (r is Ok && {
            let w = r->Ok_0@;
            &&& w.backport_repack is Some
            &&& w.backport_repack->0 == next_count(v.backport_repack, 1)
            &&& w.backport_revision == Some(1u32)
            &&& w == (VersionFields {
                backport_repack: w.backport_repack,
                backport_revision: Some(1u32),
                ..v
            })
        }),
        op is Ppa ==> (r is Ok && {
            let w = r->Ok_0@;
            &&& w.ppa is Some
            &&& w.ppa->0 == next_count(v.ppa, 1)
            &&& w == (VersionFields { ppa: w.ppa, ..v })
        }),
        op is ClearPpa ==> (r is Ok && r->Ok_0@ == (VersionFields { ppa: None, ..v })),
        (op is PatchRelease && parse_rust_version_s(op->PatchRelease_upstream@) is Some) ==> (r is Ok
            && r->Ok_0@ == (VersionFields {
            upstream: parse_rust_version_s(op->PatchRelease_upstream@)->0,
            repack_number: None,
            series: None,
            backport_repack: None,
            stage0: false,
            ubuntu_revision: 1,
            backport_revision: None,
            ppa: None,
        })),
        ({
            let sel = match op {
                BumpOperation::Backport { series, release } => resolve_series_s(
                    opt_string(series),
                    opt_string(release),
                ),
                BumpOperation::Retarget { series, release } => resolve_series_s(
                    opt_string(series),
                    opt_string(release),
                ),
                _ => Err(None),
            };
            sel is Ok && sel->Ok_0 is Some ==> (r is Ok && r->Ok_0@ == (VersionFields {
                series: sel->Ok_0,
                backport_repack: None,
                backport_revision: Some(1u32),
                stage0: false,
                ppa: None,
                ..v
            }))
        }),
{
}

/// What `version format` builds from its components once they are valid
/// (`sr` is the series that `--series` or `--release` resolved to): every
/// given component stands as given; a backport's revision is the given
/// `--backport-revision`, 1 only when none is given, and a non-backport
/// has none. When the series is `XX.YY` (or there is none, and so no
/// backport repack), the text reads back as exactly these components.
pub proof fn lemma_format_components(
    upstream: RustVersion,
    repack_number: Option<u32>,
    sr: Option<Seq<char>>,
    backport_repack: Option<u32>,
    stage0: bool,
    ubuntu_revision: u32,
    backport_revision: Option<u32>,
    ppa: Option<u32>,
)
    ensures
        ({
            let f = format_fields_s(
                upstream,
                repack_number,
                sr,
                backport_repack,
                stage0,
                ubuntu_revision,
                backport_revision,
                ppa,
            );
            &&& f.upstream == upstream
            &&& f.repack_number == repack_number
            &&& f.series == sr
            &&& f.backport_repack == backport_repack
            &&& f.stage0 == stage0
            &&& f.ubuntu_revision == ubuntu_revision
            &&& f.ppa == ppa
            &&& (sr is Some && backport_revision is Some ==> f.backport_revision == backport_revision)
            &&& (sr is Some && backport_revision is None ==> f.backport_revision == Some(1u32))
            &&& (sr is None ==> f.backport_revision is None)
            &&& ((match sr {
                Some(s) => crate::types::package_version::series_shape(s),
                None => backport_repack is None,
            }) ==> parse_package_version_s(render_version(f)) == Some(f))
        }),
{
    let f = format_fields_s(
        upstream,
        repack_number,
        sr,
        backport_repack,
        stage0,
        ubuntu_revision,
        backport_revision,
        ppa,
    );
    if (match sr {
        Some(s) => crate::types::package_version::series_shape(s),
        None => backport_repack is None,
    }) {
        assert(well_formed_version(f));
        lemma_version_roundtrip(f);
    }
}

} // verus!
