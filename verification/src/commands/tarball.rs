//! The decisions of the `thermite tarball` command: which tarballs are in
//! scope, what to do with one that already exists, and the messages about
//! tarballs that are missing.
use vstd::prelude::*;

use crate::error::ThermiteError;
use crate::steps::tarball_fetch::{expected_tarball_name, expected_tarball_name_s, TarballKind};
use crate::text::{chars_to_string, owned, push_all, str_chars, string_views};
use crate::types::params::{dfsg_suffix_s, TarballAction, TarballParams};

verus! {

/// Which tarball(s) the invocation targets.
#[derive(Debug, Clone, Copy, PartialEq, Eq, Structural)]
pub enum TarballTarget {
    /// `.orig.tar.xz` only.
    Orig,
    /// `.orig-vendor.tar.xz` only.
    Vendor,
    /// Both, orig first.
    All,
}

impl TarballTarget {
    /// Whether the vendor tarball is in scope for this invocation.
    pub fn wants_vendor(self) -> (r: bool)
        ensures
            r == (self == TarballTarget::Vendor || self == TarballTarget::All),
    {
        match self {
            TarballTarget::Vendor | TarballTarget::All => true,
            TarballTarget::Orig => false,
        }
    }

    /// Whether the orig tarball is in scope for this invocation.
    pub fn wants_orig(self) -> (r: bool)
        ensures
            r == (self == TarballTarget::Orig || self == TarballTarget::All),
    {
        match self {
            TarballTarget::Orig | TarballTarget::All => true,
            TarballTarget::Vendor => false,
        }
    }
}

pub open spec fn series_view(p: TarballParams) -> Option<Seq<char>> {
    match p.series {
        Some(rel) => Some(rel@),
        None => None,
    }
}

/// The file name of the `kind` tarball for `params`.
pub fn expected_tarball_file(params: &TarballParams, kind: TarballKind) -> (r: String)
    ensures
        r@ == expected_tarball_name_s(
            params.rust_version.short_s(),
            params.rust_version,
            dfsg_suffix_s(series_view(*params)),
            kind,
        ),
{
    let suffix = params.dfsg_suffix();
    expected_tarball_name(&params.rust_version.short(), &params.rust_version, suffix.as_str(), kind)
}

/// What `generate` does about the tarball: `Ok(false)` to go ahead,
/// `Ok(true)` to remove the existing file first (with `--force`), or the
/// refusal naming the existing file at `path`.
pub fn handle_existing_for_generate(path: &str, exists: bool, force: bool) -> (r: Result<
    bool,
    ThermiteError,
>)
    ensures
        !exists ==> r == Ok::<bool, ThermiteError>(false),
        exists && force ==> r == Ok::<bool, ThermiteError>(true),
        exists && !force ==> (r matches Err(
            ThermiteError::CommandFailed { cmd, code, stdout, stderr },
        ) && cmd@ == "tarball generate"@ && code == 0 && stdout@.len() == 0 && stderr@
            == "tarball already exists: "@ + path@
            + "\nRe-run with --force to overwrite it, or use 'thermite tarball download' to fetch it only when missing."@),
{
    if !exists {
        return Ok(false);
    }
    if force {
        return Ok(true);
    }
    let mut m = str_chars("tarball already exists: ");
    push_all(&mut m, &str_chars(path));
    push_all(
        &mut m,
        &str_chars(
            "\nRe-run with --force to overwrite it, or use 'thermite tarball download' to fetch it only when missing.",
        ),
    );
    Err(
        ThermiteError::CommandFailed {
            cmd: owned("tarball generate"),
            code: 0,
            stdout: String::new(),
            stderr: chars_to_string(&m),
        },
    )
}

/// Locate an already-obtained tarball at `path` for `overlay`, which never
/// fetches or produces one: a missing file is an error pointing at
/// `download` and `generate`.
pub fn locate_expected_tarball(path: &str, exists: bool) -> (r: Result<String, ThermiteError>)
    ensures
        exists ==> (r matches Ok(p) && p@ == path@),
        !exists ==> (r matches Err(ThermiteError::CommandFailed { cmd, code, stdout, stderr })
            && cmd@ == "tarball overlay"@ && code == 0 && stdout@.len() == 0 && stderr@
            == "tarball not found: "@ + path@
            + "\nObtain it first with 'thermite tarball download' or 'thermite tarball generate'."@),
{
    if exists {
        return Ok(owned(path));
    }
    let mut m = str_chars("tarball not found: ");
    push_all(&mut m, &str_chars(path));
    push_all(
        &mut m,
        &str_chars(
            "\nObtain it first with 'thermite tarball download' or 'thermite tarball generate'.",
        ),
    );
    Err(
        ThermiteError::CommandFailed {
            cmd: owned("tarball overlay"),
            code: 0,
            stdout: String::new(),
            stderr: chars_to_string(&m),
        },
    )
}

/// The error when the user aborts at the manual-placement prompt.
pub fn download_aborted_error(vendor: bool) -> (r: ThermiteError)
    ensures
        r matches ThermiteError::CommandFailed { cmd, code, stdout, stderr } && code == 0
            && stdout@.len() == 0 && stderr@ == "aborted at manual-placement prompt"@ && cmd@ == (
        if vendor {
            "download vendor tarball"@
        } else {
            "download orig tarball"@
        }),
{
    ThermiteError::CommandFailed {
        cmd: owned(if vendor { "download vendor tarball" } else { "download orig tarball" }),
        code: 0,
        stdout: String::new(),
        stderr: owned("aborted at manual-placement prompt"),
    }
}

/// The error when the tarball is still missing after the download step.
pub fn download_missing_error(vendor: bool, path: &str) -> (r: ThermiteError)
    ensures
        r matches ThermiteError::CommandFailed { cmd, code, stdout, stderr } && code == 0
            && stdout@.len() == 0 && cmd@ == (if vendor {
            "download vendor tarball"@
        } else {
            "download orig tarball"@
        }) && stderr@ == (if vendor {
            "vendor tarball not found: "@
        } else {
            "tarball not found: "@
        }) + path@ + "\nPlace the tarball at that exact path, then re-run."@,
{
    let mut m = str_chars(if vendor { "vendor tarball not found: " } else { "tarball not found: " });
    push_all(&mut m, &str_chars(path));
    push_all(&mut m, &str_chars("\nPlace the tarball at that exact path, then re-run."));
    ThermiteError::CommandFailed {
        cmd: owned(if vendor { "download vendor tarball" } else { "download orig tarball" }),
        code: 0,
        stdout: String::new(),
        stderr: chars_to_string(&m),
    }
}

/// How `overlay` treats an existing `vendor/` directory.
pub fn overlay_mode(replace: bool) -> (r: &'static str)
    ensures
        r@ == if replace {
            "clean replace"@
        } else {
            "merge"@
        },
{
    if replace {
        "clean replace"
    } else {
        "merge"
    }
}

/// The lines of the "Tarball parameters" box.
pub fn parameter_lines(params: &TarballParams, repo_dir: &str, parent_dir: &str) -> (r: Vec<String>)
    ensures
        string_views(r@) == seq![
            "  Rust version : "@ + params.rust_version.render(),
            "  Series       : "@ + match params.series {
                Some(rel) => rel@,
                None => "(none — plain +dfsg naming)"@,
            },
            "  Repo dir     : "@ + repo_dir@,
            "  Parent dir   : "@ + parent_dir@,
        ] + (if params.action == TarballAction::Generate {
            seq!["  Force        : "@ + if params.force {
                "true"@
            } else {
                "false"@
            }]
        } else {
            seq![]
        }) + (if params.action == TarballAction::Overlay {
            seq!["  Overlay mode : "@ + if params.overlay_replace {
                "clean replace"@
            } else {
                "merge"@
            }]
        } else {
            seq![]
        }),
{
    let mut out: Vec<String> = Vec::new();
    let mut a = str_chars("  Rust version : ");
    push_all(&mut a, &params.rust_version.render_chars());
    out.push(chars_to_string(&a));
    let mut b = str_chars("  Series       : ");
    match &params.series {
        Some(rel) => push_all(&mut b, &str_chars(rel.as_str())),
        None => push_all(&mut b, &str_chars("(none — plain +dfsg naming)")),
    }
    out.push(chars_to_string(&b));
    let mut c = str_chars("  Repo dir     : ");
    push_all(&mut c, &str_chars(repo_dir));
    out.push(chars_to_string(&c));
    let mut d = str_chars("  Parent dir   : ");
    push_all(&mut d, &str_chars(parent_dir));
    out.push(chars_to_string(&d));
    let ghost base = string_views(out@);
    if params.action == TarballAction::Generate {
        let mut e = str_chars("  Force        : ");
        push_all(&mut e, &str_chars(if params.force { "true" } else { "false" }));
        out.push(chars_to_string(&e));
    }
    let ghost mid = string_views(out@);
    if params.action == TarballAction::Overlay {
        let mut f = str_chars("  Overlay mode : ");
        push_all(&mut f, &str_chars(overlay_mode(params.overlay_replace)));
        out.push(chars_to_string(&f));
    }
    assert(string_views(out@) =~= seq![
        "  Rust version : "@ + params.rust_version.render(),
        "  Series       : "@ + match params.series {
            Some(rel) => rel@,
            None => "(none — plain +dfsg naming)"@,
        },
        "  Repo dir     : "@ + repo_dir@,
        "  Parent dir   : "@ + parent_dir@,
    ] + (if params.action == TarballAction::Generate {
        seq!["  Force        : "@ + if params.force {
            "true"@
        } else {
            "false"@
        }]
    } else {
        seq![]
    }) + (if params.action == TarballAction::Overlay {
        seq!["  Overlay mode : "@ + if params.overlay_replace {
            "clean replace"@
        } else {
            "merge"@
        }]
    } else {
        seq![]
    }));
    out
}

/// The parameters of `tarball download`.
pub fn tarball_download_params(rust_version: &str, series: Option<&str>) -> (r: Result<
    TarballParams,
    ThermiteError,
>)
    ensures
        r matches Ok(p) ==> p.rust_version == crate::types::versions::parse_rust_version_s(
            rust_version@,
        )->0 && (match series {
            Some(s) => p.series matches Some(rel) && rel@ == s@,
            None => p.series is None,
        }),
        r matches Ok(p) ==> p.action == TarballAction::Download && !p.force && !p.overlay_replace,
        r is Err <==> (crate::types::versions::parse_rust_version_s(rust_version@) is None || (
        series matches Some(s) && !crate::types::ubuntu::is_known_release(s@))),
{
    TarballParams::new(TarballAction::Download, rust_version, series, false, false)
}

/// The parameters of `tarball generate`.
pub fn tarball_generate_params(rust_version: &str, series: Option<&str>, force: bool) -> (r: Result<
    TarballParams,
    ThermiteError,
>)
    ensures
        r matches Ok(p) ==> p.rust_version == crate::types::versions::parse_rust_version_s(
            rust_version@,
        )->0 && (match series {
            Some(s) => p.series matches Some(rel) && rel@ == s@,
            None => p.series is None,
        }),
        r matches Ok(p) ==> p.action == TarballAction::Generate && p.force == force
            && !p.overlay_replace,
        r is Err <==> (crate::types::versions::parse_rust_version_s(rust_version@) is None || (
        series matches Some(s) && !crate::types::ubuntu::is_known_release(s@))),
{
    TarballParams::new(TarballAction::Generate, rust_version, series, force, false)
}

/// The parameters of `tarball overlay`.
pub fn tarball_overlay_params(rust_version: &str, series: Option<&str>, replace: bool) -> (r: Result<
    TarballParams,
    ThermiteError,
>)
    ensures
        r matches Ok(p) ==> p.rust_version == crate::types::versions::parse_rust_version_s(
            rust_version@,
        )->0 && (match series {
            Some(s) => p.series matches Some(rel) && rel@ == s@,
            None => p.series is None,
        }),
        r matches Ok(p) ==> p.action == TarballAction::Overlay && !p.force && p.overlay_replace
            == replace,
        r is Err <==> (crate::types::versions::parse_rust_version_s(rust_version@) is None || (
        series matches Some(s) && !crate::types::ubuntu::is_known_release(s@))),
{
    TarballParams::new(TarballAction::Overlay, rust_version, series, false, replace)
}

} // verus!
