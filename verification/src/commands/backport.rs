//! The decisions of the `thermite backport` workflow.
//!
//! The workflow runs in phases that prompt, run tools and edit files; the
//! caller does that.  What each phase decides from what it was told (names,
//! messages, which branch, which step of the release chain, how the
//! compatibility checks add up) is computed here.
use vstd::prelude::*;

use crate::error::ThermiteError;
use crate::steps::compat::{ArchiveStatus, CheckResult, Inference};
use crate::text::{
    chars_to_string, dec_s, ends_with, ends_with_s, join, join_s, owned, parse_u32, parse_u32_s,
    push_all, push_dec, str_chars, string_views, trim_s, trim_v,
};
use crate::types::params::{valid_bug_number, BackportParams};
use crate::types::ubuntu::{
    series_of, chain_position_s, chain_table_index, lemma_chain_position, known_release, release_name_s, release_series_s,
    UbuntuRelease, BACKPORT_CHAIN_LEN, KNOWN_RELEASE_COUNT,
};

verus! {

// ── Tools and documentation ─────────────────────────────────────────────────

pub open spec fn backport_tools_s() -> Seq<Seq<char>> {
    seq![
        "git"@,
        "dch"@,
        "uscan"@,
        "quilt"@,
        "dpkg-buildpackage"@,
        "lintian"@,
        "sbuild"@,
        "cargo"@,
        "rustup"@,
        "dput"@,
        "ppa"@,
    ]
}

/// The external tools the backport workflow needs on the `PATH`.
pub fn required_tools() -> (r: Vec<&'static str>)
    ensures
        r@.map_values(|t: &str| t@) == backport_tools_s(),
{
    let r: Vec<&'static str> = vec![
        "git",
        "dch",
        "uscan",
        "quilt",
        "dpkg-buildpackage",
        "lintian",
        "sbuild",
        "cargo",
        "rustup",
        "dput",
        "ppa",
    ];
    assert(r@.map_values(|t: &str| t@) =~= backport_tools_s());
    r
}

/// Base URL of the backport-rust documentation page.
pub const DOCS_BASE: &'static str = "https://documentation.ubuntu.com/project/maintainers/niche-package-maintenance/rustc/backport-rust/";

/// The explanation and documentation anchor of each workflow phase.
pub open spec fn phase_doc_s(phase: usize) -> Option<(Seq<char>, Seq<char>)> {
    match phase {
        0 => Some(("Verifies that every required tool is on PATH and that the working directory is the root of a Debian source package (contains debian/changelog and debian/watch). Failing fast here prevents partial state from being written to the repository."@, "#backport-process"@)),
        1 => Some(("Backports are either 'priority' (a downstream package such as Firefox or Chromium needs this Rust version in the Ubuntu Archive) or 'proactive' (pre-building the bootstrapping chain for future use). Priority backports require a Launchpad bug targeting every series in the chain so that each intermediate backport can be tracked independently."@, "#launchpad-bug-report"@)),
        2 => Some(("Creates a local branch '<release>-X.Y' from '<source_release>-X.Y' for stable-to-stable backports. When backporting from the current devel release, the '<source_release>-X.Y' branch does not exist yet — the authoritative source lives on 'merge-X.Y' instead, and thermite probes the Foundations remote to pick the right branch automatically. Backports must go one release at a time (e.g. Noble→Jammy, never Questing→Jammy directly) to isolate release-specific failures and provide stable checkpoints. The branch is not pushed to the Foundations repository until Phase 14, after autopkgtests pass."@, "#setup"@)),
        3 => Some(("The backport version encodes the target release number twice: once in the upstream component (e.g. '+dfsg~22.04') and once in the Debian revision (e.g. '~22.04.1'). This ensures the backport version sorts strictly lower than the same package on any newer Ubuntu release, preventing accidental upgrades across series."@, "#changelog-version"@)),
        4 => Some(("The target release's archive may have older versions of build dependencies than the source release's packaging assumes. Six compatibility checks are performed in order before tarball generation: (1) LLVM version, (2) libgit2 version, (3) dh-cargo availability, (4) pkgconf availability, (5) cmake version, (6) debhelper-compat level. Each check infers the required version from the source packaging, queries the archive via rmadison, and reports whether action is needed. Fixes are applied before the orig tarball is generated so that vendored sources (e.g. LLVM, libgit2) are included in a single uscan run."@, "#common-backporting-changes"@)),
        5 => Some(("uscan downloads and filters the upstream Rust source according to 'Files-Excluded' in debian/copyright. If LLVM or libgit2 vendoring is needed (see the compatibility checks in Phase 4), 'Files-Excluded' must be edited first and the tarball regenerated before running this phase. The tarball is renamed to include '~<series>' so its filename matches the backport version string."@, "#generating-the-orig-tarball"@)),
        6 => Some(("Generates the orig-vendor tarball containing filtered Cargo crate dependencies. This requires a local Rust toolchain at the exact patch version being packaged (installed via rustup). Only applies to Rust 1.89 and later; earlier versions bundle vendored crates directly in the orig tarball."@, "#generating-the-orig-vendor-tarball"@)),
        7 => Some(("The 'RUST_TEST_SELFBUILD=1' autopkgtest rebuilds the compiler using the just-packaged toolchain. For backports — especially those that vendor LLVM — this test is resource-intensive and routinely times out on the autopkgtest infrastructure. The internal stage1→stage2 bootstrap that happens during the regular build is sufficient validation for backports."@, "#disabling-autopkgtest-self-build-test"@)),
        8 => Some(("sbuild builds the package in a clean chroot on the host architecture, validating the packaging before a slow multi-architecture PPA build. 'quilt pop -a' is run first to ensure patches are not pre-applied — sbuild applies them from scratch in the chroot and will fail if it finds them already in place. Most compatibility failures surface here and can be fixed iteratively."@, "#local-build-and-bugfixing"@)),
        9 => Some(("Prepares the installable source package (.dsc + tarballs) in the parent directory by resetting quilt state, cleaning prior build artifacts, and running 'dpkg-buildpackage -S'. The resulting .dsc is the input for Phase 10 (lintian) and all subsequent upload steps."@, "#local-build-and-bugfixing"@)),
        10 => Some(("Lintian checks the source package for Debian policy compliance before spending build time on a full multi-architecture PPA build. Several tags are expected for versioned rustc packages (e.g. 'field-too-long Vendored-Sources-Rust') and can be safely ignored; all others must be fixed or overridden with a justifying comment."@, "#lintian"@)),
        11 => Some(("A personal Launchpad PPA validates all supported architectures, including riscv64 which runs under emulation (expect 5–10× slower builds than on native architectures). PPA Ubuntu-dependencies must be set to 'Security' (not 'Proposed') because backports target the security pocket. If the bootstrap compiler is only in the staging PPA, add ppa:rust-toolchain/staging as an explicit PPA dependency."@, "#ppa-build"@)),
        12 => Some(("ppa:rust-toolchain/staging is the integration point for the entire bootstrapping chain — every subsequent backport in the chain depends on what is published here. The ~ppa<N> suffix is removed and the changelog entry must enumerate every change made during the backport; a description of 'Backport to <release>' alone is not sufficient for upload approval."@, "#uploading-the-backport-to-the-staging-ppa"@)),
        13 => Some(("Triggers autopkgtest runs for all architectures against the staging PPA using the 'ppa tests' command. Every test except the disabled self-build test must pass on every architecture before proceeding. Do not push the branch or request an archive upload until this phase is green."@, "#autopkgtests"@)),
        14 => Some(("The completed branch is pushed to the Foundations repository only after autopkgtests pass. This ordering guarantees that the branch on 'origin' always represents a verified, shippable state. The branch is the authoritative record of what was done and must be referenced in any Archive upload request."@, "#backport-process"@)),
        15 => Some(("Archive upload is only required for priority backports where a downstream package (Firefox, Chromium, etc.) needs this Rust version in the Ubuntu Archive. For proactive backports that are simply pre-building the bootstrapping chain, publishing to the staging PPA is sufficient. Contact the Ubuntu Security team with the bug link, staging PPA link, and package version."@, "#uploading-the-backport-to-the-archive-optional"@)),
        _ => None,
    }
}

/// The explanation and documentation anchor of a workflow phase.
pub fn phase_doc(phase: usize) -> (r: Option<(&'static str, &'static str)>)
    ensures
        match r {
            Some(d) => phase_doc_s(phase) == Some((d.0@, d.1@)),
            None => phase_doc_s(phase) is None,
        },
{
    match phase {
        0 => Some(("Verifies that every required tool is on PATH and that the working directory is the root of a Debian source package (contains debian/changelog and debian/watch). Failing fast here prevents partial state from being written to the repository.", "#backport-process")),
        1 => Some(("Backports are either 'priority' (a downstream package such as Firefox or Chromium needs this Rust version in the Ubuntu Archive) or 'proactive' (pre-building the bootstrapping chain for future use). Priority backports require a Launchpad bug targeting every series in the chain so that each intermediate backport can be tracked independently.", "#launchpad-bug-report")),
        2 => Some(("Creates a local branch '<release>-X.Y' from '<source_release>-X.Y' for stable-to-stable backports. When backporting from the current devel release, the '<source_release>-X.Y' branch does not exist yet — the authoritative source lives on 'merge-X.Y' instead, and thermite probes the Foundations remote to pick the right branch automatically. Backports must go one release at a time (e.g. Noble→Jammy, never Questing→Jammy directly) to isolate release-specific failures and provide stable checkpoints. The branch is not pushed to the Foundations repository until Phase 14, after autopkgtests pass.", "#setup")),
        3 => Some(("The backport version encodes the target release number twice: once in the upstream component (e.g. '+dfsg~22.04') and once in the Debian revision (e.g. '~22.04.1'). This ensures the backport version sorts strictly lower than the same package on any newer Ubuntu release, preventing accidental upgrades across series.", "#changelog-version")),
        4 => Some(("The target release's archive may have older versions of build dependencies than the source release's packaging assumes. Six compatibility checks are performed in order before tarball generation: (1) LLVM version, (2) libgit2 version, (3) dh-cargo availability, (4) pkgconf availability, (5) cmake version, (6) debhelper-compat level. Each check infers the required version from the source packaging, queries the archive via rmadison, and reports whether action is needed. Fixes are applied before the orig tarball is generated so that vendored sources (e.g. LLVM, libgit2) are included in a single uscan run.", "#common-backporting-changes")),
        5 => Some(("uscan downloads and filters the upstream Rust source according to 'Files-Excluded' in debian/copyright. If LLVM or libgit2 vendoring is needed (see the compatibility checks in Phase 4), 'Files-Excluded' must be edited first and the tarball regenerated before running this phase. The tarball is renamed to include '~<series>' so its filename matches the backport version string.", "#generating-the-orig-tarball")),
        6 => Some(("Generates the orig-vendor tarball containing filtered Cargo crate dependencies. This requires a local Rust toolchain at the exact patch version being packaged (installed via rustup). Only applies to Rust 1.89 and later; earlier versions bundle vendored crates directly in the orig tarball.", "#generating-the-orig-vendor-tarball")),
        7 => Some(("The 'RUST_TEST_SELFBUILD=1' autopkgtest rebuilds the compiler using the just-packaged toolchain. For backports — especially those that vendor LLVM — this test is resource-intensive and routinely times out on the autopkgtest infrastructure. The internal stage1→stage2 bootstrap that happens during the regular build is sufficient validation for backports.", "#disabling-autopkgtest-self-build-test")),
        8 => Some(("sbuild builds the package in a clean chroot on the host architecture, validating the packaging before a slow multi-architecture PPA build. 'quilt pop -a' is run first to ensure patches are not pre-applied — sbuild applies them from scratch in the chroot and will fail if it finds them already in place. Most compatibility failures surface here and can be fixed iteratively.", "#local-build-and-bugfixing")),
        9 => Some(("Prepares the installable source package (.dsc + tarballs) in the parent directory by resetting quilt state, cleaning prior build artifacts, and running 'dpkg-buildpackage -S'. The resulting .dsc is the input for Phase 10 (lintian) and all subsequent upload steps.", "#local-build-and-bugfixing")),
        10 => Some(("Lintian checks the source package for Debian policy compliance before spending build time on a full multi-architecture PPA build. Several tags are expected for versioned rustc packages (e.g. 'field-too-long Vendored-Sources-Rust') and can be safely ignored; all others must be fixed or overridden with a justifying comment.", "#lintian")),
        11 => Some(("A personal Launchpad PPA validates all supported architectures, including riscv64 which runs under emulation (expect 5–10× slower builds than on native architectures). PPA Ubuntu-dependencies must be set to 'Security' (not 'Proposed') because backports target the security pocket. If the bootstrap compiler is only in the staging PPA, add ppa:rust-toolchain/staging as an explicit PPA dependency.", "#ppa-build")),
        12 => Some(("ppa:rust-toolchain/staging is the integration point for the entire bootstrapping chain — every subsequent backport in the chain depends on what is published here. The ~ppa<N> suffix is removed and the changelog entry must enumerate every change made during the backport; a description of 'Backport to <release>' alone is not sufficient for upload approval.", "#uploading-the-backport-to-the-staging-ppa")),
        13 => Some(("Triggers autopkgtest runs for all architectures against the staging PPA using the 'ppa tests' command. Every test except the disabled self-build test must pass on every architecture before proceeding. Do not push the branch or request an archive upload until this phase is green.", "#autopkgtests")),
        14 => Some(("The completed branch is pushed to the Foundations repository only after autopkgtests pass. This ordering guarantees that the branch on 'origin' always represents a verified, shippable state. The branch is the authoritative record of what was done and must be referenced in any Archive upload request.", "#backport-process")),
        15 => Some(("Archive upload is only required for priority backports where a downstream package (Firefox, Chromium, etc.) needs this Rust version in the Ubuntu Archive. For proactive backports that are simply pre-building the bootstrapping chain, publishing to the staging PPA is sufficient. Contact the Ubuntu Security team with the bug link, staging PPA link, and package version.", "#uploading-the-backport-to-the-archive-optional")),
        _ => None,
    }
}

/// The "About this phase" box shown at verbosity 2 and above: the
/// explanation, an empty line, and the documentation link.
pub open spec fn phase_explanation_s(phase: usize, verbosity: u8) -> Option<Seq<Seq<char>>> {
    if verbosity < 2 {
        None
    } else {
        match phase_doc_s(phase) {
            Some(d) => Some(seq![d.0, seq![], "Documentation: "@ + DOCS_BASE@ + d.1]),
            None => None,
        }
    }
}

/// The lines of the "About this phase" box for `phase`, when the verbosity
/// asks for it and the phase has documentation.
pub fn phase_explanation(phase: usize, verbosity: u8) -> (r: Option<Vec<String>>)
    ensures
        match r {
            Some(ls) => phase_explanation_s(phase, verbosity) == Some(string_views(ls@)),
            None => phase_explanation_s(phase, verbosity) is None,
        },
{
    if verbosity < 2 {
        return None;
    }
    match phase_doc(phase) {
        Some((explanation, anchor)) => {
            let mut link = str_chars("Documentation: ");
            push_all(&mut link, &str_chars(DOCS_BASE));
            push_all(&mut link, &str_chars(anchor));
            let mut out: Vec<String> = Vec::new();
            out.push(owned(explanation));
            out.push(String::new());
            out.push(chars_to_string(&link));
            assert(string_views(out@) =~= seq![
                explanation@,
                seq![],
                "Documentation: "@ + DOCS_BASE@ + anchor@,
            ]);
            Some(out)
        },
        None => None,
    }
}

// ── Names ────────────────────────────────────────────────────────────────────

/// The names derived from the parameters and used throughout the workflow.
pub struct BackportNames {
    /// `rustc-<X.Y>`.
    pub pkg_name: String,
    /// The package's bug list on Launchpad.
    pub bugs_url: String,
    /// Where to file a new bug.
    pub filebug_url: String,
    /// `<source_release>-<X.Y>`: the source branch for a stable source.
    pub primary_source_branch: String,
    /// `merge-<X.Y>`: the source branch while the source is in development.
    pub fallback_source_branch: String,
    /// `<release>-<X.Y>`: the branch the backport is made on.
    pub target_branch: String,
    /// `rustc-<X.Y>-<release>`: the personal PPA of the backport.
    pub ppa_name: String,
    /// `#<bug>`, or a note that the backport is proactive.
    pub bug_display: String,
}

/// The names of a backport of `params`.
pub fn backport_names(params: &BackportParams) -> (r: BackportNames)
    ensures
        r.pkg_name@ == "rustc-"@ + params.rust_version.short_s().render(),
        r.bugs_url@ == "https://bugs.launchpad.net/ubuntu/+source/rustc-"@
            + params.rust_version.short_s().render(),
        r.filebug_url@ == "https://bugs.launchpad.net/ubuntu/+source/rustc-"@
            + params.rust_version.short_s().render() + "/+filebug"@,
        r.primary_source_branch@ == params.source_release@ + "-"@
            + params.rust_version.short_s().render(),
        r.fallback_source_branch@ == "merge-"@ + params.rust_version.short_s().render(),
        r.target_branch@ == params.release@ + "-"@ + params.rust_version.short_s().render(),
        r.ppa_name@ == "rustc-"@ + params.rust_version.short_s().render() + "-"@
            + params.release@,
        r.bug_display@ == match params.lp_bug_number {
            Some(b) => "#"@ + b@,
            None => "(none — proactive backport)"@,
        },
{
    let short = params.rust_version.short().render_chars();
    let mut pkg = str_chars("rustc-");
    push_all(&mut pkg, &short);
    let mut bugs = str_chars("https://bugs.launchpad.net/ubuntu/+source/");
    push_all(&mut bugs, &pkg);
    let mut filebug = crate::text::copy_chars(&bugs);
    push_all(&mut filebug, &str_chars("/+filebug"));
    let mut primary = str_chars(params.source_release.as_str());
    push_all(&mut primary, &str_chars("-"));
    push_all(&mut primary, &short);
    let mut fallback = str_chars("merge-");
    push_all(&mut fallback, &short);
    let mut target = str_chars(params.release.as_str());
    push_all(&mut target, &str_chars("-"));
    push_all(&mut target, &short);
    let mut ppa = crate::text::copy_chars(&pkg);
    push_all(&mut ppa, &str_chars("-"));
    push_all(&mut ppa, &str_chars(params.release.as_str()));
    let bug_display = match &params.lp_bug_number {
        Some(b) => {
            let mut d = str_chars("#");
            push_all(&mut d, &str_chars(b.as_str()));
            chars_to_string(&d)
        },
        None => owned("(none — proactive backport)"),
    };
    proof {
        reveal_strlit("https://bugs.launchpad.net/ubuntu/+source/");
        reveal_strlit("rustc-");
        reveal_strlit("https://bugs.launchpad.net/ubuntu/+source/rustc-");
    }
    assert(bugs@ =~= "https://bugs.launchpad.net/ubuntu/+source/rustc-"@
        + params.rust_version.short_s().render());
    BackportNames {
        pkg_name: chars_to_string(&pkg),
        bugs_url: chars_to_string(&bugs),
        filebug_url: chars_to_string(&filebug),
        primary_source_branch: chars_to_string(&primary),
        fallback_source_branch: chars_to_string(&fallback),
        target_branch: chars_to_string(&target),
        ppa_name: chars_to_string(&ppa),
        bug_display,
    }
}

// ── Preflight ────────────────────────────────────────────────────────────────

/// The tools whose check failed, in order.
pub open spec fn missing_from(checks: Seq<(Seq<char>, bool)>) -> Seq<Seq<char>>
    decreases checks.len(),
{
    if checks.len() == 0 {
        seq![]
    } else {
        (if checks[0].1 {
            seq![]
        } else {
            seq![checks[0].0]
        }) + missing_from(checks.skip(1))
    }
}

pub open spec fn check_views(v: Seq<(String, bool)>) -> Seq<(Seq<char>, bool)> {
    v.map_values(|c: (String, bool)| (c.0@, c.1))
}

/// The preflight verdict on the tools, given as (name, found on `PATH`):
/// `Ok` when all were found, else `CommandNotFound` listing the missing
/// ones, comma-separated.
pub fn check_tools(checks: &Vec<(String, bool)>) -> (r: Result<(), ThermiteError>)
    ensures
        missing_from(check_views(checks@)).len() == 0 ==> r is Ok,
        missing_from(check_views(checks@)).len() > 0 ==> (r matches Err(
            ThermiteError::CommandNotFound(m),
        ) && m@ == join_s(missing_from(check_views(checks@)), ", "@)),
{
    let ghost cv = check_views(checks@);
    let mut missing: Vec<Vec<char>> = Vec::new();
    let mut i: usize = 0;
    assert(cv.skip(0) =~= cv);
    assert(crate::text::dv(missing@) =~= seq![]);
    while i < checks.len()
        invariant
            i <= checks.len(),
            cv == check_views(checks@),
            cv.len() == checks.len(),
            crate::text::dv(missing@) + missing_from(cv.skip(i as int)) == missing_from(cv),
        decreases checks.len() - i,
    {
        let ghost rest = cv.skip(i as int);
        assert(rest[0] == (checks@[i as int].0@, checks@[i as int].1));
        assert(rest.skip(1) =~= cv.skip(i + 1));
        let ghost o = crate::text::dv(missing@);
        if !checks[i].1 {
            let n = str_chars(checks[i].0.as_str());
            let ghost nv = n@;
            missing.push(n);
            assert(crate::text::dv(missing@) =~= o + seq![nv]);
            assert(o + missing_from(rest) =~= o + seq![nv] + missing_from(rest.skip(1)));
        } else {
            assert(missing_from(rest) =~= missing_from(rest.skip(1)));
        }
        i = i + 1;
    }
    assert(cv.skip(i as int) =~= seq![]);
    assert(crate::text::dv(missing@) + seq![] =~= crate::text::dv(missing@));
    if missing.len() == 0 {
        return Ok(());
    }
    let joined = join(&missing, &str_chars(", "));
    Err(ThermiteError::CommandNotFound(chars_to_string(&joined)))
}

// ── The release chain ────────────────────────────────────────────────────────

/// Where source and target stand on the LTS+devel backport chain.
#[derive(Debug, Clone, Copy, PartialEq, Eq, Structural)]
pub enum ChainCheck {
    /// Both on the chain, at most one step apart.
    Adjacent,
    /// Both on the chain, further apart: the releases strictly between the
    /// positions `lower` and `upper` are skipped.
    MultiStep { lower: usize, upper: usize },
    /// At least one of them is not on the chain (neither LTS nor devel).
    OffChain { source_off: bool, target_off: bool },
}

pub open spec fn chain_check_s(source: Seq<char>, target: Seq<char>) -> ChainCheck {
    match (chain_position_s(source), chain_position_s(target)) {
        (Some(sp), Some(tp)) => if sp - tp <= 1 && tp - sp <= 1 {
            ChainCheck::Adjacent
        } else if sp > tp {
            ChainCheck::MultiStep { lower: tp as usize, upper: sp as usize }
        } else {
            ChainCheck::MultiStep { lower: sp as usize, upper: tp as usize }
        },
        _ => ChainCheck::OffChain {
            source_off: chain_position_s(source) is None,
            target_off: chain_position_s(target) is None,
        },
    }
}

/// The chain check does not depend on the direction of the backport: it
/// reports the same for source and target swapped.  Two releases on the
/// chain are adjacent exactly when their positions differ by at most one;
/// otherwise the skipped span runs from the lower to the upper position,
/// with at least one release strictly between them. The backport is off
/// the chain exactly when one of its releases is not on it.
pub proof fn lemma_chain_check_laws(a: Seq<char>, b: Seq<char>)
    ensures
        chain_check_s(a, b) == chain_check_s(b, a) || (chain_check_s(a, b) is OffChain
            && chain_check_s(b, a) is OffChain),
        (chain_check_s(a, b) is OffChain) == (chain_position_s(a) is None || chain_position_s(b) is None),
        (chain_position_s(a) is Some && chain_position_s(b) is Some) ==> ((chain_check_s(a, b) is Adjacent)
            == (-1 <= chain_position_s(a)->0 - chain_position_s(b)->0 <= 1)),
        chain_check_s(a, b) matches ChainCheck::MultiStep { lower, upper } ==> lower + 1 < upper
            < BACKPORT_CHAIN_LEN && ((chain_position_s(a) == Some(lower as int) && chain_position_s(b)
            == Some(upper as int)) || (chain_position_s(a) == Some(upper as int) && chain_position_s(b)
            == Some(lower as int))),
{
    lemma_chain_position(a, 0);
    lemma_chain_position(b, 0);
}

/// Check that the backport goes one release at a time along the chain.
pub fn chain_check(source: &UbuntuRelease, target: &UbuntuRelease) -> (r: ChainCheck)
    ensures
        r == chain_check_s(source@, target@),
{
    match (source.chain_position(), target.chain_position()) {
        (Some(sp), Some(tp)) => {
            if sp <= tp + 1 && tp <= sp + 1 {
                ChainCheck::Adjacent
            } else if sp > tp {
                ChainCheck::MultiStep { lower: tp, upper: sp }
            } else {
                ChainCheck::MultiStep { lower: sp, upper: tp }
            }
        },
        (s, t) => ChainCheck::OffChain { source_off: s.is_none(), target_off: t.is_none() },
    }
}

/// The listed line of the skipped chain release at position `k`: its name,
/// series and kind (`devel` for the last, `LTS` for the others).
pub open spec fn skipped_line_s(k: int) -> Seq<char> {
    let i = chain_table_index(k);
    "  - "@ + release_name_s(i) + " (series "@ + release_series_s(i) + ", "@ + (if k
        == BACKPORT_CHAIN_LEN - 1 {
        "devel"@
    } else {
        "LTS"@
    }) + ")"@
}

/// The lines naming the chain releases strictly between positions `lower`
/// and `upper`, oldest first.
pub fn skipped_release_lines(lower: usize, upper: usize) -> (r: Vec<String>)
    requires
        lower < upper <= BACKPORT_CHAIN_LEN,
    ensures
        string_views(r@) == Seq::new(
            (upper - lower - 1) as nat,
            |j: int| skipped_line_s(lower + 1 + j),
        ),
{
    let ghost want = Seq::new((upper - lower - 1) as nat, |j: int| skipped_line_s(lower + 1 + j));
    let mut out: Vec<String> = Vec::new();
    let mut k = lower + 1;
    while k < upper
        invariant
            lower < k <= upper <= BACKPORT_CHAIN_LEN,
            want == Seq::new((upper - lower - 1) as nat, |j: int| skipped_line_s(lower + 1 + j)),
            string_views(out@) == want.take(k - lower - 1),
        decreases upper - k,
    {
        let idx: usize = if k == 0 {
            0
        } else if k == 1 {
            4
        } else if k == 2 {
            8
        } else if k == 3 {
            12
        } else {
            KNOWN_RELEASE_COUNT - 1
        };
        let (name, series) = known_release(idx);
        let mut l = str_chars("  - ");
        push_all(&mut l, &str_chars(name));
        push_all(&mut l, &str_chars(" (series "));
        push_all(&mut l, &str_chars(series));
        push_all(&mut l, &str_chars(", "));
        push_all(&mut l, &str_chars(if k == BACKPORT_CHAIN_LEN - 1 { "devel" } else { "LTS" }));
        push_all(&mut l, &str_chars(")"));
        let s = chars_to_string(&l);
        let ghost sv = s@;
        let ghost o = string_views(out@);
        out.push(s);
        assert(string_views(out@) =~= o.push(sv));
        assert(want.take(k - lower) =~= want.take(k - lower - 1).push(want[k - lower - 1]));
        k = k + 1;
    }
    assert(want.take(k - lower - 1) =~= want);
    out
}

/// The line naming a release that is off the chain, in its `role`.
pub open spec fn off_chain_line_s(role: Seq<char>, name: Seq<char>) -> Seq<char> {
    "  - "@ + role + ": "@ + name + " (series "@ + series_of(name) + ", non-LTS, non-devel)"@
}

/// The lines naming the source and target releases that are off the chain.
pub fn off_chain_lines(source: &UbuntuRelease, target: &UbuntuRelease) -> (r: Vec<String>)
    ensures
        string_views(r@) == (if chain_position_s(source@) is None {
            seq![off_chain_line_s("source"@, source@)]
        } else {
            seq![]
        }) + (if chain_position_s(target@) is None {
            seq![off_chain_line_s("target"@, target@)]
        } else {
            seq![]
        }),
{
    let mut out: Vec<String> = Vec::new();
    if source.chain_position().is_none() {
        out.push(off_chain_line("source", source));
    }
    let ghost o = string_views(out@);
    if target.chain_position().is_none() {
        out.push(off_chain_line("target", target));
    }
    assert(string_views(out@) =~= (if chain_position_s(source@) is None {
        seq![off_chain_line_s("source"@, source@)]
    } else {
        seq![]
    }) + (if chain_position_s(target@) is None {
        seq![off_chain_line_s("target"@, target@)]
    } else {
        seq![]
    }));
    out
}

fn off_chain_line(role: &str, r: &UbuntuRelease) -> (l: String)
    ensures
        l@ == off_chain_line_s(role@, r@),
{
    let mut v = str_chars("  - ");
    push_all(&mut v, &str_chars(role));
    push_all(&mut v, &str_chars(": "));
    push_all(&mut v, &str_chars(r.as_str()));
    push_all(&mut v, &str_chars(" (series "));
    push_all(&mut v, &str_chars(r.series_number()));
    push_all(&mut v, &str_chars(", non-LTS, non-devel)"));
    chars_to_string(&v)
}

// ── Bug number prompt ───────────────────────────────────────────────────────

/// What is wrong with a bug number typed at the bug-report prompt: nothing
/// for a non-empty digit string, else the message asking to try again.
pub fn bug_number_input_problem(input: &str) -> (r: Option<&'static str>)
    ensures
        r is None <==> valid_bug_number(input@),
        r matches Some(m) ==> m@ == if input@.len() == 0 {
            "Bug number cannot be empty. Please try again."@
        } else {
            "Bug number must contain only digits. Please try again."@
        },
{
    let v = str_chars(input);
    if v.len() == 0 {
        Some("Bug number cannot be empty. Please try again.")
    } else if !crate::text::all_digit_chars(&v) {
        Some("Bug number must contain only digits. Please try again.")
    } else {
        None
    }
}

// ── Source branch ────────────────────────────────────────────────────────────

/// The branch to check out as the backport source: the primary candidate
/// when it exists on the remote, else the fallback when it does, else none
/// (and the user is asked).
pub fn resolve_source_branch_name<'a>(
    primary: &'a str,
    fallback: &'a str,
    has_primary: bool,
    has_fallback: bool,
) -> (r: Option<&'a str>)
    ensures
        r == if has_primary {
            Some(primary)
        } else if has_fallback {
            Some(fallback)
        } else {
            None
        },
{
    if has_primary {
        Some(primary)
    } else if has_fallback {
        Some(fallback)
    } else {
        None
    }
}

/// The `--extra-repository` argument of sbuild for
/// `ppa:rust-toolchain/staging`, which provides the bootstrap compiler.
pub fn staging_ppa_extra_repository(release: &str) -> (r: String)
    ensures
        r@ == "--extra-repository=deb [trusted=yes] http://ppa.launchpad.net/rust-toolchain/staging/ubuntu/ "@
            + release@ + " main"@,
{
    let mut v = str_chars(
        "--extra-repository=deb [trusted=yes] http://ppa.launchpad.net/rust-toolchain/staging/ubuntu/ ",
    );
    push_all(&mut v, &str_chars(release));
    push_all(&mut v, &str_chars(" main"));
    chars_to_string(&v)
}

// ── Compatibility summary ────────────────────────────────────────────────────

/// How the compatibility checks came out.
#[derive(Debug, Clone, Copy, PartialEq, Eq, Structural)]
pub struct CompatTally {
    /// Inferred and available.
    pub ok: usize,
    /// Too old or not published.
    pub attention: usize,
    /// Nothing could be inferred.
    pub infer_failed: usize,
    /// The archive could not be checked.
    pub archive_failed: usize,
}

/// What one check adds to the tally: `ok` for an available package that
/// was inferred, `attention` for one too old or unpublished, `archive_failed`
/// for a failed lookup, and `infer_failed` when nothing was inferred.
pub open spec fn tally_step(t: CompatTally, r: CheckResult) -> CompatTally {
    let t1 = if r.inference is CouldNotInfer {
        CompatTally { infer_failed: (t.infer_failed + 1) as usize, ..t }
    } else {
        t
    };
    match r.archive_status {
        ArchiveStatus::Available(_) => if r.inference is Inferred {
            CompatTally { ok: (t1.ok + 1) as usize, ..t1 }
        } else {
            t1
        },
        ArchiveStatus::TooOld { .. } | ArchiveStatus::NotPublished => CompatTally {
            attention: (t1.attention + 1) as usize,
            ..t1
        },
        ArchiveStatus::CheckFailed(_) => CompatTally {
            archive_failed: (t1.archive_failed + 1) as usize,
            ..t1
        },
    }
}

pub open spec fn tally_s(rs: Seq<CheckResult>) -> CompatTally
    decreases rs.len(),
{
    if rs.len() == 0 {
        CompatTally { ok: 0, attention: 0, infer_failed: 0, archive_failed: 0 }
    } else {
        tally_step(tally_s(rs.drop_last()), rs.last())
    }
}

/// Count how the compatibility checks came out.
pub fn tally_checks(results: &Vec<CheckResult>) -> (r: CompatTally)
    ensures
        r == tally_s(results@),
{
    let mut t = CompatTally { ok: 0, attention: 0, infer_failed: 0, archive_failed: 0 };
    let mut i: usize = 0;
    assert(results@.take(0) =~= seq![]);
    while i < results.len()
        invariant
            i <= results.len(),
            t == tally_s(results@.take(i as int)),
            t.ok <= i && t.attention <= i && t.infer_failed <= i && t.archive_failed <= i,
        decreases results.len() - i,
    {
        assert(results@.take(i + 1).drop_last() =~= results@.take(i as int));
        let r = &results[i];
        if !r.inference.is_inferred() {
            t.infer_failed = t.infer_failed + 1;
        }
        match &r.archive_status {
            ArchiveStatus::Available(_) => {
                if r.inference.is_inferred() {
                    t.ok = t.ok + 1;
                }
            },
            ArchiveStatus::TooOld { .. } | ArchiveStatus::NotPublished => {
                t.attention = t.attention + 1;
            },
            ArchiveStatus::CheckFailed(_) => {
                t.archive_failed = t.archive_failed + 1;
            },
        }
        i = i + 1;
    }
    assert(results@.take(i as int) =~= results@);
    t
}

/// The parts of the summary that name problems, in order.
pub open spec fn summary_parts_s(t: CompatTally) -> Seq<Seq<char>> {
    (if t.attention > 0 {
        seq![dec_s(t.attention as nat) + " need attention"@]
    } else {
        seq![]
    }) + (if t.infer_failed > 0 {
        seq![dec_s(t.infer_failed as nat) + " could not infer"@]
    } else {
        seq![]
    }) + (if t.archive_failed > 0 {
        seq![dec_s(t.archive_failed as nat) + " archive check failed"@]
    } else {
        seq![]
    })
}

/// The summary line of the compatibility checks.
pub open spec fn summary_line_s(t: CompatTally, total: usize) -> Seq<char> {
    if t.attention == 0 && t.infer_failed == 0 && t.archive_failed == 0 {
        "  Summary: "@ + dec_s(t.ok as nat) + "/"@ + dec_s(total as nat)
            + " checks passed — no action needed."@
    } else {
        "  Summary: "@ + dec_s(t.ok as nat) + "/"@ + dec_s(total as nat) + " checks passed, "@
            + join_s(summary_parts_s(t), ", "@) + "."@
    }
}

fn count_part(n: usize, text: &str) -> (r: Vec<char>)
    ensures
        r@ == dec_s(n as nat) + text@,
{
    let mut v: Vec<char> = Vec::new();
    push_dec(&mut v, n as u64);
    push_all(&mut v, &str_chars(text));
    v
}

/// The summary line after the compatibility checks, of which there were
/// `total`.
pub fn compat_summary_line(t: CompatTally, total: usize) -> (r: String)
    ensures
        r@ == summary_line_s(t, total),
{
    let mut v = str_chars("  Summary: ");
    push_dec(&mut v, t.ok as u64);
    push_all(&mut v, &str_chars("/"));
    push_dec(&mut v, total as u64);
    if t.attention == 0 && t.infer_failed == 0 && t.archive_failed == 0 {
        push_all(&mut v, &str_chars(" checks passed — no action needed."));
        return chars_to_string(&v);
    }
    push_all(&mut v, &str_chars(" checks passed, "));
    let mut parts: Vec<Vec<char>> = Vec::new();
    if t.attention > 0 {
        parts.push(count_part(t.attention, " need attention"));
    }
    if t.infer_failed > 0 {
        parts.push(count_part(t.infer_failed, " could not infer"));
    }
    if t.archive_failed > 0 {
        parts.push(count_part(t.archive_failed, " archive check failed"));
    }
    assert(crate::text::dv(parts@) =~= summary_parts_s(t));
    push_all(&mut v, &join(&parts, &str_chars(", ")));
    push_all(&mut v, &str_chars("."));
    chars_to_string(&v)
}

/// The lines reporting one check result (after its name): what was
/// inferred, what the archive said, and for a check that did not pass the
/// fix and the reference URL.
pub open spec fn check_report_s(r: CheckResult, release: Seq<char>) -> Seq<Seq<char>> {
    (match r.inference {
        Inference::Inferred { value, source } => if value@.len() == 0 {
            seq!["    Inferred: (no version constraint) ("@ + source@ + ")"@]
        } else {
            seq!["    Inferred: "@ + value@ + " ("@ + source@ + ")"@]
        },
        Inference::CouldNotInfer(reason) => seq![
            "    Could not infer automatically."@,
            "    Reason: "@ + reason@,
        ],
    }) + (match r.archive_status {
        ArchiveStatus::Available(v) => seq!["    Archive: ✔ available ("@ + v@ + ")"@],
        ArchiveStatus::TooOld { available, required } => seq![
            "    Archive: ✗ too old — available "@ + available@ + ", required "@ + required@,
        ],
        ArchiveStatus::NotPublished => seq!["    Archive: ✗ not published in "@ + release],
        ArchiveStatus::CheckFailed(d) => seq!["    Archive: could not check ("@ + d@ + ")"@],
    }) + (if r.archive_status is Available {
        seq![]
    } else {
        (if r.guidance@.len() > 0 {
            seq!["    Action needed: "@ + r.guidance@]
        } else {
            seq![]
        }) + seq!["    Reference: "@ + r.url@]
    })
}

fn text2(a: &str, b: &str) -> (r: String)
    ensures
        r@ == a@ + b@,
{
    let mut v = str_chars(a);
    push_all(&mut v, &str_chars(b));
    chars_to_string(&v)
}

fn text3(a: &str, b: &str, c: &str) -> (r: String)
    ensures
        r@ == a@ + b@ + c@,
{
    let mut v = str_chars(a);
    push_all(&mut v, &str_chars(b));
    push_all(&mut v, &str_chars(c));
    chars_to_string(&v)
}

/// The lines reporting one compatibility check result.
pub fn check_report_lines(r: &CheckResult, release: &str) -> (out: Vec<String>)
    ensures
        string_views(out@) =~~= check_report_s(*r, release@),
{
    let mut out: Vec<String> = Vec::new();
    match &r.inference {
        Inference::Inferred { value, source } => {
            if str_chars(value.as_str()).len() == 0 {
                out.push(text3("    Inferred: (no version constraint) (", source.as_str(), ")"));
            } else {
                let mut v = str_chars("    Inferred: ");
                push_all(&mut v, &str_chars(value.as_str()));
                push_all(&mut v, &str_chars(" ("));
                push_all(&mut v, &str_chars(source.as_str()));
                push_all(&mut v, &str_chars(")"));
                out.push(chars_to_string(&v));
            }
        },
        Inference::CouldNotInfer(reason) => {
            out.push(owned("    Could not infer automatically."));
            out.push(text3("    Reason: ", reason.as_str(), ""));
        },
    }
    let ghost a = string_views(out@);
    match &r.archive_status {
        ArchiveStatus::Available(v) => {
            out.push(text3("    Archive: ✔ available (", v.as_str(), ")"));
        },
        ArchiveStatus::TooOld { available, required } => {
            let mut v = str_chars("    Archive: ✗ too old — available ");
            push_all(&mut v, &str_chars(available.as_str()));
            push_all(&mut v, &str_chars(", required "));
            push_all(&mut v, &str_chars(required.as_str()));
            out.push(chars_to_string(&v));
        },
        ArchiveStatus::NotPublished => {
            out.push(text3("    Archive: ✗ not published in ", release, ""));
        },
        ArchiveStatus::CheckFailed(d) => {
            out.push(text3("    Archive: could not check (", d.as_str(), ")"));
        },
    }
    let ghost b = string_views(out@);
    if !r.is_ok() {
        if str_chars(r.guidance).len() > 0 {
            out.push(text3("    Action needed: ", r.guidance, ""));
        }
        out.push(text3("    Reference: ", r.url.as_str(), ""));
    }
    proof {
        reveal_strlit("");
    }
    out
}

// ── Later phases ─────────────────────────────────────────────────────────────

/// The PPA upload number typed at the prompt: the number it parses as, 1
/// when it is not a `u32`.
pub fn ppa_upload_number(input: &str) -> (r: u32)
    ensures
        r == match parse_u32_s(input@) {
            Some(n) => n,
            None => 1,
        },
{
    match parse_u32(&str_chars(input)) {
        Some(n) => n,
        None => 1,
    }
}

/// The newest `.changes` file among the files of a directory, given as
/// (name, modification time when known): the greatest time, an unknown
/// time below any known one, the first of equally new ones.
pub open spec fn newest_changes_from(files: Seq<(Seq<char>, Option<u64>)>, i: int, best: Option<int>) -> Option<
    int,
>
    decreases files.len() - i,
{
    if i < 0 || i >= files.len() {
        best
    } else if ends_with_s(files[i].0, ".changes"@) && (match best {
        Some(b) => key_lt(files[b].1, files[i].1),
        None => true,
    }) {
        newest_changes_from(files, i + 1, Some(i))
    } else {
        newest_changes_from(files, i + 1, best)
    }
}

/// `a < b` for optional times, where an unknown time is the smallest.
pub open spec fn key_lt(a: Option<u64>, b: Option<u64>) -> bool {
    match (a, b) {
        (None, Some(_)) => true,
        (Some(x), Some(y)) => x < y,
        _ => false,
    }
}

pub open spec fn dated_views(v: Seq<(String, Option<u64>)>) -> Seq<(Seq<char>, Option<u64>)> {
    v.map_values(|f: (String, Option<u64>)| (f.0@, f.1))
}

/// Index of the newest `.changes` file (see [`newest_changes_from`]).
pub fn pick_newest_changes(files: &Vec<(String, Option<u64>)>) -> (r: Option<usize>)
    ensures
        match r {
            Some(k) => newest_changes_from(dated_views(files@), 0, None) == Some(k as int) && k
                < files.len(),
            None => newest_changes_from(dated_views(files@), 0, None) is None,
        },
{
    let ghost fv = dated_views(files@);
    let tail = str_chars(".changes");
    let mut best: Option<usize> = None;
    let mut i: usize = 0;
    while i < files.len()
        invariant
            i <= files.len(),
            fv == dated_views(files@),
            fv.len() == files.len(),
            tail@ == ".changes"@,
            match best {
                Some(b) => b < i,
                None => true,
            },
            newest_changes_from(fv, 0, None) == newest_changes_from(
                fv,
                i as int,
                match best {
                    Some(b) => Some(b as int),
                    None => None,
                },
            ),
        decreases files.len() - i,
    {
        assert(fv[i as int] == (files@[i as int].0@, files@[i as int].1));
        if ends_with(&str_chars(files[i].0.as_str()), &tail) {
            let take = match best {
                Some(b) => {
                    assert(fv[b as int] == (files@[b as int].0@, files@[b as int].1));
                    match (files[b].1, files[i].1) {
                        (None, Some(_)) => true,
                        (Some(x), Some(y)) => x < y,
                        _ => false,
                    }
                },
                None => true,
            };
            if take {
                best = Some(i);
            }
        }
        i = i + 1;
    }
    best
}

/// The error when no `.changes` file was produced.
pub fn no_changes_file_error() -> (r: ThermiteError)
    ensures
        r matches ThermiteError::CommandFailed { cmd, code, stdout, stderr } && cmd@
            == "dpkg-buildpackage"@ && code == 0 && stdout@.len() == 0 && stderr@
            == "no .changes file found in parent directory"@,
{
    ThermiteError::CommandFailed {
        cmd: owned("dpkg-buildpackage"),
        code: 0,
        stdout: String::new(),
        stderr: owned("no .changes file found in parent directory"),
    }
}

/// The line pointing at the sbuild log after a failed build: the log's
/// absolute path when it could be resolved, else up to 400 characters of
/// the captured (trimmed) stderr, or stdout when stderr is blank.
pub open spec fn build_log_line_s(abs_log: Option<Seq<char>>, stdout: Seq<char>, stderr: Seq<char>) -> Seq<
    char,
> {
    match abs_log {
        Some(p) => "Build log: "@ + p,
        None => {
            let snippet = if trim_s(stderr).len() > 0 {
                trim_s(stderr)
            } else {
                trim_s(stdout)
            };
            "sbuild failed before producing a build log. Captured output:\n"@ + if snippet.len()
                > 400 {
                snippet.take(400)
            } else {
                snippet
            }
        },
    }
}

/// The line pointing at the sbuild log after a failed build (see
/// [`build_log_line_s`]).
pub fn build_log_line(abs_log: Option<&str>, stdout: &str, stderr: &str) -> (r: String)
    ensures
        r@ == build_log_line_s(
            match abs_log {
                Some(p) => Some(p@),
                None => None,
            },
            stdout@,
            stderr@,
        ),
{
    match abs_log {
        Some(p) => text2("Build log: ", p),
        None => {
            let e = trim_v(&str_chars(stderr));
            let snippet = if e.len() > 0 {
                e
            } else {
                trim_v(&str_chars(stdout))
            };
            let cut = if snippet.len() > 400 {
                crate::text::subvec(&snippet, 0, 400)
            } else {
                snippet
            };
            let mut v = str_chars("sbuild failed before producing a build log. Captured output:\n");
            push_all(&mut v, &cut);
            proof {
                reveal_strlit("");
            }
            chars_to_string(&v)
        },
    }
}

/// The file name of the source package description: `<pkg>_<version>.dsc`.
pub fn dsc_file_name(pkg_name: &str, version: &str) -> (r: String)
    ensures
        r@ == pkg_name@ + "_"@ + version@ + ".dsc"@,
{
    let mut v = str_chars(pkg_name);
    push_all(&mut v, &str_chars("_"));
    push_all(&mut v, &str_chars(version));
    push_all(&mut v, &str_chars(".dsc"));
    chars_to_string(&v)
}

/// The error when the tarball chosen for reuse is not there.
pub fn reuse_missing_error(vendor: bool, path: &str) -> (r: ThermiteError)
    ensures
        r matches ThermiteError::CommandFailed { cmd, code, stdout, stderr } && code == 0
            && stdout@.len() == 0 && cmd@ == (if vendor {
            "reuse orig-vendor tarball"@
        } else {
            "reuse orig tarball"@
        }) && stderr@ == (if vendor {
            "vendor tarball not found: "@
        } else {
            "tarball not found: "@
        }) + path@ + "\nSelect 'Download' or 'Regenerate' to obtain it first."@,
{
    let mut m = str_chars(if vendor { "vendor tarball not found: " } else { "tarball not found: " });
    push_all(&mut m, &str_chars(path));
    push_all(&mut m, &str_chars("\nSelect 'Download' or 'Regenerate' to obtain it first."));
    ThermiteError::CommandFailed {
        cmd: owned(if vendor { "reuse orig-vendor tarball" } else { "reuse orig tarball" }),
        code: 0,
        stdout: String::new(),
        stderr: chars_to_string(&m),
    }
}

/// The error when a downloaded (or hand-placed) tarball is not there.
pub fn download_missing_error(vendor: bool, path: &str, name: &str, parent: &str) -> (r:
    ThermiteError)
    ensures
        r matches ThermiteError::CommandFailed { cmd, code, stdout, stderr } && code == 0
            && stdout@.len() == 0 && cmd@ == (if vendor {
            "download orig-vendor tarball"@
        } else {
            "download orig tarball"@
        }) && stderr@ == (if vendor {
            "vendor tarball not found: "@
        } else {
            "tarball not found: "@
        }) + path@ + "\nEnsure the file is named exactly '"@ + name@ + "' and placed in '"@
            + parent@ + "'."@,
{
    let mut m = str_chars(if vendor { "vendor tarball not found: " } else { "tarball not found: " });
    push_all(&mut m, &str_chars(path));
    push_all(&mut m, &str_chars("\nEnsure the file is named exactly '"));
    push_all(&mut m, &str_chars(name));
    push_all(&mut m, &str_chars("' and placed in '"));
    push_all(&mut m, &str_chars(parent));
    push_all(&mut m, &str_chars("'."));
    ThermiteError::CommandFailed {
        cmd: owned(if vendor { "download orig-vendor tarball" } else { "download orig tarball" }),
        code: 0,
        stdout: String::new(),
        stderr: chars_to_string(&m),
    }
}

/// The lines of the box listing the autopkgtest trigger URLs.
pub fn autopkgtest_url_lines(urls: &Vec<String>) -> (r: Vec<String>)
    ensures
        string_views(r@) == seq![
            "Click each URL to trigger an autopkgtest run for that architecture."@,
            "Re-run the command to check status after a few minutes."@,
            seq![],
        ] + string_views(urls@) + seq![
            seq![],
            "Note: the self-build test has been disabled for this backport."@,
            "All other tests must pass before requesting archive upload."@,
        ],
{
    let mut out: Vec<String> = Vec::new();
    out.push(owned("Click each URL to trigger an autopkgtest run for that architecture."));
    out.push(owned("Re-run the command to check status after a few minutes."));
    out.push(String::new());
    let ghost head = string_views(out@);
    let mut i: usize = 0;
    while i < urls.len()
        invariant
            i <= urls.len(),
            string_views(out@) == head + string_views(urls@).take(i as int),
        decreases urls.len() - i,
    {
        let ghost o = string_views(out@);
        let s = owned(urls[i].as_str());
        let ghost sv = s@;
        out.push(s);
        assert(string_views(out@) =~= o.push(sv));
        assert(string_views(urls@).take(i + 1) =~= string_views(urls@).take(i as int).push(
            string_views(urls@)[i as int],
        ));
        i = i + 1;
    }
    assert(string_views(urls@).take(i as int) =~= string_views(urls@));
    let ghost o = string_views(out@);
    out.push(String::new());
    out.push(owned("Note: the self-build test has been disabled for this backport."));
    out.push(owned("All other tests must pass before requesting archive upload."));
    assert(string_views(out@) =~= o + seq![
        seq![],
        "Note: the self-build test has been disabled for this backport."@,
        "All other tests must pass before requesting archive upload."@,
    ]);
    out
}

/// The bug link given with an archive upload request.
pub fn archive_bug_link(lp_bug: Option<&str>) -> (r: String)
    ensures
        r@ == "  • Bug link      : https://bugs.launchpad.net/ubuntu/+bug/"@ + match lp_bug {
            Some(b) => b@,
            None => "<no bug>"@,
        },
{
    text2(
        "  • Bug link      : https://bugs.launchpad.net/ubuntu/+bug/",
        match lp_bug {
            Some(b) => b,
            None => "<no bug>",
        },
    )
}

} // verus!
