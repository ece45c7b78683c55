//! Source tarballs of a backport: their expected names, where on Launchpad
//! they may be found, and which upstream versions the archive holds.
use vstd::prelude::*;

use crate::steps::compat::rmadison_fields_s;
use crate::text::{
    string_views,
    chars_eq, chars_to_string, copy_chars, dv, find, find_s, lines, lines_s, push_all, replace,
    replace_s, split_char, split_s, starts_with, starts_with_s, str_chars, trim_s, trim_v,
};
use crate::types::versions::{RustVersion, ShortRustVersion};

verus! {

/// File base for the rust-toolchain staging PPA on Launchpad, whose published
/// source files already carry the `~<series>` suffix of a previous backport
/// upload.
pub const STAGING_PPA_FILES_BASE: &'static str =
    "https://launchpad.net/~rust-toolchain/+archive/ubuntu/staging/+files";

/// File base for the primary Ubuntu archive on Launchpad, used to reuse the
/// orig (and orig-vendor) tarball published for the same upstream version.
pub const PRIMARY_ARCHIVE_FILES_BASE: &'static str = "https://launchpad.net/ubuntu/+archive/primary/+files";

/// Which of the two backport source tarballs to fetch.
#[derive(Debug, Clone, Copy, PartialEq, Eq, Structural)]
pub enum TarballKind {
    /// `rustc-<short>_<ver>+dfsg~<series>.orig.tar.xz`
    Orig,
    /// `rustc-<short>_<ver>+dfsg~<series>.orig-vendor.tar.xz`
    OrigVendor,
}

impl TarballKind {
    pub open spec fn tail_s(self) -> Seq<char> {
        match self {
            TarballKind::Orig => ".orig.tar.xz"@,
            TarballKind::OrigVendor => ".orig-vendor.tar.xz"@,
        }
    }

    /// The file name ending of this tarball.
    pub fn tail(self) -> (r: &'static str)
        ensures
            r@ == self.tail_s(),
    {
        match self {
            TarballKind::Orig => ".orig.tar.xz",
            TarballKind::OrigVendor => ".orig-vendor.tar.xz",
        }
    }
}

pub open spec fn expected_tarball_name_s(
    short: ShortRustVersion,
    ver: RustVersion,
    dfsg_suffix: Seq<char>,
    kind: TarballKind,
) -> Seq<char> {
    "rustc-"@ + short.render() + "_"@ + ver.render() + "+dfsg"@ + dfsg_suffix + kind.tail_s()
}

/// Build the exact tarball filename expected in the destination directory:
/// `rustc-<short>_<ver>+dfsg<dfsg_suffix><tail>`, where `dfsg_suffix` is
/// `""` for plain update naming or `"~<series>"` for backport naming.
pub fn expected_tarball_name(
    rust_short: &ShortRustVersion,
    rust_ver: &RustVersion,
    dfsg_suffix: &str,
    kind: TarballKind,
) -> (r: String)
    ensures
        r@ == expected_tarball_name_s(*rust_short, *rust_ver, dfsg_suffix@, kind),
{
    let mut n = str_chars("rustc-");
    push_all(&mut n, &rust_short.render_chars());
    push_all(&mut n, &str_chars("_"));
    push_all(&mut n, &rust_ver.render_chars());
    push_all(&mut n, &str_chars("+dfsg"));
    push_all(&mut n, &str_chars(dfsg_suffix));
    push_all(&mut n, &str_chars(kind.tail()));
    chars_to_string(&n)
}

/// Percent-encoding of a file name in a Launchpad `+files` URL path: only
/// `+` needs it (`~` is unreserved).
pub open spec fn encode_launchpad_path_s(name: Seq<char>) -> Seq<char> {
    replace_s(name, seq!['+'], "%2B"@)
}

/// Percent-encode a filename for use in a Launchpad `+files` URL path.
pub fn encode_launchpad_path(name: &str) -> (r: String)
    ensures
        r@ == encode_launchpad_path_s(name@),
{
    let plus = str_chars("+");
    proof {
        reveal_strlit("+");
    }
    assert(plus@ =~= seq!['+']);
    chars_to_string(&replace(&str_chars(name), &plus, &str_chars("%2B")))
}

pub open spec fn launchpad_files_url_s(base: Seq<char>, filename: Seq<char>) -> Seq<char> {
    base + "/"@ + encode_launchpad_path_s(filename)
}

/// The URL of `filename` under a Launchpad `+files` base.
pub fn launchpad_files_url(base: &str, filename: &str) -> (r: String)
    ensures
        r@ == launchpad_files_url_s(base@, filename@),
{
    let mut u = str_chars(base);
    push_all(&mut u, &str_chars("/"));
    push_all(&mut u, &str_chars(encode_launchpad_path(filename).as_str()));
    chars_to_string(&u)
}

/// The upstream part of a package version: the text before its first `-`.
pub open spec fn upstream_part_s(v: Seq<char>) -> Seq<char> {
    split_s(v, '-')[0]
}

/// The distinct upstream parts starting with `prefix` of the versions on the
/// listing lines, in order of first appearance, after those in `found`.
pub open spec fn upstream_scan_s(ls: Seq<Seq<char>>, prefix: Seq<char>, found: Seq<Seq<char>>) -> Seq<
    Seq<char>,
>
    decreases ls.len(),
{
    if ls.len() == 0 {
        found
    } else {
        match rmadison_fields_s(ls[0]) {
            Some(parts) => {
                let up = upstream_part_s(parts[1]);
                if starts_with_s(up, prefix) && !found.contains(up) {
                    upstream_scan_s(ls.skip(1), prefix, found.push(up))
                } else {
                    upstream_scan_s(ls.skip(1), prefix, found)
                }
            },
            None => upstream_scan_s(ls.skip(1), prefix, found),
        }
    }
}

pub open spec fn upstream_versions_s(stdout: Seq<char>, rust_ver: Seq<char>) -> Seq<Seq<char>> {
    upstream_scan_s(lines_s(stdout), rust_ver + "+dfsg"@, seq![])
}

/// The upstream versions found are distinct and all start with the
/// `<rust_ver>+dfsg` prefix.
pub proof fn lemma_upstream_versions_distinct(stdout: Seq<char>, rust_ver: Seq<char>)
    ensures
        forall|i: int, j: int|
            0 <= i < j < upstream_versions_s(stdout, rust_ver).len() ==> upstream_versions_s(
                stdout,
                rust_ver,
            )[i] != upstream_versions_s(stdout, rust_ver)[j],
        forall|i: int|
            0 <= i < upstream_versions_s(stdout, rust_ver).len() ==> starts_with_s(
                #[trigger] upstream_versions_s(stdout, rust_ver)[i],
                rust_ver + "+dfsg"@,
            ),
{
    lemma_upstream_scan(lines_s(stdout), rust_ver + "+dfsg"@, seq![]);
}

proof fn lemma_upstream_scan(ls: Seq<Seq<char>>, prefix: Seq<char>, found: Seq<Seq<char>>)
    requires
        forall|i: int, j: int| 0 <= i < j < found.len() ==> found[i] != found[j],
        forall|i: int| 0 <= i < found.len() ==> starts_with_s(#[trigger] found[i], prefix),
    ensures
        forall|i: int, j: int|
            0 <= i < j < upstream_scan_s(ls, prefix, found).len() ==> upstream_scan_s(
                ls,
                prefix,
                found,
            )[i] != upstream_scan_s(ls, prefix, found)[j],
        forall|i: int|
            0 <= i < upstream_scan_s(ls, prefix, found).len() ==> starts_with_s(
                #[trigger] upstream_scan_s(ls, prefix, found)[i],
                prefix,
            ),
    decreases ls.len(),
{
    if ls.len() > 0 {
        match rmadison_fields_s(ls[0]) {
            Some(parts) => {
                let up = upstream_part_s(parts[1]);
                if starts_with_s(up, prefix) && !found.contains(up) {
                    let nf = found.push(up);
                    assert forall|i: int, j: int| 0 <= i < j < nf.len() implies nf[i] != nf[j] by {
                        if j == found.len() {
                            assert(nf[i] == found[i]);
                            assert(found.contains(found[i]));
                        }
                    }
                    lemma_upstream_scan(ls.skip(1), prefix, nf);
                    assert(upstream_scan_s(ls, prefix, found) == upstream_scan_s(
                        ls.skip(1),
                        prefix,
                        nf,
                    ));
                } else {
                    lemma_upstream_scan(ls.skip(1), prefix, found);
                    assert(upstream_scan_s(ls, prefix, found) == upstream_scan_s(
                        ls.skip(1),
                        prefix,
                        found,
                    ));
                }
            },
            None => {
                lemma_upstream_scan(ls.skip(1), prefix, found);
                assert(upstream_scan_s(ls, prefix, found) == upstream_scan_s(
                    ls.skip(1),
                    prefix,
                    found,
                ));
            },
        }
    }
}

/// The upstream version that a listing line offers: the part before the
/// first `-` of its trimmed version field (the second of at least four
/// `|`-separated fields), when it starts with `prefix`.
pub open spec fn listed_upstream_s(l: Seq<char>, prefix: Seq<char>) -> Option<Seq<char>> {
    match rmadison_fields_s(l) {
        Some(parts) => if starts_with_s(upstream_part_s(parts[1]), prefix) {
            Some(upstream_part_s(parts[1]))
        } else {
            None
        },
        None => None,
    }
}

/// One of the first `q` lines offers `x`.
pub open spec fn offered_before(ls: Seq<Seq<char>>, prefix: Seq<char>, x: Seq<char>, q: int) -> bool {
    exists|p: int| 0 <= p < q && #[trigger] listed_upstream_s(ls[p], prefix) == Some(x)
}

proof fn lemma_offered_step(ls: Seq<Seq<char>>, prefix: Seq<char>, x: Seq<char>, k: int)
    requires
        0 <= k,
    ensures
        offered_before(ls, prefix, x, k + 1) <==> (offered_before(ls, prefix, x, k)
            || listed_upstream_s(ls[k], prefix) == Some(x)),
{
    if offered_before(ls, prefix, x, k + 1) {
        let p = choose|p: int| 0 <= p < k + 1 && #[trigger] listed_upstream_s(ls[p], prefix) == Some(x);
        if p < k {
            assert(offered_before(ls, prefix, x, k));
        }
    }
    if offered_before(ls, prefix, x, k) {
        let p = choose|p: int| 0 <= p < k && #[trigger] listed_upstream_s(ls[p], prefix) == Some(x);
        assert(0 <= p < k + 1 && listed_upstream_s(ls[p], prefix) == Some(x));
    }
    if listed_upstream_s(ls[k], prefix) == Some(x) {
        assert(0 <= k < k + 1 && listed_upstream_s(ls[k], prefix) == Some(x));
    }
}

proof fn lemma_scan_listed(ls: Seq<Seq<char>>, prefix: Seq<char>, k: int, found: Seq<Seq<char>>)
    requires
        0 <= k <= ls.len(),
        forall|x: Seq<char>| #[trigger] found.contains(x) <==> offered_before(ls, prefix, x, k),
        forall|i: int, j: int, q: int|
            0 <= i < j < found.len() && 0 <= q < k && #[trigger] listed_upstream_s(ls[q], prefix)
                == Some(#[trigger] found[j]) ==> offered_before(ls, prefix, #[trigger] found[i], q),
    ensures
        forall|x: Seq<char>|
            #[trigger] upstream_scan_s(ls.skip(k), prefix, found).contains(x) <==> offered_before(
                ls,
                prefix,
                x,
                ls.len() as int,
            ),
        forall|i: int, j: int, q: int|
            0 <= i < j < upstream_scan_s(ls.skip(k), prefix, found).len() && 0 <= q < ls.len()
                && #[trigger] listed_upstream_s(ls[q], prefix) == Some(
                #[trigger] upstream_scan_s(ls.skip(k), prefix, found)[j],
            ) ==> offered_before(
                ls,
                prefix,
                #[trigger] upstream_scan_s(ls.skip(k), prefix, found)[i],
                q,
            ),
    decreases ls.len() - k,
{
    if k == ls.len() {
        assert(ls.skip(k) =~= Seq::<Seq<char>>::empty());
    } else {
        let rest = ls.skip(k);
        assert(rest[0] == ls[k]);
        assert(rest.skip(1) =~= ls.skip(k + 1));
        let g = listed_upstream_s(ls[k], prefix);
        if g is Some && !found.contains(g->0) {
            let up = g->0;
            let nf = found.push(up);
            assert(upstream_scan_s(rest, prefix, found) == upstream_scan_s(ls.skip(k + 1), prefix, nf));
            assert forall|x: Seq<char>| #[trigger] nf.contains(x) <==> offered_before(ls, prefix, x, k + 1) by {
                lemma_offered_step(ls, prefix, x, k);
                if x == up {
                    assert(nf[found.len() as int] == up);
                }
                if found.contains(x) {
                    let idx = choose|idx: int| 0 <= idx < found.len() && found[idx] == x;
                    assert(nf[idx] == x);
                }
                if nf.contains(x) {
                    let idx = choose|idx: int| 0 <= idx < nf.len() && nf[idx] == x;
                    if idx < found.len() {
                        assert(found[idx] == x);
                        assert(found.contains(x));
                    }
                }
            }
            assert forall|i: int, j: int, q: int|
                0 <= i < j < nf.len() && 0 <= q < k + 1 && #[trigger] listed_upstream_s(ls[q], prefix)
                    == Some(#[trigger] nf[j]) implies offered_before(ls, prefix, #[trigger] nf[i], q) by {
                assert(nf[i] == found[i]);
                assert(found.contains(found[i]));
                if j < found.len() {
                    assert(nf[j] == found[j]);
                    if q == k {
                        assert(found.contains(found[j]));
                    }
                } else {
                    if q < k {
                        assert(offered_before(ls, prefix, up, k));
                    }
                }
            }
            lemma_scan_listed(ls, prefix, k + 1, nf);
        } else {
            assert(upstream_scan_s(rest, prefix, found) == upstream_scan_s(ls.skip(k + 1), prefix, found));
            assert forall|x: Seq<char>| #[trigger] found.contains(x) <==> offered_before(ls, prefix, x, k + 1) by {
                lemma_offered_step(ls, prefix, x, k);
            }
            assert forall|i: int, j: int, q: int|
                0 <= i < j < found.len() && 0 <= q < k + 1 && #[trigger] listed_upstream_s(ls[q], prefix)
                    == Some(#[trigger] found[j]) implies offered_before(ls, prefix, #[trigger] found[i], q) by {
                assert(found.contains(found[i]));
                assert(found.contains(found[j]));
            }
            lemma_scan_listed(ls, prefix, k + 1, found);
        }
    }
}

/// The upstream versions found are exactly those that some listing line
/// offers (see [`listed_upstream_s`]), in the order in which they are first
/// offered: for two of them, the earlier one is offered before any line
/// that offers the later one.
pub proof fn lemma_upstream_versions_listed(stdout: Seq<char>, rust_ver: Seq<char>)
    ensures
        forall|x: Seq<char>|
            #[trigger] upstream_versions_s(stdout, rust_ver).contains(x) <==> offered_before(
                lines_s(stdout),
                rust_ver + "+dfsg"@,
                x,
                lines_s(stdout).len() as int,
            ),
        forall|i: int, j: int, q: int|
            0 <= i < j < upstream_versions_s(stdout, rust_ver).len() && 0 <= q < lines_s(stdout).len()
                && #[trigger] listed_upstream_s(lines_s(stdout)[q], rust_ver + "+dfsg"@) == Some(
                #[trigger] upstream_versions_s(stdout, rust_ver)[j],
            ) ==> offered_before(
                lines_s(stdout),
                rust_ver + "+dfsg"@,
                #[trigger] upstream_versions_s(stdout, rust_ver)[i],
                q,
            ),
{
    let ls = lines_s(stdout);
    let e: Seq<Seq<char>> = seq![];
    assert(ls.skip(0) =~= ls);
    lemma_scan_listed(ls, rust_ver + "+dfsg"@, 0, e);
}

/// The text before the first `-`.
fn upstream_part(v: &Vec<char>) -> (r: Vec<char>)
    ensures
        r@ == upstream_part_s(v@),
{
    let pieces = split_char(v, '-');
    proof {
        crate::text::lemma_split_nonempty(v@, '-');
    }
    assert(dv(pieces@)[0] == pieces@[0]@);
    copy_chars(&pieces[0])
}

fn contains_line(found: &Vec<Vec<char>>, x: &Vec<char>) -> (r: bool)
    ensures
        r == dv(found@).contains(x@),
{
    let mut i: usize = 0;
    while i < found.len()
        invariant
            i <= found.len(),
            forall|j: int| 0 <= j < i ==> dv(found@)[j] != x@,
        decreases found.len() - i,
    {
        assert(dv(found@)[i as int] == found@[i as int]@);
        if chars_eq(&found[i], x) {
            assert(dv(found@)[i as int] == x@);
            return true;
        }
        i = i + 1;
    }
    false
}

/// Extract the distinct upstream version strings (e.g. `1.96.1+dfsg`) from
/// `rmadison -u ubuntu rustc-<short>` output for every published source
/// whose upstream part (the version before its first `-`) starts with
/// `<rust_ver>+dfsg`, in order of first appearance.
pub fn parse_rmadison_upstream_versions(stdout: &str, rust_ver: &str) -> (r: Vec<String>)
    ensures
        string_views(r@) == upstream_versions_s(stdout@, rust_ver@),
{
    let ls = lines(&str_chars(stdout));
    let ghost d = dv(ls@);
    let mut prefix = str_chars(rust_ver);
    push_all(&mut prefix, &str_chars("+dfsg"));
    let mut found: Vec<Vec<char>> = Vec::new();
    let mut i: usize = 0;
    assert(d.skip(0) =~= d);
    assert(dv(found@) =~= seq![]);
    while i < ls.len()
        invariant
            i <= ls.len(),
            d == dv(ls@),
            d.len() == ls.len(),
            d == lines_s(stdout@),
            prefix@ == rust_ver@ + "+dfsg"@,
            upstream_versions_s(stdout@, rust_ver@) == upstream_scan_s(
                d.skip(i as int),
                prefix@,
                dv(found@),
            ),
        decreases ls.len() - i,
    {
        let ghost rest = d.skip(i as int);
        assert(rest[0] == ls@[i as int]@);
        assert(rest.skip(1) =~= d.skip(i + 1));
        match crate::steps::compat::rmadison_fields(&ls[i]) {
            Some(parts) => {
                assert(dv(parts@)[1] == parts@[1]@);
                let up = upstream_part(&parts[1]);
                if starts_with(&up, &prefix) && !contains_line(&found, &up) {
                    let ghost o = dv(found@);
                    let ghost uv = up@;
                    found.push(up);
                    assert(dv(found@) =~= o.push(uv));
                }
            },
            None => {},
        }
        i = i + 1;
    }
    assert(d.skip(i as int) =~= seq![]);
    let mut out: Vec<String> = Vec::new();
    let mut k: usize = 0;
    while k < found.len()
        invariant
            k <= found.len(),
            string_views(out@) == dv(found@).take(k as int),
        decreases found.len() - k,
    {
        let ghost o = string_views(out@);
        let s = chars_to_string(&found[k]);
        let ghost sv = s@;
        out.push(s);
        assert(string_views(out@) =~= o.push(sv));
        assert(dv(found@).take(k + 1) =~= dv(found@).take(k as int).push(dv(found@)[k as int]));
        k = k + 1;
    }
    assert(dv(found@).take(k as int) =~= dv(found@));
    out
}

/// A download candidate: the URL and a label for progress messages.
pub struct TarballCandidate {
    pub url: String,
    pub label: String,
}

pub open spec fn staging_candidate_s(name: Seq<char>) -> (Seq<char>, Seq<char>) {
    (
        launchpad_files_url_s(STAGING_PPA_FILES_BASE@, name),
        "staging PPA ("@ + name + ")"@,
    )
}

pub open spec fn archive_candidate_s(short: ShortRustVersion, upstream: Seq<char>, kind: TarballKind) -> (
    Seq<char>,
    Seq<char>,
) {
    let archive_name = "rustc-"@ + short.render() + "_"@ + upstream + kind.tail_s();
    (
        launchpad_files_url_s(PRIMARY_ARCHIVE_FILES_BASE@, archive_name),
        "Ubuntu archive ("@ + archive_name + ")"@,
    )
}

pub open spec fn candidate_views(v: Seq<TarballCandidate>) -> Seq<(Seq<char>, Seq<char>)> {
    v.map_values(|c: TarballCandidate| (c.url@, c.label@))
}

/// Where to look for a tarball, in order: the staging PPA under its expected
/// name, then the primary archive under each upstream version that the
/// `rmadison` listing shows for `rust_ver` (see
/// [`parse_rmadison_upstream_versions`]).
pub fn tarball_candidates(
    rust_short: &ShortRustVersion,
    rust_ver: &RustVersion,
    dfsg_suffix: &str,
    kind: TarballKind,
    rmadison_stdout: &str,
) -> (r: Vec<TarballCandidate>)
    ensures
        candidate_views(r@) == seq![
            staging_candidate_s(
                expected_tarball_name_s(*rust_short, *rust_ver, dfsg_suffix@, kind),
            ),
        ] + upstream_versions_s(rmadison_stdout@, rust_ver.render()).map_values(
            |u: Seq<char>| archive_candidate_s(*rust_short, u, kind),
        ),
{
    let name = expected_tarball_name(rust_short, rust_ver, dfsg_suffix, kind);
    let mut label = str_chars("staging PPA (");
    push_all(&mut label, &str_chars(name.as_str()));
    push_all(&mut label, &str_chars(")"));
    let mut out: Vec<TarballCandidate> = Vec::new();
    out.push(
        TarballCandidate {
            url: launchpad_files_url(STAGING_PPA_FILES_BASE, name.as_str()),
            label: chars_to_string(&label),
        },
    );
    let ver = rust_ver.to_version_string();
    let ups = parse_rmadison_upstream_versions(rmadison_stdout, ver.as_str());
    let ghost uv = string_views(ups@);
    let ghost tail = uv.map_values(|u: Seq<char>| archive_candidate_s(*rust_short, u, kind));
    let ghost head = seq![
        staging_candidate_s(expected_tarball_name_s(*rust_short, *rust_ver, dfsg_suffix@, kind)),
    ];
    assert(candidate_views(out@) =~= head);
    let mut i: usize = 0;
    while i < ups.len()
        invariant
            i <= ups.len(),
            uv == string_views(ups@),
            tail == uv.map_values(|u: Seq<char>| archive_candidate_s(*rust_short, u, kind)),
            candidate_views(out@) == head + tail.take(i as int),
        decreases ups.len() - i,
    {
        let mut archive_name = str_chars("rustc-");
        push_all(&mut archive_name, &rust_short.render_chars());
        push_all(&mut archive_name, &str_chars("_"));
        push_all(&mut archive_name, &str_chars(ups[i].as_str()));
        push_all(&mut archive_name, &str_chars(kind.tail()));
        let an = chars_to_string(&archive_name);
        let mut lab = str_chars("Ubuntu archive (");
        push_all(&mut lab, &archive_name);
        push_all(&mut lab, &str_chars(")"));
        let c = TarballCandidate {
            url: launchpad_files_url(PRIMARY_ARCHIVE_FILES_BASE, an.as_str()),
            label: chars_to_string(&lab),
        };
        assert(uv[i as int] == ups@[i as int]@);
        assert((c.url@, c.label@) == tail[i as int]);
        let ghost o = candidate_views(out@);
        let ghost cv = (c.url@, c.label@);
        out.push(c);
        assert(candidate_views(out@) =~= o.push(cv));
        assert(tail.take(i + 1) =~= tail.take(i as int).push(tail[i as int]));
        i = i + 1;
    }
    assert(tail.take(i as int) =~= tail);
    out
}

/// How one download attempt of a candidate ended.
#[derive(Debug, Clone, Copy, PartialEq, Eq, Structural)]
pub enum DownloadOutcome {
    /// The download tool exited successfully; `nonempty` says whether the
    /// file it left holds any bytes.
    Fetched { nonempty: bool },
    /// Neither `wget` nor `curl` is installed.
    ToolMissing,
    /// The download tool reported a failure.
    Failed,
}

/// What the candidate loop does after an attempt.
#[derive(Debug, Clone, Copy, PartialEq, Eq, Structural)]
pub enum CandidateStep {
    /// Keep the downloaded file: the tarball is fetched.
    Keep,
    /// Remove what was left and try the next candidate.
    TryNext,
    /// Stop trying: no candidate can be downloaded here.
    GiveUp,
}

/// The decision after downloading one candidate: a non-empty file is kept,
/// a missing download tool ends the search, and anything else (an empty
/// file or a failed download) moves on to the next candidate.
pub fn after_download(outcome: DownloadOutcome) -> (r: CandidateStep)
    ensures
        r == match outcome {
            DownloadOutcome::Fetched { nonempty: true } => CandidateStep::Keep,
            DownloadOutcome::ToolMissing => CandidateStep::GiveUp,
            _ => CandidateStep::TryNext,
        },
{
    match outcome {
        DownloadOutcome::Fetched { nonempty } => if nonempty {
            CandidateStep::Keep
        } else {
            CandidateStep::TryNext
        },
        DownloadOutcome::ToolMissing => CandidateStep::GiveUp,
        DownloadOutcome::Failed => CandidateStep::TryNext,
    }
}

} // verus!
