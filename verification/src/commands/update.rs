//! The decisions of the `thermite update` workflow: the tools it needs, the
//! names it derives, and the texts it builds from tool output.
use vstd::prelude::*;

use crate::text::{
    chars_to_string, contains, contains_s, dec_s, dv, lines, lines_s, owned, push_all, push_dec,
    starts_with, starts_with_s, str_chars, string_views,
};
use crate::types::params::UpdateParams;

verus! {

pub open spec fn update_tools_s() -> Seq<Seq<char>> {
    seq![
        "git"@,
        "dch"@,
        "uscan"@,
        "gbp"@,
        "quilt"@,
        "dpkg-buildpackage"@,
        "sbuild"@,
        "lintian"@,
        "cargo"@,
        "rustup"@,
        "dput"@,
        "ppa"@,
        "autopkgtest"@,
        "autopkgtest-buildvm-ubuntu-cloud"@,
    ]
}

/// The external tools the update workflow needs on the `PATH`.
pub fn required_tools() -> (r: Vec<&'static str>)
    ensures
        r@.map_values(|t: &str| t@) == update_tools_s(),
{
    let r: Vec<&'static str> = vec![
        "git",
        "dch",
        "uscan",
        "gbp",
        "quilt",
        "dpkg-buildpackage",
        "sbuild",
        "lintian",
        "cargo",
        "rustup",
        "dput",
        "ppa",
        "autopkgtest",
        "autopkgtest-buildvm-ubuntu-cloud",
    ];
    assert(r@.map_values(|t: &str| t@) =~= update_tools_s());
    r
}

/// The names derived from the parameters of an update.
pub struct UpdateNames {
    /// `rustc-<new X.Y>`.
    pub new_pkg: String,
    /// `rustc-<old X.Y>`.
    pub old_pkg: String,
    /// `merge-<new X.Y>`.
    pub merge_branch: String,
    /// `merge-<old X.Y>`.
    pub old_merge_branch: String,
    /// `import-old-<new X.Y>`.
    pub import_old_branch: String,
    /// `import-new-<new X.Y>`.
    pub import_new_branch: String,
    /// `rustc-<new X.Y>-merge`.
    pub ppa_name: String,
}

fn prefixed2(prefix: &str, body: &Vec<char>) -> (r: String)
    ensures
        r@ == prefix@ + body@,
{
    let mut v = str_chars(prefix);
    push_all(&mut v, body);
    chars_to_string(&v)
}

fn prefixed(prefix: &str, body: &Vec<char>, suffix: &str) -> (r: String)
    ensures
        r@ == prefix@ + body@ + suffix@,
{
    let mut v = str_chars(prefix);
    push_all(&mut v, body);
    push_all(&mut v, &str_chars(suffix));
    chars_to_string(&v)
}

/// The names of an update to `params.rust_update_version`.
pub fn update_names(params: &UpdateParams) -> (r: UpdateNames)
    ensures
        r.new_pkg@ == "rustc-"@ + params.rust_update_version.short_s().render(),
        r.old_pkg@ == "rustc-"@ + params.rust_old_version.short_s().render(),
        r.merge_branch@ == "merge-"@ + params.rust_update_version.short_s().render(),
        r.old_merge_branch@ == "merge-"@ + params.rust_old_version.short_s().render(),
        r.import_old_branch@ == "import-old-"@ + params.rust_update_version.short_s().render()
           ,
        r.import_new_branch@ == "import-new-"@ + params.rust_update_version.short_s().render()
           ,
        r.ppa_name@ == "rustc-"@ + params.rust_update_version.short_s().render() + "-merge"@,
{
    let new_short = params.rust_update_version.short().render_chars();
    let old_short = params.rust_old_version.short().render_chars();
    UpdateNames {
        new_pkg: prefixed2("rustc-", &new_short),
        old_pkg: prefixed2("rustc-", &old_short),
        merge_branch: prefixed2("merge-", &new_short),
        old_merge_branch: prefixed2("merge-", &old_short),
        import_old_branch: prefixed2("import-old-", &new_short),
        import_new_branch: prefixed2("import-new-", &new_short),
        ppa_name: prefixed("rustc-", &new_short, "-merge"),
    }
}

/// The APT source line of a personal PPA for `release`.
pub fn ppa_apt_source(lpuser: &str, ppa_name: &str, release: &str) -> (r: String)
    ensures
        r@ == "deb [trusted=yes] https://ppa.launchpadcontent.net/"@ + lpuser@ + "/"@ + ppa_name@
            + "/ubuntu/ "@ + release@ + " main"@,
{
    let mut v = str_chars("deb [trusted=yes] https://ppa.launchpadcontent.net/");
    push_all(&mut v, &str_chars(lpuser));
    push_all(&mut v, &str_chars("/"));
    push_all(&mut v, &str_chars(ppa_name));
    push_all(&mut v, &str_chars("/ubuntu/ "));
    push_all(&mut v, &str_chars(release));
    push_all(&mut v, &str_chars(" main"));
    chars_to_string(&v)
}

/// The first six lines of the changelog, each indented by four spaces and
/// ended by a line break, as shown after editing it.
pub open spec fn changelog_preview_s(content: Seq<char>) -> Seq<char> {
    preview_from(if lines_s(content).len() > 6 {
        lines_s(content).take(6)
    } else {
        lines_s(content)
    })
}

pub open spec fn preview_from(ls: Seq<Seq<char>>) -> Seq<char>
    decreases ls.len(),
{
    if ls.len() == 0 {
        seq![]
    } else {
        "    "@ + ls[0] + seq!['\n'] + preview_from(ls.skip(1))
    }
}

/// The preview of a changelog's newest lines (see [`changelog_preview_s`]).
pub fn changelog_preview(content: &str) -> (r: String)
    ensures
        r@ == changelog_preview_s(content@),
{
    let ls = lines(&str_chars(content));
    let ghost d = dv(ls@);
    let n: usize = if ls.len() > 6 {
        6
    } else {
        ls.len()
    };
    let ghost shown = if d.len() > 6 {
        d.take(6)
    } else {
        d
    };
    assert(shown.len() == n);
    let mut out: Vec<char> = Vec::new();
    let mut i: usize = 0;
    assert(shown.skip(0) =~= shown);
    while i < n
        invariant
            i <= n <= ls.len(),
            d == dv(ls@),
            d == lines_s(content@),
            shown.len() == n,
            forall|j: int| 0 <= j < n ==> shown[j] == d[j],
            out@ + preview_from(shown.skip(i as int)) == preview_from(shown),
        decreases n - i,
    {
        let ghost rest = shown.skip(i as int);
        assert(rest[0] == ls@[i as int]@);
        assert(rest.skip(1) =~= shown.skip(i + 1));
        let ghost o = out@;
        push_all(&mut out, &str_chars("    "));
        push_all(&mut out, &ls[i]);
        out.push('\n');
        assert(o + preview_from(rest) =~= out@ + preview_from(rest.skip(1)));
        i = i + 1;
    }
    assert(shown.skip(i as int) =~= seq![]);
    assert(out@ + seq![] =~= out@);
    chars_to_string(&out)
}

/// The lines of the "patch refresh" box after `patch_name` failed to apply:
/// the conflicted files (those of the forced merge when it named any, else
/// those of the failed push), indented, then the resolution options.
pub open spec fn patch_conflict_lines_s(
    patch_name: Seq<char>,
    merge_files: Seq<Seq<char>>,
    push_files: Seq<Seq<char>>,
) -> Seq<Seq<char>> {
    let files = if merge_files.len() > 0 {
        merge_files
    } else {
        push_files
    };
    seq![
        "Patch failed: "@ + patch_name,
        seq![],
        "Conflicted files (conflict markers written):"@,
    ] + files.map_values(|f: Seq<char>| "    "@ + f) + seq![
        seq![],
        "Resolution options:"@,
        "  1. Surrounding code changed — verify and re-apply"@,
        "  2. Patch implemented upstream — delete .patch and remove from series"@,
        "  3. Vendored dependency changed — update file paths in .patch"@,
        "  4. Code refactored — preserve patch intent, rewrite as needed"@,
        seq![],
        "After resolving run: quilt refresh"@,
    ]
}

/// The lines of the "patch refresh" box (see [`patch_conflict_lines_s`]).
pub fn patch_conflict_lines(patch_name: &str, merge_files: &Vec<String>, push_files: &Vec<String>) -> (r:
    Vec<String>)
    ensures
        string_views(r@) == patch_conflict_lines_s(
            patch_name@,
            string_views(merge_files@),
            string_views(push_files@),
        ),
{
    let files = if merge_files.len() > 0 {
        merge_files
    } else {
        push_files
    };
    let ghost fv = string_views(files@);
    let mut out: Vec<String> = Vec::new();
    let mut head = str_chars("Patch failed: ");
    push_all(&mut head, &str_chars(patch_name));
    out.push(chars_to_string(&head));
    out.push(String::new());
    out.push(owned("Conflicted files (conflict markers written):"));
    let ghost h = string_views(out@);
    let ghost mapped = fv.map_values(|f: Seq<char>| "    "@ + f);
    let mut i: usize = 0;
    while i < files.len()
        invariant
            i <= files.len(),
            fv == string_views(files@),
            mapped == fv.map_values(|f: Seq<char>| "    "@ + f),
            string_views(out@) == h + mapped.take(i as int),
        decreases files.len() - i,
    {
        let mut l = str_chars("    ");
        push_all(&mut l, &str_chars(files[i].as_str()));
        let s = chars_to_string(&l);
        let ghost sv = s@;
        let ghost o = string_views(out@);
        out.push(s);
        assert(string_views(out@) =~= o.push(sv));
        assert(mapped.take(i + 1) =~= mapped.take(i as int).push(mapped[i as int]));
        i = i + 1;
    }
    assert(mapped.take(i as int) =~= mapped);
    let ghost o = string_views(out@);
    out.push(String::new());
    out.push(owned("Resolution options:"));
    out.push(owned("  1. Surrounding code changed — verify and re-apply"));
    out.push(owned("  2. Patch implemented upstream — delete .patch and remove from series"));
    out.push(owned("  3. Vendored dependency changed — update file paths in .patch"));
    out.push(owned("  4. Code refactored — preserve patch intent, rewrite as needed"));
    out.push(String::new());
    out.push(owned("After resolving run: quilt refresh"));
    assert(string_views(out@) =~= o + seq![
        seq![],
        "Resolution options:"@,
        "  1. Surrounding code changed — verify and re-apply"@,
        "  2. Patch implemented upstream — delete .patch and remove from series"@,
        "  3. Vendored dependency changed — update file paths in .patch"@,
        "  4. Code refactored — preserve patch intent, rewrite as needed"@,
        seq![],
        "After resolving run: quilt refresh"@,
    ]);
    out
}

/// The lines of Lintian output that report a mismatched override of
/// `file-without-copyright-information`, in order.
pub open spec fn mismatched_from(ls: Seq<Seq<char>>) -> Seq<Seq<char>>
    decreases ls.len(),
{
    if ls.len() == 0 {
        seq![]
    } else {
        (if contains_s(ls[0], "mismatched-override file-without-copyright-information"@) {
            seq![ls[0]]
        } else {
            seq![]
        }) + mismatched_from(ls.skip(1))
    }
}

/// The mismatched-override lines of a Lintian run (see [`mismatched_from`]).
pub fn mismatched_overrides(raw: &str) -> (r: Vec<String>)
    ensures
        string_views(r@) == mismatched_from(lines_s(raw@)),
{
    let ls = lines(&str_chars(raw));
    let ghost d = dv(ls@);
    let key = str_chars("mismatched-override file-without-copyright-information");
    let mut out: Vec<String> = Vec::new();
    let mut i: usize = 0;
    assert(d.skip(0) =~= d);
    assert(string_views(out@) =~= seq![]);
    while i < ls.len()
        invariant
            i <= ls.len(),
            d == dv(ls@),
            d.len() == ls.len(),
            d == lines_s(raw@),
            key@ == "mismatched-override file-without-copyright-information"@,
            string_views(out@) + mismatched_from(d.skip(i as int)) == mismatched_from(d),
        decreases ls.len() - i,
    {
        let ghost rest = d.skip(i as int);
        assert(rest[0] == ls@[i as int]@);
        assert(rest.skip(1) =~= d.skip(i + 1));
        let ghost o = string_views(out@);
        if contains(&ls[i], &key) {
            let s = chars_to_string(&ls[i]);
            let ghost sv = s@;
            out.push(s);
            assert(string_views(out@) =~= o + seq![sv]);
            assert(o + mismatched_from(rest) =~= o + seq![sv] + mismatched_from(rest.skip(1)));
        } else {
            assert(mismatched_from(rest) =~= mismatched_from(rest.skip(1)));
        }
        i = i + 1;
    }
    assert(d.skip(i as int) =~= seq![]);
    assert(string_views(out@) + seq![] =~= string_views(out@));
    out
}

/// The number of entries named like a Windows crate (`windows…`).
pub open spec fn windows_stub_count_s(names: Seq<Seq<char>>) -> nat
    decreases names.len(),
{
    if names.len() == 0 {
        0
    } else {
        (if starts_with_s(names[0], "windows"@) {
            1nat
        } else {
            0nat
        }) + windows_stub_count_s(names.skip(1))
    }
}

/// The note on the Windows crate stubs among the entries of `vendor/`.
pub fn windows_stub_report(names: &Vec<String>) -> (r: String)
    ensures
        r@ == if windows_stub_count_s(string_views(names@)) == 0 {
            "  No windows crates found in vendor/ (unexpected — stubs should be present)."@
        } else {
            "  Found "@ + dec_s(windows_stub_count_s(string_views(names@))) +
                " windows crate stub(s). Spot-check that they have empty lib.rs files."@
        },
{
    let ghost ns = string_views(names@);
    let prefix = str_chars("windows");
    let mut count: usize = 0;
    let mut i: usize = 0;
    assert(ns.skip(0) =~= ns);
    while i < names.len()
        invariant
            i <= names.len(),
            ns == string_views(names@),
            ns.len() == names.len(),
            prefix@ == "windows"@,
            count <= i,
            count + windows_stub_count_s(ns.skip(i as int)) == windows_stub_count_s(ns),
        decreases names.len() - i,
    {
        let ghost rest = ns.skip(i as int);
        assert(rest[0] == names@[i as int]@);
        assert(rest.skip(1) =~= ns.skip(i + 1));
        if starts_with(&str_chars(names[i].as_str()), &prefix) {
            count = count + 1;
        }
        i = i + 1;
    }
    assert(ns.skip(i as int) =~= seq![]);
    if count == 0 {
        return owned("  No windows crates found in vendor/ (unexpected — stubs should be present).");
    }
    let mut v = str_chars("  Found ");
    push_dec(&mut v, count as u64);
    push_all(&mut v, &str_chars(" windows crate stub(s). Spot-check that they have empty lib.rs files."));
    chars_to_string(&v)
}

} // verus!
