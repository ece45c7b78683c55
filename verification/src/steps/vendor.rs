//! The vendored-crates tarball: its name, the leftovers of other series,
//! and where `rustup` puts a toolchain.
use vstd::prelude::*;

use crate::error::ThermiteError;
use crate::steps::tarball_fetch::{expected_tarball_name, expected_tarball_name_s, TarballKind};
use crate::text::{
    string_views,
    chars_eq, chars_to_string, ends_with, ends_with_s, push_all, starts_with, starts_with_s,
    str_chars,
};
use crate::types::versions::RustVersion;

verus! {

/// The name `debian/rules vendor-tarball` gives the vendor tarball:
/// `rustc-<short>_<version>+dfsg<dfsg_suffix>.orig-vendor.tar.xz`.
pub fn vendor_tarball_name(version: &RustVersion, dfsg_suffix: &str) -> (r: String)
    ensures
        r@ == expected_tarball_name_s(
            version.short_s(),
            *version,
            dfsg_suffix@,
            TarballKind::OrigVendor,
        ),
{
    expected_tarball_name(&version.short(), version, dfsg_suffix, TarballKind::OrigVendor)
}

/// An orig-vendor tarball of `version` other than `expected`: a leftover of
/// a build for another series.
pub open spec fn is_stale_s(name: Seq<char>, version: RustVersion, expected: Seq<char>) -> bool {
    &&& starts_with_s(name, "rustc-"@ + version.short_s().render() + "_"@ + version.render() + "+dfsg"@)
    &&& ends_with_s(name, ".orig-vendor.tar.xz"@)
    &&& name != expected
}

/// Returns `true` when `name` is an orig-vendor tarball for `version`
/// carrying a series suffix other than the expected one.
pub fn is_stale_series_vendor_tarball(name: &str, version: &RustVersion, expected_name: &str) -> (r:
    bool)
    ensures
        r == is_stale_s(name@, *version, expected_name@),
{
    let n = str_chars(name);
    let mut prefix = str_chars("rustc-");
    push_all(&mut prefix, &version.short().render_chars());
    push_all(&mut prefix, &str_chars("_"));
    push_all(&mut prefix, &version.render_chars());
    push_all(&mut prefix, &str_chars("+dfsg"));
    starts_with(&n, &prefix) && ends_with(&n, &str_chars(".orig-vendor.tar.xz")) && !chars_eq(
        &n,
        &str_chars(expected_name),
    )
}

/// The stale tarballs among `names`, in order.
pub open spec fn stale_from(names: Seq<Seq<char>>, version: RustVersion, expected: Seq<char>) -> Seq<
    Seq<char>,
>
    decreases names.len(),
{
    if names.len() == 0 {
        seq![]
    } else {
        (if is_stale_s(names[0], version, expected) {
            seq![names[0]]
        } else {
            seq![]
        }) + stale_from(names.skip(1), version, expected)
    }
}

/// Which of the files `names` in the parent directory to remove before
/// generating the vendor tarball for `version`: in series mode (non-empty
/// `dfsg_suffix`) the orig-vendor tarballs of the version with another
/// suffix; none otherwise.
pub fn stale_vendor_tarballs(names: &Vec<String>, version: &RustVersion, dfsg_suffix: &str) -> (r:
    Vec<String>)
    ensures
        string_views(r@) == if dfsg_suffix@.len() == 0 {
            seq![]
        } else {
            stale_from(
                string_views(names@),
                *version,
                expected_tarball_name_s(
                    version.short_s(),
                    *version,
                    dfsg_suffix@,
                    TarballKind::OrigVendor,
                ),
            )
        },
{
    let mut out: Vec<String> = Vec::new();
    if str_chars(dfsg_suffix).len() == 0 {
        assert(string_views(out@) =~= seq![]);
        return out;
    }
    let expected = vendor_tarball_name(version, dfsg_suffix);
    let ghost ns = string_views(names@);
    let mut i: usize = 0;
    assert(ns.skip(0) =~= ns);
    assert(string_views(out@) =~= seq![]);
    while i < names.len()
        invariant
            i <= names.len(),
            ns == string_views(names@),
            ns.len() == names.len(),
            string_views(out@) + stale_from(ns.skip(i as int), *version, expected@) == stale_from(
                ns,
                *version,
                expected@,
            ),
        decreases names.len() - i,
    {
        let ghost rest = ns.skip(i as int);
        assert(rest[0] == names@[i as int]@);
        assert(rest.skip(1) =~= ns.skip(i + 1));
        let ghost o = string_views(out@);
        if is_stale_series_vendor_tarball(names[i].as_str(), version, expected.as_str()) {
            let s = chars_to_string(&str_chars(names[i].as_str()));
            let ghost sv = s@;
            out.push(s);
            assert(string_views(out@) =~= o + seq![sv]);
            assert(o + stale_from(rest, *version, expected@) =~= o + seq![sv] + stale_from(
                rest.skip(1),
                *version,
                expected@,
            ));
        } else {
            assert(stale_from(rest, *version, expected@) =~= stale_from(
                rest.skip(1),
                *version,
                expected@,
            ));
        }
        i = i + 1;
    }
    assert(ns.skip(i as int) =~= seq![]);
    assert(string_views(out@) + seq![] =~= string_views(out@));
    out
}

/// The error when `debian/rules vendor-tarball` left no tarball at
/// `expected_path`.
pub fn missing_vendor_tarball_error(expected_path: &str) -> (r: ThermiteError)
    ensures
        r matches ThermiteError::CommandFailed { cmd, code, stdout, stderr } && cmd@
            == "debian/rules vendor-tarball"@ && code == 0 && stdout@.len() == 0 && stderr@
            == "expected vendor tarball not found: "@ + expected_path@,
{
    let mut m = str_chars("expected vendor tarball not found: ");
    push_all(&mut m, &str_chars(expected_path));
    ThermiteError::CommandFailed {
        cmd: chars_to_string(&str_chars("debian/rules vendor-tarball")),
        code: 0,
        stdout: String::new(),
        stderr: chars_to_string(&m),
    }
}

/// The error when `rustup` is not on the `PATH`, with installation guidance.
pub fn rustup_missing_error() -> (r: ThermiteError)
    ensures
        r matches ThermiteError::CommandNotFound(m) && m@
            == "rustup (install it with: snap install rustup --classic)"@,
{
    ThermiteError::CommandNotFound(
        chars_to_string(&str_chars("rustup (install it with: snap install rustup --classic)")),
    )
}

/// Where `rustup install <version>` puts the toolchain, under the home
/// directory `home`.
pub fn toolchain_dir(home: &str, version: &RustVersion) -> (r: String)
    ensures
        r@ == home@ + "/.rustup/toolchains/"@ + version.render() + "-x86_64-unknown-linux-gnu"@,
{
    let mut p = str_chars(home);
    push_all(&mut p, &str_chars("/.rustup/toolchains/"));
    push_all(&mut p, &version.render_chars());
    push_all(&mut p, &str_chars("-x86_64-unknown-linux-gnu"));
    chars_to_string(&p)
}

} // verus!
