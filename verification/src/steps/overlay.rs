//! Unpacking source tarballs over a packaging repository: `tar` command
//! lines.
use vstd::prelude::*;

use crate::text::{owned, string_views};

verus! {

/// The arguments of `tar` for unpacking the orig tarball into `repo_dir`,
/// dropping its top-level directory.
pub fn orig_overlay_args(tarball: &str, repo_dir: &str) -> (r: Vec<String>)
    ensures
        string_views(r@) == seq![
            "-xJf"@,
            tarball@,
            "-C"@,
            repo_dir@,
            "--strip-components=1"@,
        ],
{
    let mut r: Vec<String> = Vec::new();
    r.push(owned("-xJf"));
    r.push(owned(tarball));
    r.push(owned("-C"));
    r.push(owned(repo_dir));
    r.push(owned("--strip-components=1"));
    assert(string_views(r@) =~= seq!["-xJf"@, tarball@, "-C"@, repo_dir@, "--strip-components=1"@]);
    r
}

/// The arguments of `tar` for unpacking the orig-vendor tarball (whose
/// top-level directory is `vendor/`) into `repo_dir`.
pub fn vendor_overlay_args(tarball: &str, repo_dir: &str) -> (r: Vec<String>)
    ensures
        string_views(r@) == seq!["-xJf"@, tarball@, "-C"@, repo_dir@],
{
    let mut r: Vec<String> = Vec::new();
    r.push(owned("-xJf"));
    r.push(owned(tarball));
    r.push(owned("-C"));
    r.push(owned(repo_dir));
    assert(string_views(r@) =~= seq!["-xJf"@, tarball@, "-C"@, repo_dir@]);
    r
}

} // verus!
