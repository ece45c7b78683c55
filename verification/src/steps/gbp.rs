//! `gbp import-orig`: its command line.
use vstd::prelude::*;

use crate::text::{chars_to_string, owned, push_all, str_chars, string_views};

verus! {

/// The arguments of `gbp` for importing `tarball` as a new upstream
/// version on the given branches, with `extra_args` (such as
/// `--component=vendor`) before the tarball.
pub fn import_orig_args(
    tarball: &str,
    upstream_branch: &str,
    debian_branch: &str,
    extra_args: &Vec<String>,
) -> (r: Vec<String>)
    ensures
        string_views(r@) == seq![
            "import-orig"@,
            "--no-symlink-orig"@,
            "--no-pristine-tar"@,
            "--upstream-branch="@ + upstream_branch@,
            "--debian-branch="@ + debian_branch@,
        ] + string_views(extra_args@) + seq![tarball@],
{
    let mut up = str_chars("--upstream-branch=");
    push_all(&mut up, &str_chars(upstream_branch));
    let mut deb = str_chars("--debian-branch=");
    push_all(&mut deb, &str_chars(debian_branch));
    let mut r: Vec<String> = Vec::new();
    r.push(owned("import-orig"));
    r.push(owned("--no-symlink-orig"));
    r.push(owned("--no-pristine-tar"));
    r.push(chars_to_string(&up));
    r.push(chars_to_string(&deb));
    let ghost head = string_views(r@);
    let mut i: usize = 0;
    while i < extra_args.len()
        invariant
            i <= extra_args.len(),
            string_views(r@) == head + string_views(extra_args@).take(i as int),
        decreases extra_args.len() - i,
    {
        let ghost o = string_views(r@);
        let s = owned(extra_args[i].as_str());
        let ghost sv = s@;
        r.push(s);
        assert(string_views(r@) =~= o.push(sv));
        assert(string_views(extra_args@).take(i + 1) =~= string_views(extra_args@).take(
            i as int,
        ).push(string_views(extra_args@)[i as int]));
        i = i + 1;
    }
    assert(string_views(extra_args@).take(i as int) =~= string_views(extra_args@));
    let ghost o = string_views(r@);
    let t = owned(tarball);
    let ghost tv = t@;
    r.push(t);
    assert(string_views(r@) =~= o.push(tv));
    r
}

} // verus!
