//! git: what a repository must hold, and the commit a log search found.
use vstd::prelude::*;

use crate::error::ThermiteError;
use crate::text::{
    chars_to_string, copy_chars, dv, owned, push_all, split_whitespace, str_chars, words_s,
};

verus! {

/// A Debian package root holds both `debian/changelog` and `debian/watch`;
/// otherwise the error names the directory.
pub fn check_debian_package_root(dir: &str, has_changelog: bool, has_watch: bool) -> (r: Result<
    (),
    ThermiteError,
>)
    ensures
        has_changelog && has_watch ==> r is Ok,
        !(has_changelog && has_watch) ==> (r matches Err(ThermiteError::NotADebianPackageRoot(d))
            && d@ == dir@),
{
    if !has_changelog || !has_watch {
        return Err(ThermiteError::NotADebianPackageRoot(owned(dir)));
    }
    Ok(())
}

/// The commit hash that `git log --oneline --grep <needle> -n 1 <branch>`
/// printed: its first word.  An error naming the search when it printed
/// nothing.
pub fn commit_from_log(stdout: &str, branch: &str, needle: &str) -> (r: Result<String, ThermiteError>)
    ensures
        words_s(stdout@).len() > 0 ==> (r matches Ok(h) && h@ == words_s(stdout@)[0]),
        words_s(stdout@).len() == 0 ==> (r matches Err(
            ThermiteError::CommandFailed { cmd, code, stdout: out, stderr },
        ) && cmd@ == "git log --grep '"@ + needle@ + "' "@ + branch@ && code == 0 && out@.len()
            == 0 && stderr@ == "no matching commit found"@),
{
    let ws = split_whitespace(&str_chars(stdout));
    if ws.len() > 0 {
        assert(dv(ws@)[0] == ws@[0]@);
        return Ok(chars_to_string(&copy_chars(&ws[0])));
    }
    let mut cmd = str_chars("git log --grep '");
    push_all(&mut cmd, &str_chars(needle));
    push_all(&mut cmd, &str_chars("' "));
    push_all(&mut cmd, &str_chars(branch));
    Err(
        ThermiteError::CommandFailed {
            cmd: chars_to_string(&cmd),
            code: 0,
            stdout: String::new(),
            stderr: owned("no matching commit found"),
        },
    )
}

} // verus!
