//! The error type shared by every fallible operation of the library.
use vstd::prelude::*;

use crate::text::{chars_to_string, concat, dec_int_s, i32_dec, str_chars};

verus! {

/// The unified error type for thermite operations.
#[derive(Debug)]
pub enum ThermiteError {
    InvalidRustVersion(String),
    UnknownRelease(String),
    /// A child process exited with a non-zero status; both output streams are
    /// kept so that callers can read tool diagnostics from either.
    CommandFailed { cmd: String, code: i32, stdout: String, stderr: String },
    CommandNotFound(String),
    PatchRefreshRequired(String),
    NotADebianPackageRoot(String),
    /// Launchpad username was empty or otherwise invalid.
    InvalidLpUser(String),
    /// Launchpad bug number was not a non-empty digit string.
    InvalidLpBugNumber(String),
    /// Source and target releases for a backport were the same, or the
    /// target was not a concrete release.
    InvalidBackportReleases(String),
    /// An input/output failure, carried as its message.
    Io(String),
}

/// Concatenation of three character sequences.
pub open spec fn cat3(a: Seq<char>, b: Seq<char>, c: Seq<char>) -> Seq<char> {
    a + b + c
}

impl ThermiteError {
    /// The human-readable text of the error.
    pub open spec fn message_s(&self) -> Seq<char> {
        match self {
            ThermiteError::InvalidRustVersion(s) => cat3(
                "invalid Rust version string '"@,
                s@,
                "': expected X.Y.Z format"@,
            ),
            ThermiteError::UnknownRelease(s) => cat3("unknown Ubuntu release '"@, s@, "'"@),
            ThermiteError::CommandFailed { cmd, code, stdout, stderr } => cat3(
                "command '"@,
                cmd@,
                "' failed with exit code "@,
            ) + cat3(dec_int_s(*code as int), ":\n"@, stderr@),
            ThermiteError::CommandNotFound(s) => cat3("command '"@, s@, "' was not found on PATH"@),
            ThermiteError::PatchRefreshRequired(s) => cat3(
                "patch refresh required manual intervention: "@,
                s@,
                ""@,
            ),
            ThermiteError::NotADebianPackageRoot(s) => cat3(
                "debian package root not found at '"@,
                s@,
                "': missing debian/changelog or debian/watch"@,
            ),
            ThermiteError::InvalidLpUser(s) => cat3("invalid Launchpad username: "@, s@, ""@),
            ThermiteError::InvalidLpBugNumber(s) => cat3(
                "invalid Launchpad bug number '"@,
                s@,
                "': must be a non-empty string of digits"@,
            ),
            ThermiteError::InvalidBackportReleases(s) => cat3(
                "invalid backport releases: "@,
                s@,
                ""@,
            ),
            ThermiteError::Io(s) => cat3("IO error: "@, s@, ""@),
        }
    }

    /// The human-readable text of the error (what `Display` prints).
    pub fn message(&self) -> (r: String)
        ensures
            r@ == self.message_s(),
    {
        let v = match self {
            ThermiteError::InvalidRustVersion(s) => wrap3(
                "invalid Rust version string '",
                s.as_str(),
                "': expected X.Y.Z format",
            ),
            ThermiteError::UnknownRelease(s) => wrap3("unknown Ubuntu release '", s.as_str(), "'"),
            ThermiteError::CommandFailed { cmd, code, stdout, stderr } => {
                let a = wrap3("command '", cmd.as_str(), "' failed with exit code ");
                let n = i32_dec(*code);
                let b = concat(&n, &str_chars(":\n"));
                let b = concat(&b, &str_chars(stderr.as_str()));
                concat(&a, &b)
            },
            ThermiteError::CommandNotFound(s) => wrap3(
                "command '",
                s.as_str(),
                "' was not found on PATH",
            ),
            ThermiteError::PatchRefreshRequired(s) => wrap3(
                "patch refresh required manual intervention: ",
                s.as_str(),
                "",
            ),
            ThermiteError::NotADebianPackageRoot(s) => wrap3(
                "debian package root not found at '",
                s.as_str(),
                "': missing debian/changelog or debian/watch",
            ),
            ThermiteError::InvalidLpUser(s) => wrap3("invalid Launchpad username: ", s.as_str(), ""),
            ThermiteError::InvalidLpBugNumber(s) => wrap3(
                "invalid Launchpad bug number '",
                s.as_str(),
                "': must be a non-empty string of digits",
            ),
            ThermiteError::InvalidBackportReleases(s) => wrap3(
                "invalid backport releases: ",
                s.as_str(),
                "",
            ),
            ThermiteError::Io(s) => wrap3("IO error: ", s.as_str(), ""),
        };
        chars_to_string(&v)
    }
}

fn wrap3(a: &str, b: &str, c: &str) -> (r: Vec<char>)
    ensures
        r@ == cat3(a@, b@, c@),
{
    let x = concat(&str_chars(a), &str_chars(b));
    concat(&x, &str_chars(c))
}

} // verus!
