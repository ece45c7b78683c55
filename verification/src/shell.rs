//! Running external commands: the settings that govern their echo, the
//! command line as it is shown, and the error of a failed run.
use vstd::prelude::*;

use crate::error::ThermiteError;
use crate::text::{chars_to_string, join_s, owned, push_all, str_chars, string_views};

verus! {

/// Output settings of a run, each set once at startup: later settings are
/// ignored; unset, verbosity is off (level 0).
pub struct OutputSettings {
    verbose: Option<bool>,
    level: Option<u8>,
}

impl View for OutputSettings {
    type V = (Option<bool>, Option<u8>);

    closed spec fn view(&self) -> (Option<bool>, Option<u8>) {
        (self.verbose, self.level)
    }
}

impl OutputSettings {
    /// Settings of which none was set yet.
    pub fn new() -> (r: Self)
        ensures
            r@ == (None::<bool>, None::<u8>),
    {
        OutputSettings { verbose: None, level: None }
    }

    /// Enable or disable echoing the commands that are run, unless that was
    /// set already.
    pub fn set_verbose(&mut self, verbose: bool)
        ensures
            final(self)@.0 == (match old(self)@.0 {
                Some(v) => Some(v),
                None => Some(verbose),
            }),
            final(self)@.1 == old(self)@.1,
    {
        if self.verbose.is_none() {
            self.verbose = Some(verbose);
        }
    }

    /// Whether commands are echoed.
    pub fn is_verbose(&self) -> (r: bool)
        ensures
            r == (self@.0 == Some(true)),
    {
        match self.verbose {
            Some(v) => v,
            None => false,
        }
    }

    /// Set the verbosity level (the number of `-v` flags), unless it was set
    /// already.
    pub fn set_verbosity(&mut self, level: u8)
        ensures
            final(self)@.1 == (match old(self)@.1 {
                Some(l) => Some(l),
                None => Some(level),
            }),
            final(self)@.0 == old(self)@.0,
    {
        if self.level.is_none() {
            self.level = Some(level);
        }
    }

    /// The verbosity level (0 when unset).
    pub fn verbosity(&self) -> (r: u8)
        ensures
            r == match self@.1 {
                Some(l) => l,
                None => 0,
            },
    {
        match self.level {
            Some(l) => l,
            None => 0,
        }
    }
}

/// The command line as it is shown: the program, a space, and the
/// arguments separated by spaces.
pub fn display_command(program: &str, args: &Vec<String>) -> (r: String)
    ensures
        r@ == program@ + " "@ + join_s(string_views(args@), " "@),
{
    let mut parts: Vec<Vec<char>> = Vec::new();
    let mut i: usize = 0;
    while i < args.len()
        invariant
            i <= args.len(),
            crate::text::dv(parts@) == string_views(args@).take(i as int),
        decreases args.len() - i,
    {
        let ghost o = crate::text::dv(parts@);
        let a = str_chars(args[i].as_str());
        let ghost av = a@;
        parts.push(a);
        assert(crate::text::dv(parts@) =~= o.push(av));
        assert(string_views(args@).take(i + 1) =~= string_views(args@).take(i as int).push(
            string_views(args@)[i as int],
        ));
        i = i + 1;
    }
    assert(string_views(args@).take(i as int) =~= string_views(args@));
    let mut v = str_chars(program);
    push_all(&mut v, &str_chars(" "));
    push_all(&mut v, &crate::text::join(&parts, &str_chars(" ")));
    chars_to_string(&v)
}

/// The error of a command that exited unsuccessfully: its command line,
/// its exit code (-1 when it was ended by a signal) and its captured output.
pub fn command_failed(display_cmd: &str, code: Option<i32>, stdout: &str, stderr: &str) -> (r:
    ThermiteError)
    ensures
        r matches ThermiteError::CommandFailed { cmd, code: c, stdout: o, stderr: e } && cmd@
            == display_cmd@ && c == (match code {
            Some(x) => x as int,
            None => -1int,
        }) && o@ == stdout@ && e@ == stderr@,
{
    ThermiteError::CommandFailed {
        cmd: owned(display_cmd),
        code: match code {
            Some(x) => x,
            None => -1,
        },
        stdout: owned(stdout),
        stderr: owned(stderr),
    }
}

/// The error when `program` is not on the `PATH`.
pub fn command_not_found(program: &str) -> (r: ThermiteError)
    ensures
        r matches ThermiteError::CommandNotFound(p) && p@ == program@,
{
    ThermiteError::CommandNotFound(owned(program))
}

} // verus!
