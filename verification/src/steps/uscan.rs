//! uscan: the watch-file version pattern, rate-limit retries and what a run
//! produced.
use vstd::prelude::*;

use crate::error::ThermiteError;
use crate::text::{
    string_views,
    ascii_lowercase, chars_to_string, contains, contains_s, dv, ends_with, ends_with_s, lines,
    lines_s, lower_seq, push_all, replace, replace_s, str_chars,
};

verus! {

/// `X.Y` with each `.` escaped for a regular expression (`X\.Y`).
pub open spec fn regex_escaped_s(s: Seq<char>) -> Seq<char> {
    replace_s(s, seq!['.'], "\\."@)
}

/// The watch file with the series pinned in its URL pattern moved from
/// `old` to `new`: first the regex-escaped form (`1\.84` → `1\.85`), then
/// the literal form (`1.84` → `1.85`).
pub open spec fn update_watch_s(content: Seq<char>, old: Seq<char>, new: Seq<char>) -> Seq<char> {
    replace_s(replace_s(content, regex_escaped_s(old), regex_escaped_s(new)), old, new)
}

fn regex_escaped(s: &Vec<char>) -> (r: Vec<char>)
    ensures
        r@ == regex_escaped_s(s@),
{
    let dot = str_chars(".");
    proof {
        reveal_strlit(".");
    }
    assert(dot@ =~= seq!['.']);
    replace(s, &dot, &str_chars("\\."))
}

/// The text of `debian/watch` with the series in its URL pattern moved from
/// `old_short` to `new_short` (see [`update_watch_s`]).  When the text comes
/// back unchanged the file did not pin `old_short` and may need a manual
/// update.
pub fn update_watch_version(content: &str, old_short: &str, new_short: &str) -> (r: String)
    ensures
        r@ == update_watch_s(content@, old_short@, new_short@),
{
    let old = str_chars(old_short);
    let new = str_chars(new_short);
    let step = replace(&str_chars(content), &regex_escaped(&old), &regex_escaped(&new));
    chars_to_string(&replace(&step, &old, &new))
}

/// The output mentions `403` or, in any ASCII case, `rate limit`.
pub open spec fn mentions_rate_limit_s(s: Seq<char>) -> bool {
    contains_s(lower_seq(s), "403"@) || contains_s(lower_seq(s), "rate limit"@)
}

/// Returns `true` when the uscan output suggests a 403 rate-limit error.
pub fn is_rate_limit_error(stdout: &str, stderr: &str) -> (r: bool)
    ensures
        r == (mentions_rate_limit_s(stdout@) || mentions_rate_limit_s(stderr@)),
{
    mentions_rate_limit(&str_chars(stdout)) || mentions_rate_limit(&str_chars(stderr))
}

fn mentions_rate_limit(s: &Vec<char>) -> (r: bool)
    ensures
        r == mentions_rate_limit_s(s@),
{
    let lower = ascii_lowercase(s);
    contains(&lower, &str_chars("403")) || contains(&lower, &str_chars("rate limit"))
}

/// Seconds to wait before retry `n` (1 to 3) after a rate-limit error.
pub open spec fn retry_delay_s(n: u32) -> Option<u64> {
    if n == 1 {
        Some(15)
    } else if n == 2 {
        Some(30)
    } else if n == 3 {
        Some(60)
    } else {
        None
    }
}

/// The pause before retry `retry` (1 to 3) after a rate-limit error: 15 s,
/// 30 s, then 60 s.
pub fn retry_delay_secs(retry: u32) -> (r: Option<u64>)
    ensures
        r == retry_delay_s(retry),
{
    if retry == 1 {
        Some(15)
    } else if retry == 2 {
        Some(30)
    } else if retry == 3 {
        Some(60)
    } else {
        None
    }
}

/// After attempt `attempt` (0 is the first try) failed: the pause before the
/// next one when the failure was a rate limit and retries remain (three at
/// most), or `None` to give up with the failure.
pub fn next_uscan_retry(attempt: u32, rate_limited: bool) -> (r: Option<u64>)
    ensures
        r == (if rate_limited && attempt < 3 {
            retry_delay_s((attempt + 1) as u32)
        } else {
            None
        }),
        r is Some ==> attempt < 3,
{
    if rate_limited && attempt < 3 {
        retry_delay_secs(attempt + 1)
    } else {
        None
    }
}

/// The orig tarball among the files of a staging directory, given as
/// (name, modification time): the newest file whose name ends in
/// `.orig.tar.xz`, the first of equally new ones.
pub open spec fn produced_from(files: Seq<(Seq<char>, u64)>, i: int, best: Option<int>) -> Option<int>
    decreases files.len() - i,
{
    if i < 0 || i >= files.len() {
        best
    } else if ends_with_s(files[i].0, ".orig.tar.xz"@) && (match best {
        Some(b) => files[i].1 > files[b].1,
        None => true,
    }) {
        produced_from(files, i + 1, Some(i))
    } else {
        produced_from(files, i + 1, best)
    }
}

pub open spec fn file_views(v: Seq<(String, u64)>) -> Seq<(Seq<char>, u64)> {
    v.map_values(|f: (String, u64)| (f.0@, f.1))
}

/// Index of the orig tarball that uscan produced among the files of its
/// staging directory (see [`produced_from`]).
pub fn pick_produced_tarball(files: &Vec<(String, u64)>) -> (r: Option<usize>)
    ensures
        match r {
            Some(k) => produced_from(file_views(files@), 0, None) == Some(k as int) && k
                < files.len(),
            None => produced_from(file_views(files@), 0, None) is None,
        },
{
    let ghost fv = file_views(files@);
    let tail = str_chars(".orig.tar.xz");
    let mut best: Option<usize> = None;
    let mut i: usize = 0;
    while i < files.len()
        invariant
            i <= files.len(),
            fv == file_views(files@),
            fv.len() == files.len(),
            tail@ == ".orig.tar.xz"@,
            match best {
                Some(b) => b < i,
                None => true,
            },
            produced_from(fv, 0, None) == produced_from(
                fv,
                i as int,
                match best {
                    Some(b) => Some(b as int),
                    None => None,
                },
            ),
        decreases files.len() - i,
    {
        assert(fv[i as int] == (files@[i as int].0@, files@[i as int].1));
        let name = str_chars(files[i].0.as_str());
        if ends_with(&name, &tail) {
            let newer = match best {
                Some(b) => {
                    assert(fv[b as int] == (files@[b as int].0@, files@[b as int].1));
                    files[i].1 > files[b].1
                },
                None => true,
            };
            if newer {
                best = Some(i);
            }
        }
        i = i + 1;
    }
    best
}

/// The error when uscan reported success but left no orig tarball in the
/// staging directory `staging`.
pub fn no_produced_tarball_error(staging: &str) -> (r: ThermiteError)
    ensures
        r matches ThermiteError::CommandFailed { cmd, code, stdout, stderr } && cmd@ == "uscan"@
            && code == 0 && stdout@.len() == 0 && stderr@
            == "uscan reported success but no orig tarball (*.orig.tar.xz) was found in "@
            + staging@,
{
    let mut m = str_chars(
        "uscan reported success but no orig tarball (*.orig.tar.xz) was found in ",
    );
    push_all(&mut m, &str_chars(staging));
    ThermiteError::CommandFailed {
        cmd: chars_to_string(&str_chars("uscan")),
        code: 0,
        stdout: String::new(),
        stderr: chars_to_string(&m),
    }
}

/// The lines of a listing that end in `.c`, in order.
pub open spec fn c_files_from(ls: Seq<Seq<char>>) -> Seq<Seq<char>>
    decreases ls.len(),
{
    if ls.len() == 0 {
        seq![]
    } else {
        (if ends_with_s(ls[0], ".c"@) {
            seq![ls[0]]
        } else {
            seq![]
        }) + c_files_from(ls.skip(1))
    }
}

/// The `.c` files in a `tar -t` listing of an archive.
pub fn c_files_in_listing(listing: &str) -> (r: Vec<String>)
    ensures
        string_views(r@) == c_files_from(lines_s(listing@)),
{
    let ls = lines(&str_chars(listing));
    let ghost d = dv(ls@);
    let dot_c = str_chars(".c");
    let mut out: Vec<String> = Vec::new();
    let mut i: usize = 0;
    assert(d.skip(0) =~= d);
    assert(string_views(out@) =~= seq![]);
    while i < ls.len()
        invariant
            i <= ls.len(),
            d == dv(ls@),
            d.len() == ls.len(),
            d == lines_s(listing@),
            dot_c@ == ".c"@,
            string_views(out@) + c_files_from(d.skip(i as int)) == c_files_from(d),
        decreases ls.len() - i,
    {
        let ghost rest = d.skip(i as int);
        assert(rest[0] == ls@[i as int]@);
        assert(rest.skip(1) =~= d.skip(i + 1));
        let ghost o = string_views(out@);
        if ends_with(&ls[i], &dot_c) {
            let s = chars_to_string(&ls[i]);
            let ghost sv = s@;
            out.push(s);
            assert(string_views(out@) =~= o + seq![sv]);
            assert(o + c_files_from(rest) =~= o + seq![sv] + c_files_from(rest.skip(1)));
        } else {
            assert(c_files_from(rest) =~= c_files_from(rest.skip(1)));
        }
        i = i + 1;
    }
    assert(d.skip(i as int) =~= seq![]);
    assert(string_views(out@) + seq![] =~= string_views(out@));
    out
}

} // verus!
