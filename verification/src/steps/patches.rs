//! quilt output: the patch that failed to apply and the files in conflict.
use vstd::prelude::*;

use crate::text::{
    string_views,
    chars_to_string, concat, contains, contains_s, dv, ends_with, ends_with_s, lines, lines_s,
    split_whitespace, starts_with, starts_with_s, str_chars, subvec, trim_s, trim_v, words_s,
};

verus! {

/// The result of a `quilt push` invocation.
#[derive(Debug)]
pub enum QuiltResult {
    /// All patches applied cleanly.
    AllApplied,
    /// A patch failed to apply.
    PatchFailed { patch_name: String, conflicted_files: Vec<String> },
}

/// The name on the last `Applying patch <name>` line at or after the start
/// of `ls`, trimmed; `cur` when there is none.
pub open spec fn last_patch_from(ls: Seq<Seq<char>>, cur: Seq<char>) -> Seq<char>
    decreases ls.len(),
{
    if ls.len() == 0 {
        cur
    } else if starts_with_s(ls[0], "Applying patch "@) {
        last_patch_from(ls.skip(1), trim_s(ls[0].skip("Applying patch "@.len() as int)))
    } else {
        last_patch_from(ls.skip(1), cur)
    }
}

/// The patch named on the last `Applying patch <name>` line of quilt output
/// (empty when there is none).
pub open spec fn failing_patch_name_s(output: Seq<char>) -> Seq<char> {
    last_patch_from(lines_s(output), seq![])
}

/// The name of the patch that quilt was applying when it stopped: the last
/// `Applying patch <name>` line wins.
pub fn parse_failing_patch_name(output: &str) -> (r: String)
    ensures
        r@ == failing_patch_name_s(output@),
{
    let ls = lines(&str_chars(output));
    let ghost d = dv(ls@);
    let prefix = str_chars("Applying patch ");
    let mut name: Vec<char> = Vec::new();
    let mut i: usize = 0;
    assert(d.skip(0) =~= d);
    while i < ls.len()
        invariant
            i <= ls.len(),
            d == dv(ls@),
            d.len() == ls.len(),
            d == lines_s(output@),
            prefix@ == "Applying patch "@,
            last_patch_from(d, seq![]) == last_patch_from(d.skip(i as int), name@),
        decreases ls.len() - i,
    {
        let ghost rest = d.skip(i as int);
        assert(rest[0] == ls@[i as int]@);
        assert(rest.skip(1) =~= d.skip(i + 1));
        if starts_with(&ls[i], &prefix) {
            let n = ls[i].len();
            let tail = subvec(&ls[i], prefix.len(), n);
            assert(tail@ =~= rest[0].skip("Applying patch "@.len() as int));
            name = trim_v(&tail);
        }
        i = i + 1;
    }
    chars_to_string(&name)
}

/// A word that names a file: it holds a `/`, or ends in `.rs` or `.c`.
pub open spec fn is_path_word_s(w: Seq<char>) -> bool {
    contains_s(w, seq!['/']) || ends_with_s(w, ".rs"@) || ends_with_s(w, ".c"@)
}

/// The first word of `ws` that names a file.
pub open spec fn first_path_word(ws: Seq<Seq<char>>) -> Option<Seq<char>>
    decreases ws.len(),
{
    if ws.len() == 0 {
        None
    } else if is_path_word_s(ws[0]) {
        Some(ws[0])
    } else {
        first_path_word(ws.skip(1))
    }
}

/// `s` without trailing `:` characters.
pub open spec fn trim_colons_s(s: Seq<char>) -> Seq<char>
    decreases s.len(),
{
    if s.len() > 0 && s.last() == ':' {
        trim_colons_s(s.drop_last())
    } else {
        s
    }
}

/// The file named on each line that contains `FAILED` (its first word that
/// names a file, without trailing colons), in order.
pub open spec fn conflicted_from(ls: Seq<Seq<char>>) -> Seq<Seq<char>>
    decreases ls.len(),
{
    if ls.len() == 0 {
        seq![]
    } else {
        (if contains_s(ls[0], "FAILED"@) {
            match first_path_word(words_s(ls[0])) {
                Some(w) => seq![trim_colons_s(w)],
                None => seq![],
            }
        } else {
            seq![]
        }) + conflicted_from(ls.skip(1))
    }
}

fn first_path(l: &Vec<char>) -> (r: Option<Vec<char>>)
    ensures
        match r {
            Some(w) => first_path_word(words_s(l@)) == Some(w@),
            None => first_path_word(words_s(l@)) is None,
        },
{
    let ws = split_whitespace(l);
    let ghost d = dv(ws@);
    let slash = str_chars("/");
    let rs = str_chars(".rs");
    let c = str_chars(".c");
    proof {
        reveal_strlit("/");
    }
    assert(slash@ =~= seq!['/']);
    let mut i: usize = 0;
    assert(d.skip(0) =~= d);
    while i < ws.len()
        invariant
            i <= ws.len(),
            d == dv(ws@),
            d.len() == ws.len(),
            d == words_s(l@),
            slash@ == seq!['/'],
            rs@ == ".rs"@,
            c@ == ".c"@,
            first_path_word(d) == first_path_word(d.skip(i as int)),
        decreases ws.len() - i,
    {
        let ghost rest = d.skip(i as int);
        assert(rest[0] == ws@[i as int]@);
        assert(rest.skip(1) =~= d.skip(i + 1));
        let w = &ws[i];
        if contains(w, &slash) || ends_with(w, &rs) || ends_with(w, &c) {
            return Some(crate::text::copy_chars(w));
        }
        i = i + 1;
    }
    None
}

fn trim_colons(s: &Vec<char>) -> (r: Vec<char>)
    ensures
        r@ == trim_colons_s(s@),
{
    let mut i: usize = s.len();
    assert(s@.take(i as int) =~= s@);
    while i > 0 && s[i - 1] == ':'
        invariant
            i <= s.len(),
            trim_colons_s(s@) == trim_colons_s(s@.take(i as int)),
        decreases i,
    {
        assert(s@.take(i as int).drop_last() =~= s@.take(i - 1));
        i = i - 1;
    }
    let r = subvec(s, 0, i);
    assert(r@ =~= s@.take(i as int));
    r
}

/// The files that quilt reports in conflict: for each line containing
/// `FAILED`, its first word that names a file (see [`is_path_word_s`]),
/// without trailing colons.
pub fn parse_conflicted_files(output: &str) -> (r: Vec<String>)
    ensures
        string_views(r@) == conflicted_from(lines_s(output@)),
{
    let ls = lines(&str_chars(output));
    let ghost d = dv(ls@);
    let failed = str_chars("FAILED");
    let mut out: Vec<String> = Vec::new();
    let mut i: usize = 0;
    assert(d.skip(0) =~= d);
    assert(string_views(out@) =~= seq![]);
    while i < ls.len()
        invariant
            i <= ls.len(),
            d == dv(ls@),
            d.len() == ls.len(),
            d == lines_s(output@),
            failed@ == "FAILED"@,
            string_views(out@) + conflicted_from(d.skip(i as int)) == conflicted_from(d),
        decreases ls.len() - i,
    {
        let ghost rest = d.skip(i as int);
        assert(rest[0] == ls@[i as int]@);
        assert(rest.skip(1) =~= d.skip(i + 1));
        let ghost o = string_views(out@);
        if contains(&ls[i], &failed) {
            match first_path(&ls[i]) {
                Some(w) => {
                    let f = trim_colons(&w);
                    let ghost fv = f@;
                    out.push(chars_to_string(&f));
                    assert(string_views(out@) =~= o + seq![fv]);
                    assert(o + conflicted_from(rest) =~= o + seq![fv] + conflicted_from(
                        rest.skip(1),
                    ));
                },
                None => {
                    assert(conflicted_from(rest) =~= conflicted_from(rest.skip(1)));
                },
            }
        } else {
            assert(conflicted_from(rest) =~= conflicted_from(rest.skip(1)));
        }
        i = i + 1;
    }
    assert(d.skip(i as int) =~= seq![]);
    assert(string_views(out@) + seq![] =~= string_views(out@));
    out
}

/// What `quilt push -a` reports when it exits non-zero with the given
/// output: the failing patch, read from both streams together.
pub fn quilt_push_failure(stdout: &str, stderr: &str) -> (r: QuiltResult)
    ensures
        r matches QuiltResult::PatchFailed { patch_name, conflicted_files } && patch_name@
            == failing_patch_name_s(stdout@ + stderr@) && conflicted_files@.len() == 0,
{
    let both = chars_to_string(&concat(&str_chars(stdout), &str_chars(stderr)));
    QuiltResult::PatchFailed {
        patch_name: parse_failing_patch_name(both.as_str()),
        conflicted_files: Vec::new(),
    }
}

/// What `quilt push -f --merge` reports from its combined output: the patch
/// being applied and the files left in conflict.
pub fn quilt_merge_report(combined: &str) -> (r: QuiltResult)
    ensures
        r matches QuiltResult::PatchFailed { patch_name, conflicted_files } && patch_name@
            == failing_patch_name_s(combined@) && string_views(conflicted_files@)
            == conflicted_from(lines_s(combined@)),
{
    QuiltResult::PatchFailed {
        patch_name: parse_failing_patch_name(combined),
        conflicted_files: parse_conflicted_files(combined),
    }
}

} // verus!
