//! Package builds: the autopkgtest self-build stanza, sbuild logs and the
//! failing-test sections they hold.
use vstd::prelude::*;

use crate::text::{
    string_views,
    chars_eq, chars_to_string, contains, contains_s, copy_chars, dv, ends_with, ends_with_s, lines,
    lines_s, push_all, starts_with, starts_with_s, str_chars, text_file, text_file_s, trim_s,
    trim_start_s, trim_start_v, trim_v,
};

verus! {

// ── The self-build test stanza ──────────────────────────────────────────────

/// Outcome of attempting to remove the self-build test stanza from
/// `debian/tests/control`.
#[derive(Debug, PartialEq, Eq, Clone, Copy, Structural)]
pub enum SelfBuildTestOutcome {
    /// The self-build stanza was recognised and removed.
    Removed,
    /// The self-build marker was not present (already absent).
    AlreadyAbsent,
    /// The marker line was found, but the surrounding stanza does not match
    /// any known shape; the file is to be left untouched.
    NeedsManualIntervention,
}

pub open spec fn selfbuild_marker_s() -> Seq<char> {
    "Test-Command: ./debian/rules build RUST_TEST_SELFBUILD=1"@
}

/// The 3-line self-build stanza of older Rust packaging.
pub open spec fn stanza_a_s() -> Seq<Seq<char>> {
    seq![
        "Test-Command: ./debian/rules build RUST_TEST_SELFBUILD=1"@,
        "Depends: @, @builddeps@"@,
        "Restrictions: rw-build-tree, allow-stderr"@,
    ]
}

/// The 6-line self-build stanza of newer Rust packaging: two comments and an
/// `Architecture:` restriction more.
pub open spec fn stanza_b_s() -> Seq<Seq<char>> {
    seq![
        "Test-Command: ./debian/rules build RUST_TEST_SELFBUILD=1"@,
        "Depends: @, @builddeps@"@,
        "Restrictions: rw-build-tree, allow-stderr"@,
        "# Other arches work but are flaky due to memory limitations."@,
        "# Additionally, the test doesn't test for anything arch-specific."@,
        "Architecture: amd64"@,
    ]
}

pub open spec fn is_blank_s(l: Seq<char>) -> bool {
    trim_s(l).len() == 0
}

pub open spec fn is_marker_line_s(l: Seq<char>) -> bool {
    starts_with_s(trim_start_s(l), selfbuild_marker_s())
}

/// First line at or after `i` that carries the self-build marker.
pub open spec fn first_marker_from(ls: Seq<Seq<char>>, i: int) -> Option<int>
    decreases ls.len() - i,
{
    if i < 0 || i >= ls.len() {
        None
    } else if is_marker_line_s(ls[i]) {
        Some(i)
    } else {
        first_marker_from(ls, i + 1)
    }
}

/// First blank line at or after `i`, or the number of lines.
pub open spec fn stanza_end_from(ls: Seq<Seq<char>>, i: int) -> int
    decreases ls.len() - i,
{
    if i < 0 || i >= ls.len() || is_blank_s(ls[i]) {
        i
    } else {
        stanza_end_from(ls, i + 1)
    }
}

/// `ls` without its leading blank lines.
pub open spec fn drop_leading_blanks(ls: Seq<Seq<char>>) -> Seq<Seq<char>>
    decreases ls.len(),
{
    if ls.len() > 0 && is_blank_s(ls[0]) {
        drop_leading_blanks(ls.skip(1))
    } else {
        ls
    }
}

/// The marker stanza is recognised: trimmed, its lines are stanza A or B.
pub open spec fn stanza_known_s(ls: Seq<Seq<char>>, start: int, end: int) -> bool {
    let st = ls.subrange(start, end).map_values(|l: Seq<char>| trim_s(l));
    st == stanza_a_s() || st == stanza_b_s()
}

/// The lines after removing the stanza `start..end` and one adjacent blank
/// line (the one after it, else the one before it), without blank lines
/// left at the top.
pub open spec fn without_stanza_s(ls: Seq<Seq<char>>, start: int, end: int) -> Seq<Seq<char>> {
    let trailing = end < ls.len() && is_blank_s(ls[end]);
    let rs = if trailing {
        start
    } else if start > 0 && is_blank_s(ls[start - 1]) {
        start - 1
    } else {
        start
    };
    let re = if trailing {
        end + 1
    } else {
        end
    };
    drop_leading_blanks(ls.take(rs) + ls.skip(re))
}

/// What removing the self-build stanza from the text of
/// `debian/tests/control` does: the outcome, and the new text when the
/// stanza was removed.  The stanza must start with the marker line, at the
/// top of the file or after a blank line, run to the next blank line, and
/// be stanza A or B once each line is trimmed; otherwise the file is left
/// for manual editing.
pub open spec fn self_build_removal_s(content: Seq<char>) -> (SelfBuildTestOutcome, Option<Seq<char>>) {
    let ls = lines_s(content);
    match first_marker_from(ls, 0) {
        None => (SelfBuildTestOutcome::AlreadyAbsent, None),
        Some(start) => if !(start == 0 || is_blank_s(ls[start - 1])) {
            (SelfBuildTestOutcome::NeedsManualIntervention, None)
        } else if !stanza_known_s(ls, start, stanza_end_from(ls, start)) {
            (SelfBuildTestOutcome::NeedsManualIntervention, None)
        } else {
            (
                SelfBuildTestOutcome::Removed,
                Some(text_file_s(without_stanza_s(ls, start, stanza_end_from(ls, start)))),
            )
        },
    }
}

fn is_blank_line(l: &Vec<char>) -> (r: bool)
    ensures
        r == is_blank_s(l@),
{
    trim_v(l).len() == 0
}

proof fn lemma_stanza_end_bounds(ls: Seq<Seq<char>>, i: int)
    requires
        0 <= i <= ls.len(),
    ensures
        i <= stanza_end_from(ls, i) <= ls.len(),
        stanza_end_from(ls, i) < ls.len() ==> is_blank_s(ls[stanza_end_from(ls, i)]),
        forall|j: int| i <= j < stanza_end_from(ls, i) ==> !is_blank_s(#[trigger] ls[j]),
    decreases ls.len() - i,
{
    if i < ls.len() && !is_blank_s(ls[i]) {
        lemma_stanza_end_bounds(ls, i + 1);
    }
}

/// Whether the trimmed lines `start..end` are the lines of `pattern`.
fn stanza_is(ls: &Vec<Vec<char>>, start: usize, end: usize, pattern: &Vec<&str>) -> (r: bool)
    requires
        start <= end <= ls.len(),
    ensures
        r == (dv(ls@).subrange(start as int, end as int).map_values(|l: Seq<char>| trim_s(l))
            == pattern@.map_values(|p: &str| p@)),
{
    let ghost st = dv(ls@).subrange(start as int, end as int).map_values(|l: Seq<char>| trim_s(l));
    let ghost pv = pattern@.map_values(|p: &str| p@);
    if end - start != pattern.len() {
        assert(st.len() != pv.len());
        return false;
    }
    let mut k: usize = 0;
    while k < pattern.len()
        invariant
            k <= pattern.len(),
            start <= end <= ls.len(),
            end - start == pattern.len(),
            st == dv(ls@).subrange(start as int, end as int).map_values(|l: Seq<char>| trim_s(l)),
            pv == pattern@.map_values(|p: &str| p@),
            forall|j: int| 0 <= j < k ==> st[j] == pv[j],
        decreases pattern.len() - k,
    {
        assert(st[k as int] == trim_s(ls@[start + k]@));
        if !chars_eq(&trim_v(&ls[start + k]), &str_chars(pattern[k])) {
            return false;
        }
        k = k + 1;
    }
    assert(st =~= pv);
    true
}

/// Copy of the lines `lo..hi`.
fn copy_lines(ls: &Vec<Vec<char>>, lo: usize, hi: usize, out: &mut Vec<Vec<char>>)
    requires
        lo <= hi <= ls.len(),
    ensures
        dv(final(out)@) == dv(old(out)@) + dv(ls@).subrange(lo as int, hi as int),
{
    let ghost start = dv(out@);
    let mut i = lo;
    while i < hi
        invariant
            lo <= i <= hi <= ls.len(),
            dv(out@) == start + dv(ls@).subrange(lo as int, i as int),
        decreases hi - i,
    {
        let ghost o = dv(out@);
        let l = copy_chars(&ls[i]);
        let ghost lv = l@;
        out.push(l);
        assert(dv(out@) =~= o.push(lv));
        assert(dv(ls@).subrange(lo as int, i + 1) =~= dv(ls@).subrange(lo as int, i as int).push(
            dv(ls@)[i as int],
        ));
        i = i + 1;
    }
}

/// Remove the autopkgtest self-build stanza from the text of
/// `debian/tests/control` (see [`self_build_removal_s`]): the outcome, and
/// the new text when the stanza was removed.
pub fn disable_self_build_test(content: &str) -> (r: (SelfBuildTestOutcome, Option<String>))
    ensures
        r.0 == self_build_removal_s(content@).0,
        crate::types::package_version::opt_view(r.1) == self_build_removal_s(content@).1,
{
    let ls = lines(&str_chars(content));
    let ghost d = dv(ls@);
    let marker = str_chars("Test-Command: ./debian/rules build RUST_TEST_SELFBUILD=1");
    let mut start: usize = 0;
    while start < ls.len() && !starts_with(&trim_start_v(&ls[start]), &marker)
        invariant
            start <= ls.len(),
            d == dv(ls@),
            d.len() == ls.len(),
            marker@ == selfbuild_marker_s(),
            first_marker_from(d, 0) == first_marker_from(d, start as int),
        decreases ls.len() - start,
    {
        assert(d[start as int] == ls@[start as int]@);
        start = start + 1;
    }
    if start < ls.len() {
        assert(d[start as int] == ls@[start as int]@);
    }
    if start == ls.len() {
        return (SelfBuildTestOutcome::AlreadyAbsent, None);
    }
    assert(first_marker_from(d, 0) == Some(start as int));
    if start > 0 {
        assert(d[start - 1] == ls@[start - 1]@);
    }
    if !(start == 0 || is_blank_line(&ls[start - 1])) {
        return (SelfBuildTestOutcome::NeedsManualIntervention, None);
    }
    let mut end = start;
    while end < ls.len() && !is_blank_line(&ls[end])
        invariant
            start <= end <= ls.len(),
            d == dv(ls@),
            d.len() == ls.len(),
            stanza_end_from(d, start as int) == stanza_end_from(d, end as int),
        decreases ls.len() - end,
    {
        assert(d[end as int] == ls@[end as int]@);
        end = end + 1;
    }
    if end < ls.len() {
        assert(d[end as int] == ls@[end as int]@);
    }
    assert(stanza_end_from(d, start as int) == end);
    let a: Vec<&str> = vec![
        "Test-Command: ./debian/rules build RUST_TEST_SELFBUILD=1",
        "Depends: @, @builddeps@",
        "Restrictions: rw-build-tree, allow-stderr",
    ];
    let b: Vec<&str> = vec![
        "Test-Command: ./debian/rules build RUST_TEST_SELFBUILD=1",
        "Depends: @, @builddeps@",
        "Restrictions: rw-build-tree, allow-stderr",
        "# Other arches work but are flaky due to memory limitations.",
        "# Additionally, the test doesn't test for anything arch-specific.",
        "Architecture: amd64",
    ];
    assert(a@.map_values(|p: &str| p@) =~= stanza_a_s());
    assert(b@.map_values(|p: &str| p@) =~= stanza_b_s());
    if !(stanza_is(&ls, start, end, &a) || stanza_is(&ls, start, end, &b)) {
        return (SelfBuildTestOutcome::NeedsManualIntervention, None);
    }
    let trailing = end < ls.len() && is_blank_line(&ls[end]);
    let rs = if trailing {
        start
    } else if start > 0 && is_blank_line(&ls[start - 1]) {
        start - 1
    } else {
        start
    };
    let re = if trailing {
        end + 1
    } else {
        end
    };
    let mut kept: Vec<Vec<char>> = Vec::new();
    copy_lines(&ls, 0, rs, &mut kept);
    let n = ls.len();
    copy_lines(&ls, re, n, &mut kept);
    assert(d.subrange(0, rs as int) =~= d.take(rs as int));
    assert(d.subrange(re as int, n as int) =~= d.skip(re as int));
    let ghost k = dv(kept@);
    let mut first: usize = 0;
    assert(k.skip(0) =~= k);
    while first < kept.len() && is_blank_line(&kept[first])
        invariant
            first <= kept.len(),
            k == dv(kept@),
            k.len() == kept.len(),
            drop_leading_blanks(k) == drop_leading_blanks(k.skip(first as int)),
        decreases kept.len() - first,
    {
        assert(k.skip(first as int)[0] == kept@[first as int]@);
        assert(k.skip(first as int).skip(1) =~= k.skip(first + 1));
        first = first + 1;
    }
    if first < kept.len() {
        assert(k.skip(first as int)[0] == kept@[first as int]@);
    }
    let mut out: Vec<Vec<char>> = Vec::new();
    let m = kept.len();
    copy_lines(&kept, first, m, &mut out);
    assert(k.subrange(first as int, m as int) =~= k.skip(first as int));
    assert(dv(out@) =~= k.skip(first as int));
    (SelfBuildTestOutcome::Removed, Some(chars_to_string(&text_file(&out))))
}

// ── sbuild ──────────────────────────────────────────────────────────────────

/// A stream of captured output under a heading, ending in a line break.
pub open spec fn log_part_s(heading: Seq<char>, s: Seq<char>) -> Seq<char> {
    if s.len() == 0 {
        seq![]
    } else if s.last() == '\n' {
        heading + s
    } else {
        heading + s + seq!['\n']
    }
}

/// The text of the log written when sbuild fails before creating its own:
/// its stdout and stderr under headings, or a note that it printed nothing.
pub open spec fn sbuild_failure_log_s(stdout: Seq<char>, stderr: Seq<char>) -> Seq<char> {
    let c = log_part_s("=== sbuild stdout ===\n"@, stdout) + log_part_s(
        "=== sbuild stderr ===\n"@,
        stderr,
    );
    if c.len() == 0 {
        "(sbuild produced no output)\n"@
    } else {
        c
    }
}

fn log_part(heading: &str, s: &Vec<char>, out: &mut Vec<char>)
    ensures
        final(out)@ == old(out)@ + log_part_s(heading@, s@),
{
    if s.len() == 0 {
        assert(old(out)@ + seq![] =~= old(out)@);
        return;
    }
    push_all(out, &str_chars(heading));
    push_all(out, s);
    if s[s.len() - 1] != '\n' {
        out.push('\n');
    }
    assert(out@ =~= old(out)@ + log_part_s(heading@, s@));
}

/// The text of the fallback log for an sbuild run that failed before it
/// created a `.build` log.
pub fn sbuild_failure_log(stdout: &str, stderr: &str) -> (r: String)
    ensures
        r@ == sbuild_failure_log_s(stdout@, stderr@),
{
    let mut c: Vec<char> = Vec::new();
    log_part("=== sbuild stdout ===\n", &str_chars(stdout), &mut c);
    log_part("=== sbuild stderr ===\n", &str_chars(stderr), &mut c);
    if c.len() == 0 {
        return chars_to_string(&str_chars("(sbuild produced no output)\n"));
    }
    chars_to_string(&c)
}

/// The arguments of `sbuild`: `-Ad<release>`, then the extra ones.
pub fn sbuild_args(release: &str, extra_args: &Vec<String>) -> (r: Vec<String>)
    ensures
        string_views(r@) == seq!["-Ad"@ + release@] + string_views(extra_args@),
{
    let mut first = str_chars("-Ad");
    push_all(&mut first, &str_chars(release));
    let mut out: Vec<String> = Vec::new();
    out.push(chars_to_string(&first));
    let ghost head = seq!["-Ad"@ + release@];
    assert(string_views(out@) =~= head);
    let mut i: usize = 0;
    while i < extra_args.len()
        invariant
            i <= extra_args.len(),
            string_views(out@) == head + string_views(extra_args@).take(i as int),
        decreases extra_args.len() - i,
    {
        let ghost o = string_views(out@);
        let s = chars_to_string(&str_chars(extra_args[i].as_str()));
        let ghost sv = s@;
        out.push(s);
        assert(string_views(out@) =~= o.push(sv));
        assert(string_views(extra_args@).take(i + 1) =~= string_views(extra_args@).take(
            i as int,
        ).push(string_views(extra_args@)[i as int]));
        i = i + 1;
    }
    assert(string_views(extra_args@).take(i as int) =~= string_views(extra_args@));
    out
}

/// The newest `.build` log among the files of a directory, given as (name,
/// modification time when known): the greatest time, an unknown time below
/// any known one, the last of equally new ones.
pub open spec fn latest_log_from(files: Seq<(Seq<char>, Option<u64>)>, i: int, best: Option<int>) -> Option<
    int,
>
    decreases files.len() - i,
{
    if i < 0 || i >= files.len() {
        best
    } else if ends_with_s(files[i].0, ".build"@) && (match best {
        Some(b) => key_le(files[b].1, files[i].1),
        None => true,
    }) {
        latest_log_from(files, i + 1, Some(i))
    } else {
        latest_log_from(files, i + 1, best)
    }
}

/// `a <= b` for optional times, where an unknown time is the smallest.
pub open spec fn key_le(a: Option<u64>, b: Option<u64>) -> bool {
    match (a, b) {
        (None, _) => true,
        (Some(_), None) => false,
        (Some(x), Some(y)) => x <= y,
    }
}

pub open spec fn log_file_views(v: Seq<(String, Option<u64>)>) -> Seq<(Seq<char>, Option<u64>)> {
    v.map_values(|f: (String, Option<u64>)| (f.0@, f.1))
}

/// Index of the newest sbuild `.build` log among the files of a directory
/// (see [`latest_log_from`]).
pub fn pick_latest_build_log(files: &Vec<(String, Option<u64>)>) -> (r: Option<usize>)
    ensures
        match r {
            Some(k) => latest_log_from(log_file_views(files@), 0, None) == Some(k as int) && k
                < files.len(),
            None => latest_log_from(log_file_views(files@), 0, None) is None,
        },
{
    let ghost fv = log_file_views(files@);
    let tail = str_chars(".build");
    let mut best: Option<usize> = None;
    let mut i: usize = 0;
    while i < files.len()
        invariant
            i <= files.len(),
            fv == log_file_views(files@),
            fv.len() == files.len(),
            tail@ == ".build"@,
            match best {
                Some(b) => b < i,
                None => true,
            },
            latest_log_from(fv, 0, None) == latest_log_from(
                fv,
                i as int,
                match best {
                    Some(b) => Some(b as int),
                    None => None,
                },
            ),
        decreases files.len() - i,
    {
        assert(fv[i as int] == (files@[i as int].0@, files@[i as int].1));
        if ends_with(&str_chars(files[i].0.as_str()), &tail) {
            let take = match best {
                Some(b) => {
                    assert(fv[b as int] == (files@[b as int].0@, files@[b as int].1));
                    match (files[b].1, files[i].1) {
                        (None, _) => true,
                        (Some(_), None) => false,
                        (Some(x), Some(y)) => x <= y,
                    }
                },
                None => true,
            };
            if take {
                best = Some(i);
            }
        }
        i = i + 1;
    }
    best
}

// ── Test failures in an sbuild log ──────────────────────────────────────────

/// The `stdout ----` sections of a log from line `ls[0]` on, where `cur`
/// is the section being collected: a line containing `stdout ----` starts a
/// section, and a blank line or one starting with `----` ends it (an
/// unfinished section at the end is dropped).
pub open spec fn failure_sections_from(ls: Seq<Seq<char>>, cur: Option<Seq<char>>) -> Seq<Seq<char>>
    decreases ls.len(),
{
    if ls.len() == 0 {
        seq![]
    } else if contains_s(ls[0], "stdout ----"@) {
        failure_sections_from(ls.skip(1), Some(ls[0] + seq!['\n']))
    } else {
        match cur {
            Some(buf) => {
                let nb = buf + ls[0] + seq!['\n'];
                if is_blank_s(ls[0]) || starts_with_s(ls[0], "----"@) {
                    seq![nb] + failure_sections_from(ls.skip(1), None)
                } else {
                    failure_sections_from(ls.skip(1), Some(nb))
                }
            },
            None => failure_sections_from(ls.skip(1), None),
        }
    }
}

/// Extract the `stdout ----` sections of an sbuild log, which hold the
/// output of the individual failing tests.
pub fn extract_test_failures(log: &str) -> (r: Vec<String>)
    ensures
        string_views(r@) == failure_sections_from(lines_s(log@), None),
{
    let ls = lines(&str_chars(log));
    let ghost d = dv(ls@);
    let open = str_chars("stdout ----");
    let dashes = str_chars("----");
    let mut out: Vec<String> = Vec::new();
    let mut current: Option<Vec<char>> = None;
    let mut i: usize = 0;
    assert(d.skip(0) =~= d);
    assert(string_views(out@) =~= seq![]);
    while i < ls.len()
        invariant
            i <= ls.len(),
            d == dv(ls@),
            d.len() == ls.len(),
            d == lines_s(log@),
            open@ == "stdout ----"@,
            dashes@ == "----"@,
            string_views(out@) + failure_sections_from(
                d.skip(i as int),
                match current {
                    Some(c) => Some(c@),
                    None => None,
                },
            ) == failure_sections_from(d, None),
        decreases ls.len() - i,
    {
        let ghost rest = d.skip(i as int);
        assert(rest[0] == ls@[i as int]@);
        assert(rest.skip(1) =~= d.skip(i + 1));
        let ghost o = string_views(out@);
        let line = &ls[i];
        if contains(line, &open) {
            let mut c = copy_chars(line);
            c.push('\n');
            assert(c@ =~= rest[0] + seq!['\n']);
            current = Some(c);
        } else {
            match current {
                Some(buf) => {
                    let ghost bv = buf@;
                    let mut nb = buf;
                    push_all(&mut nb, line);
                    nb.push('\n');
                    assert(nb@ =~= bv + rest[0] + seq!['\n']);
                    if is_blank_line(line) || starts_with(line, &dashes) {
                        let s = chars_to_string(&nb);
                        let ghost sv = s@;
                        out.push(s);
                        assert(string_views(out@) =~= o + seq![sv]);
                        assert(o + (seq![sv] + failure_sections_from(rest.skip(1), None)) =~= (o
                            + seq![sv]) + failure_sections_from(rest.skip(1), None));
                        current = None;
                    } else {
                        current = Some(nb);
                    }
                },
                None => {
                    current = None;
                },
            }
        }
        i = i + 1;
    }
    assert(d.skip(i as int) =~= seq![]);
    assert(string_views(out@) + seq![] =~= string_views(out@));
    out
}

/// The file patterns of build output that a clean removes from the parent
/// directory.
pub fn build_artifact_patterns() -> (r: Vec<&'static str>)
    ensures
        r@.map_values(|p: &str| p@) == seq![
            "*.debian.tar.xz"@,
            "*.dsc"@,
            "*.buildinfo"@,
            "*.changes"@,
            "*.ppa.upload"@,
        ],
{
    let r: Vec<&'static str> = vec!["*.debian.tar.xz", "*.dsc", "*.buildinfo", "*.changes", "*.ppa.upload"];
    assert(r@.map_values(|p: &str| p@) =~= seq![
        "*.debian.tar.xz"@,
        "*.dsc"@,
        "*.buildinfo"@,
        "*.changes"@,
        "*.ppa.upload"@,
    ]);
    r
}

} // verus!
