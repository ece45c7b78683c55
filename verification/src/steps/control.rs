//! `debian/control` text: the bootstrap compiler dependencies, the
//! `XS-Vendored-Sources-Rust` field, Windows-only crates and new
//! `Build-Depends` entries.
use vstd::prelude::*;

use crate::error::ThermiteError;
use crate::text::{
    ascii_lowercase, chars_to_string, contains, contains_s, copy_chars, dv, insert_line, lines,
    lines_s, lower_seq, push_all, string_views, push_line, split_char, split_s, starts_with, starts_with_s,
    str_chars, text_file, text_file_s, trim_s, trim_v,
};
use crate::types::versions::ShortRustVersion;

verus! {

// ── Sections of a control file ───────────────────────────────────────────────

/// A continuation line of a field: it starts with a space or a tab.
pub open spec fn is_continuation_s(l: Seq<char>) -> bool {
    l.len() > 0 && (l[0] == ' ' || l[0] == '\t')
}

pub fn is_continuation(l: &Vec<char>) -> (r: bool)
    ensures
        r == is_continuation_s(l@),
{
    l.len() > 0 && (l[0] == ' ' || l[0] == '\t')
}

/// Where a new entry of the field `header` goes, scanning from line `i`:
/// after a line that starts with `header`, and after each continuation line
/// that follows it; the scan stops at the first other line after the field.
pub open spec fn section_insert_from(
    ls: Seq<Seq<char>>,
    header: Seq<char>,
    i: int,
    in_section: bool,
    at: Option<int>,
) -> Option<int>
    decreases ls.len() - i,
{
    if i < 0 || i >= ls.len() {
        at
    } else if starts_with_s(ls[i], header) {
        section_insert_from(ls, header, i + 1, true, Some(i + 1))
    } else if in_section {
        if is_continuation_s(ls[i]) {
            section_insert_from(ls, header, i + 1, true, Some(i + 1))
        } else {
            at
        }
    } else {
        section_insert_from(ls, header, i + 1, false, at)
    }
}

pub open spec fn section_insert_s(ls: Seq<Seq<char>>, header: Seq<char>) -> Option<int> {
    section_insert_from(ls, header, 0, false, None)
}

/// A line of field `header`: one that starts with it, or a continuation
/// line.
pub open spec fn field_line_s(l: Seq<char>, header: Seq<char>) -> bool {
    starts_with_s(l, header) || is_continuation_s(l)
}

/// Line `h0` is the first line that starts with `header`, and the lines
/// from `h0` up to `k` are the lines of that field: `k` is the first line
/// after it that is neither a line starting with `header` nor a
/// continuation line (or the end).
pub open spec fn field_ends_at(ls: Seq<Seq<char>>, header: Seq<char>, h0: int, k: int) -> bool {
    &&& 0 <= h0 < k <= ls.len()
    &&& starts_with_s(ls[h0], header)
    &&& forall|j: int| 0 <= j < h0 ==> !starts_with_s(#[trigger] ls[j], header)
    &&& forall|j: int| h0 <= j < k ==> field_line_s(#[trigger] ls[j], header)
    &&& (k == ls.len() || !field_line_s(ls[k], header))
}

proof fn lemma_section_skip(ls: Seq<Seq<char>>, header: Seq<char>, i: int, h0: int)
    requires
        0 <= i <= h0 <= ls.len(),
        forall|j: int| i <= j < h0 ==> !starts_with_s(#[trigger] ls[j], header),
    ensures
        section_insert_from(ls, header, i, false, None) == section_insert_from(
            ls,
            header,
            h0,
            false,
            None,
        ),
    decreases h0 - i,
{
    if i < h0 {
        assert(!starts_with_s(ls[i], header));
        lemma_section_skip(ls, header, i + 1, h0);
    }
}

proof fn lemma_section_rest(ls: Seq<Seq<char>>, header: Seq<char>, h0: int, i: int)
    requires
        0 <= h0 < i <= ls.len(),
        forall|j: int| h0 <= j < i ==> field_line_s(#[trigger] ls[j], header),
    ensures
        section_insert_from(ls, header, i, true, Some(i)) matches Some(k) && i <= k <= ls.len()
            && (forall|j: int| h0 <= j < k ==> field_line_s(#[trigger] ls[j], header)) && (k
            == ls.len() || !field_line_s(ls[k], header)),
    decreases ls.len() - i,
{
    if i < ls.len() && field_line_s(ls[i], header) {
        assert forall|j: int| h0 <= j < i + 1 implies field_line_s(#[trigger] ls[j], header) by {}
        lemma_section_rest(ls, header, h0, i + 1);
        assert(section_insert_from(ls, header, i, true, Some(i)) == section_insert_from(
            ls,
            header,
            i + 1,
            true,
            Some(i + 1),
        ));
    }
}

/// Where a line is added to field `header`: when some line starts with
/// it, right after the last line of the first such field (its first line
/// or its last continuation line); nowhere when no line starts with it.
pub proof fn lemma_section_insert_place(ls: Seq<Seq<char>>, header: Seq<char>)
    ensures
        (forall|j: int| 0 <= j < ls.len() ==> !starts_with_s(#[trigger] ls[j], header))
            ==> section_insert_s(ls, header) is None,
        forall|h0: int|
            0 <= h0 < ls.len() && starts_with_s(#[trigger] ls[h0], header) && (forall|j: int|
                0 <= j < h0 ==> !starts_with_s(#[trigger] ls[j], header)) ==> (section_insert_s(
                ls,
                header,
            ) matches Some(k) && field_ends_at(ls, header, h0, k)),
{
    if forall|j: int| 0 <= j < ls.len() ==> !starts_with_s(#[trigger] ls[j], header) {
        lemma_section_skip(ls, header, 0, ls.len() as int);
    }
    assert forall|h0: int|
        0 <= h0 < ls.len() && starts_with_s(#[trigger] ls[h0], header) && (forall|j: int|
            0 <= j < h0 ==> !starts_with_s(#[trigger] ls[j], header)) implies (section_insert_s(
        ls,
        header,
    ) matches Some(k) && field_ends_at(ls, header, h0, k)) by {
        lemma_section_skip(ls, header, 0, h0);
        assert(field_line_s(ls[h0], header));
        lemma_section_rest(ls, header, h0, h0 + 1);
        assert(section_insert_from(ls, header, h0, false, None) == section_insert_from(
            ls,
            header,
            h0 + 1,
            true,
            Some(h0 + 1),
        ));
    }
}

/// The position just after the last line of field `header` (see
/// [`section_insert_s`]).
pub fn section_insert(ls: &Vec<Vec<char>>, header: &Vec<char>) -> (r: Option<usize>)
    ensures
        match r {
            Some(k) => section_insert_s(dv(ls@), header@) == Some(k as int) && k <= ls.len(),
            None => section_insert_s(dv(ls@), header@) is None,
        },
{
    let ghost d = dv(ls@);
    let mut in_section = false;
    let mut at: Option<usize> = None;
    let mut i: usize = 0;
    while i < ls.len()
        invariant
            i <= ls.len(),
            d == dv(ls@),
            d.len() == ls.len(),
            match at {
                Some(k) => k <= i,
                None => true,
            },
            section_insert_s(d, header@) == section_insert_from(
                d,
                header@,
                i as int,
                in_section,
                match at {
                    Some(k) => Some(k as int),
                    None => None,
                },
            ),
        decreases ls.len() - i,
    {
        assert(d[i as int] == ls@[i as int]@);
        if starts_with(&ls[i], header) {
            in_section = true;
            at = Some(i + 1);
        } else if in_section {
            if is_continuation(&ls[i]) {
                at = Some(i + 1);
            } else {
                return at;
            }
        }
        i = i + 1;
    }
    at
}

// ── Bootstrap dependencies ───────────────────────────────────────────────────

pub open spec fn rustc_dep_s(v: ShortRustVersion) -> Seq<char> {
    "rustc-"@ + v.render()
}

fn rustc_dep(v: &ShortRustVersion) -> (r: Vec<char>)
    ensures
        r@ == rustc_dep_s(*v),
{
    let mut r = str_chars("rustc-");
    push_all(&mut r, &v.render_chars());
    r
}

/// The dependencies named in the error when some are missing.
pub open spec fn missing_deps_s(content: Seq<char>, old: ShortRustVersion, new: ShortRustVersion) -> Seq<
    char,
> {
    let has_old = contains_s(content, rustc_dep_s(old));
    let has_new = contains_s(content, rustc_dep_s(new));
    if !has_old && !has_new {
        rustc_dep_s(old) + ", "@ + rustc_dep_s(new)
    } else if !has_old {
        rustc_dep_s(old)
    } else {
        rustc_dep_s(new)
    }
}

/// Verify that the text of `debian/control` names both bootstrapping
/// compilers, `rustc-<old>` and `rustc-<new>`.  When either is missing the
/// error lists what is missing.
pub fn verify_bootstrap_deps(content: &str, old: &ShortRustVersion, new: &ShortRustVersion) -> (r:
    Result<(), ThermiteError>)
    ensures
        contains_s(content@, rustc_dep_s(*old)) && contains_s(content@, rustc_dep_s(*new)) ==> r
            is Ok,
        !(contains_s(content@, rustc_dep_s(*old)) && contains_s(content@, rustc_dep_s(*new))) ==> (
        r matches Err(ThermiteError::CommandFailed { cmd, code, stdout, stderr }) && cmd@
            == "verify bootstrap deps"@ && code == 0 && stdout@.len() == 0 && stderr@
            == "Expected bootstrap Build-Depends not found in debian/control: "@ + missing_deps_s(
            content@,
            *old,
            *new,
        )),
{
    let text = str_chars(content);
    let old_dep = rustc_dep(old);
    let new_dep = rustc_dep(new);
    let has_old = contains(&text, &old_dep);
    let has_new = contains(&text, &new_dep);
    if has_old && has_new {
        return Ok(());
    }
    let mut msg = str_chars("Expected bootstrap Build-Depends not found in debian/control: ");
    if !has_old && !has_new {
        push_all(&mut msg, &old_dep);
        push_all(&mut msg, &str_chars(", "));
        push_all(&mut msg, &new_dep);
    } else if !has_old {
        push_all(&mut msg, &old_dep);
    } else {
        push_all(&mut msg, &new_dep);
    }
    Err(
        ThermiteError::CommandFailed {
            cmd: chars_to_string(&str_chars("verify bootstrap deps")),
            code: 0,
            stdout: String::new(),
            stderr: chars_to_string(&msg),
        },
    )
}

// ── XS-Vendored-Sources-Rust ─────────────────────────────────────────────────

pub open spec fn xs_field_s(v: Seq<char>) -> Seq<char> {
    "XS-Vendored-Sources-Rust: "@ + v
}

/// First line at or after `i` that starts with `XS-Vendored-Sources-Rust:`.
pub open spec fn xs_header_from(ls: Seq<Seq<char>>, i: int) -> Option<int>
    decreases ls.len() - i,
{
    if i < 0 || i >= ls.len() {
        None
    } else if starts_with_s(ls[i], "XS-Vendored-Sources-Rust:"@) {
        Some(i)
    } else {
        xs_header_from(ls, i + 1)
    }
}

/// First line at or after `i` that is not a continuation line.
pub open spec fn continuation_end(ls: Seq<Seq<char>>, i: int) -> int
    decreases ls.len() - i,
{
    if i < 0 || i >= ls.len() || !is_continuation_s(ls[i]) {
        i
    } else {
        continuation_end(ls, i + 1)
    }
}

/// The control file's lines with the first `XS-Vendored-Sources-Rust` field
/// (header and continuation lines) replaced by a one-line field holding
/// `v`, or with that field appended when there is none.
pub open spec fn update_xs_lines_s(ls: Seq<Seq<char>>, v: Seq<char>) -> Seq<Seq<char>> {
    match xs_header_from(ls, 0) {
        Some(i) => ls.take(i) + seq![xs_field_s(v)] + ls.skip(continuation_end(ls, i + 1)),
        None => ls.push(xs_field_s(v)),
    }
}

proof fn lemma_continuation_end(ls: Seq<Seq<char>>, i: int)
    requires
        0 <= i <= ls.len(),
    ensures
        i <= continuation_end(ls, i) <= ls.len(),
    decreases ls.len() - i,
{
    if i < ls.len() && is_continuation_s(ls[i]) {
        lemma_continuation_end(ls, i + 1);
    }
}

proof fn lemma_xs_header_first(ls: Seq<Seq<char>>, i: int, h: int)
    requires
        0 <= i <= h < ls.len(),
        starts_with_s(ls[h], "XS-Vendored-Sources-Rust:"@),
        forall|j: int| i <= j < h ==> !starts_with_s(#[trigger] ls[j], "XS-Vendored-Sources-Rust:"@),
    ensures
        xs_header_from(ls, i) == Some(h),
    decreases h - i,
{
    if i < h {
        assert(!starts_with_s(ls[i], "XS-Vendored-Sources-Rust:"@));
        lemma_xs_header_first(ls, i + 1, h);
    }
}

proof fn lemma_xs_header_none(ls: Seq<Seq<char>>, i: int)
    requires
        0 <= i <= ls.len(),
        forall|j: int| i <= j < ls.len() ==> !starts_with_s(#[trigger] ls[j], "XS-Vendored-Sources-Rust:"@),
    ensures
        xs_header_from(ls, i) is None,
    decreases ls.len() - i,
{
    if i < ls.len() {
        assert(!starts_with_s(ls[i], "XS-Vendored-Sources-Rust:"@));
        lemma_xs_header_none(ls, i + 1);
    }
}

proof fn lemma_continuation_run(ls: Seq<Seq<char>>, i: int)
    requires
        0 <= i <= ls.len(),
    ensures
        i <= continuation_end(ls, i) <= ls.len(),
        forall|j: int| i <= j < continuation_end(ls, i) ==> is_continuation_s(#[trigger] ls[j]),
        continuation_end(ls, i) == ls.len() || !is_continuation_s(ls[continuation_end(ls, i)]),
    decreases ls.len() - i,
{
    if i < ls.len() && is_continuation_s(ls[i]) {
        lemma_continuation_run(ls, i + 1);
    }
}

/// How `XS-Vendored-Sources-Rust` is set to `v`: when a line starts with
/// the field's name (first at line `h`), that line and the continuation
/// lines right after it (up to line `e`) are replaced by the one line
/// `XS-Vendored-Sources-Rust: <v>`, all other lines staying as they are;
/// without the field, that line is appended.  Setting the field twice
/// leaves what the second setting gives.
pub proof fn lemma_xs_field_set(ls: Seq<Seq<char>>, v: Seq<char>, w: Seq<char>)
    ensures
        (forall|j: int| 0 <= j < ls.len() ==> !starts_with_s(#[trigger] ls[j], "XS-Vendored-Sources-Rust:"@))
            ==> update_xs_lines_s(ls, v) == ls.push("XS-Vendored-Sources-Rust: "@ + v),
        forall|h: int|
            0 <= h < ls.len() && starts_with_s(#[trigger] ls[h], "XS-Vendored-Sources-Rust:"@) && (
            forall|j: int| 0 <= j < h ==> !starts_with_s(#[trigger] ls[j], "XS-Vendored-Sources-Rust:"@))
                ==> exists|e: int|
                h < e <= ls.len() && (forall|j: int| h < j < e ==> is_continuation_s(#[trigger] ls[j]))
                    && (e == ls.len() || !is_continuation_s(ls[e])) && update_xs_lines_s(ls, v)
                    == #[trigger] (ls.take(h) + seq!["XS-Vendored-Sources-Rust: "@ + v] + ls.skip(e)),
        update_xs_lines_s(update_xs_lines_s(ls, v), w) == update_xs_lines_s(ls, w),
{
    let hd = "XS-Vendored-Sources-Rust:"@;
    reveal_strlit("XS-Vendored-Sources-Rust:");
    reveal_strlit("XS-Vendored-Sources-Rust: ");
    assert forall|h: int|
        0 <= h < ls.len() && starts_with_s(#[trigger] ls[h], hd) && (forall|j: int|
            0 <= j < h ==> !starts_with_s(#[trigger] ls[j], hd)) implies exists|e: int|
        h < e <= ls.len() && (forall|j: int| h < j < e ==> is_continuation_s(#[trigger] ls[j])) && (e
            == ls.len() || !is_continuation_s(ls[e])) && update_xs_lines_s(ls, v)
            == #[trigger] (ls.take(h) + seq![xs_field_s(v)] + ls.skip(e)) by {
        lemma_xs_header_first(ls, 0, h);
        lemma_continuation_run(ls, h + 1);
        let e = continuation_end(ls, h + 1);
        assert(update_xs_lines_s(ls, v) == ls.take(h) + seq![xs_field_s(v)] + ls.skip(e));
        assert(h < e <= ls.len() && (forall|j: int| h < j < e ==> is_continuation_s(#[trigger] ls[j]))
            && (e == ls.len() || !is_continuation_s(ls[e])));
    }
    if forall|j: int| 0 <= j < ls.len() ==> !starts_with_s(#[trigger] ls[j], hd) {
        lemma_xs_header_none(ls, 0);
    }
    // Setting twice.
    let f1 = xs_field_s(v);
    let f2 = xs_field_s(w);
    let u = update_xs_lines_s(ls, v);
    assert(starts_with_s(f1, hd)) by {
        assert(f1.subrange(0, hd.len() as int) =~= hd);
    }
    assert(!is_continuation_s(f1)) by {
        assert(f1[0] == 'X');
    }
    match xs_header_from(ls, 0) {
        Some(h) => {
            lemma_xs_header_from_found(ls, 0);
            lemma_continuation_run(ls, h + 1);
            let e = continuation_end(ls, h + 1);
            assert(u =~= ls.take(h) + seq![f1] + ls.skip(e));
            assert(u[h] == f1);
            assert forall|j: int| 0 <= j < h implies !starts_with_s(#[trigger] u[j], hd) by {
                assert(u[j] == ls[j]);
            }
            lemma_xs_header_first(u, 0, h);
            if e < ls.len() {
                assert(u[h + 1] == ls[e]);
            }
            assert(continuation_end(u, h + 1) == h + 1);
            assert(update_xs_lines_s(u, w) =~= ls.take(h) + seq![f2] + ls.skip(e)) by {
                assert(u.take(h) =~= ls.take(h));
                assert(u.skip(h + 1) =~= ls.skip(e));
            }
        },
        None => {
            lemma_xs_header_from_none(ls, 0);
            assert(u == ls.push(f1));
            assert forall|j: int| 0 <= j < ls.len() implies !starts_with_s(#[trigger] u[j], hd) by {
                assert(u[j] == ls[j]);
            }
            lemma_xs_header_first(u, 0, ls.len() as int);
            assert(continuation_end(u, ls.len() as int + 1) == ls.len() + 1);
            assert(update_xs_lines_s(u, w) =~= ls.push(f2)) by {
                assert(u.take(ls.len() as int) =~= ls);
                assert(u.skip(ls.len() as int + 1) =~= Seq::<Seq<char>>::empty());
            }
        },
    }
}

proof fn lemma_xs_header_from_found(ls: Seq<Seq<char>>, i: int)
    requires
        0 <= i,
        xs_header_from(ls, i) is Some,
    ensures
        i <= xs_header_from(ls, i)->0 < ls.len(),
        starts_with_s(ls[xs_header_from(ls, i)->0], "XS-Vendored-Sources-Rust:"@),
        forall|j: int|
            i <= j < xs_header_from(ls, i)->0 ==> !starts_with_s(
                #[trigger] ls[j],
                "XS-Vendored-Sources-Rust:"@,
            ),
    decreases ls.len() - i,
{
    if i < ls.len() && !starts_with_s(ls[i], "XS-Vendored-Sources-Rust:"@) {
        lemma_xs_header_from_found(ls, i + 1);
    }
}

proof fn lemma_xs_header_from_none(ls: Seq<Seq<char>>, i: int)
    requires
        0 <= i,
        xs_header_from(ls, i) is None,
    ensures
        forall|j: int| i <= j < ls.len() ==> !starts_with_s(#[trigger] ls[j], "XS-Vendored-Sources-Rust:"@),
    decreases ls.len() - i,
{
    if i < ls.len() {
        lemma_xs_header_from_none(ls, i + 1);
    }
}

/// The text of `debian/control` with its `XS-Vendored-Sources-Rust` field
/// set to `new_value` (see [`update_xs_lines_s`]).
pub fn update_xs_vendored_sources(content: &str, new_value: &str) -> (r: String)
    ensures
        r@ == text_file_s(update_xs_lines_s(lines_s(content@), new_value@)),
{
    let ls = lines(&str_chars(content));
    let ghost d = dv(ls@);
    let header = str_chars("XS-Vendored-Sources-Rust:");
    let mut field = str_chars("XS-Vendored-Sources-Rust: ");
    push_all(&mut field, &str_chars(new_value));
    let mut i: usize = 0;
    while i < ls.len()
        invariant
            i <= ls.len(),
            d == dv(ls@),
            d.len() == ls.len(),
            d == lines_s(content@),
            header@ == "XS-Vendored-Sources-Rust:"@,
            field@ == xs_field_s(new_value@),
            xs_header_from(d, 0) == xs_header_from(d, i as int),
        decreases ls.len() - i,
    {
        assert(d[i as int] == ls@[i as int]@);
        if starts_with(&ls[i], &header) {
            let mut j = i + 1;
            while j < ls.len() && is_continuation(&ls[j])
                invariant
                    i < j <= ls.len(),
                    d == dv(ls@),
                    d.len() == ls.len(),
                    continuation_end(d, i + 1) == continuation_end(d, j as int),
                decreases ls.len() - j,
            {
                assert(d[j as int] == ls@[j as int]@);
                j = j + 1;
            }
            assert(continuation_end(d, j as int) == j);
            let mut out: Vec<Vec<char>> = Vec::new();
            let mut k: usize = 0;
            while k < i
                invariant
                    k <= i < ls.len(),
                    d == dv(ls@),
                    dv(out@) == d.take(k as int),
                decreases i - k,
            {
                let ghost o = dv(out@);
                let l = copy_chars(&ls[k]);
                let ghost lv = l@;
                out.push(l);
                assert(dv(out@) =~= o.push(lv));
                assert(d.take(k + 1) =~= d.take(k as int).push(d[k as int]));
                k = k + 1;
            }
            let ghost o = dv(out@);
            let ghost fv = field@;
            out.push(field);
            assert(dv(out@) =~= d.take(i as int) + seq![fv]);
            let mut m = j;
            while m < ls.len()
                invariant
                    j <= m <= ls.len(),
                    d == dv(ls@),
                    d.len() == ls.len(),
                    dv(out@) == d.take(i as int) + seq![fv] + d.subrange(j as int, m as int),
                decreases ls.len() - m,
            {
                let ghost o2 = dv(out@);
                let l = copy_chars(&ls[m]);
                let ghost lv = l@;
                out.push(l);
                assert(dv(out@) =~= o2.push(lv));
                assert(d.subrange(j as int, m + 1) =~= d.subrange(j as int, m as int).push(
                    d[m as int],
                ));
                m = m + 1;
            }
            assert(d.subrange(j as int, m as int) =~= d.skip(j as int));
            return chars_to_string(&text_file(&out));
        }
        i = i + 1;
    }
    let out = push_line(&ls, field);
    chars_to_string(&text_file(&out))
}

// ── Windows-only crates ──────────────────────────────────────────────────────

/// A vendored crate entry that looks Windows-only: in ASCII lower case it
/// starts with `windows` or contains `windows-sys`.
pub open spec fn is_windows_crate_s(e: Seq<char>) -> bool {
    starts_with_s(lower_seq(e), "windows"@) || contains_s(lower_seq(e), "windows-sys"@)
}

/// The trimmed entries that look Windows-only, in order.
pub open spec fn windows_entries_s(ps: Seq<Seq<char>>) -> Seq<Seq<char>>
    decreases ps.len(),
{
    if ps.len() == 0 {
        seq![]
    } else {
        (if is_windows_crate_s(trim_s(ps[0])) {
            seq![trim_s(ps[0])]
        } else {
            seq![]
        }) + windows_entries_s(ps.skip(1))
    }
}

/// Check for Windows-related crate names in the comma-separated
/// `XS-Vendored-Sources-Rust` field value, and return them trimmed, in order.
/// The name test is ASCII-case-insensitive; for these ASCII patterns that
/// agrees with Unicode lower-casing.
pub fn check_no_windows_crates(xs_value: &str) -> (r: Vec<String>)
    ensures
        string_views(r@) == windows_entries_s(split_s(xs_value@, ',')),
{
    let parts = split_char(&str_chars(xs_value), ',');
    let ghost d = dv(parts@);
    let prefix = str_chars("windows");
    let sys = str_chars("windows-sys");
    let mut out: Vec<String> = Vec::new();
    let mut i: usize = 0;
    assert(d.skip(0) =~= d);
    assert(string_views(out@) =~= seq![]);
    while i < parts.len()
        invariant
            i <= parts.len(),
            d == dv(parts@),
            d.len() == parts.len(),
            prefix@ == "windows"@,
            sys@ == "windows-sys"@,
            string_views(out@) + windows_entries_s(d.skip(i as int)) == windows_entries_s(d),
        decreases parts.len() - i,
    {
        let ghost rest = d.skip(i as int);
        assert(rest[0] == parts@[i as int]@);
        assert(rest.skip(1) =~= d.skip(i + 1));
        let e = trim_v(&parts[i]);
        let lower = ascii_lowercase(&e);
        let ghost o = string_views(out@);
        if starts_with(&lower, &prefix) || contains(&lower, &sys) {
            out.push(chars_to_string(&e));
            assert(string_views(out@) =~= o + seq![e@]);
            assert(o + windows_entries_s(rest) =~= o + seq![e@] + windows_entries_s(rest.skip(1)));
        } else {
            assert(windows_entries_s(rest) =~= windows_entries_s(rest.skip(1)));
        }
        i = i + 1;
    }
    assert(d.skip(i as int) =~= seq![]);
    assert(string_views(out@) + seq![] =~= string_views(out@));
    out
}

// ── Build-Depends ────────────────────────────────────────────────────────────

/// The control file's lines with ` <dep>,` added at the end of the
/// `Build-Depends` field; unchanged when there is no such field.
pub open spec fn add_build_dependency_lines_s(ls: Seq<Seq<char>>, dep: Seq<char>) -> Seq<
    Seq<char>,
> {
    match section_insert_s(ls, "Build-Depends:"@) {
        Some(k) => ls.insert(k, " "@ + dep + ","@),
        None => ls,
    }
}

/// The text of `debian/control` with `dep` (e.g. `"libonig-dev"`) added to
/// its `Build-Depends` field.
pub fn add_build_dependency(content: &str, dep: &str) -> (r: String)
    ensures
        r@ == text_file_s(add_build_dependency_lines_s(lines_s(content@), dep@)),
{
    let ls = lines(&str_chars(content));
    match section_insert(&ls, &str_chars("Build-Depends:")) {
        Some(k) => {
            let mut entry = str_chars(" ");
            push_all(&mut entry, &str_chars(dep));
            push_all(&mut entry, &str_chars(","));
            let out = insert_line(&ls, k, entry);
            chars_to_string(&text_file(&out))
        },
        None => chars_to_string(&text_file(&ls)),
    }
}

/// Where a new build dependency goes: with a `Build-Depends:` field (first
/// at line `h0`), the line ` <dep>,` is inserted right after the field's
/// last line (its header or last continuation line), every other line
/// keeping its order; without one, the file is left as it is.
pub proof fn lemma_build_dependency_placement(ls: Seq<Seq<char>>, dep: Seq<char>)
    ensures
        (forall|j: int| 0 <= j < ls.len() ==> !starts_with_s(#[trigger] ls[j], "Build-Depends:"@))
            ==> add_build_dependency_lines_s(ls, dep) == ls,
        forall|h0: int|
            0 <= h0 < ls.len() && starts_with_s(#[trigger] ls[h0], "Build-Depends:"@) && (forall|
                j: int,
            | 0 <= j < h0 ==> !starts_with_s(#[trigger] ls[j], "Build-Depends:"@)) ==> exists|k: int|
                field_ends_at(ls, "Build-Depends:"@, h0, k) && add_build_dependency_lines_s(ls, dep)
                    == #[trigger] ls.insert(k, " "@ + dep + ","@),
{
    let h = "Build-Depends:"@;
    lemma_section_insert_place(ls, h);
    assert forall|h0: int|
        0 <= h0 < ls.len() && starts_with_s(#[trigger] ls[h0], h) && (forall|j: int|
            0 <= j < h0 ==> !starts_with_s(#[trigger] ls[j], h)) implies exists|k: int|
        field_ends_at(ls, h, h0, k) && add_build_dependency_lines_s(ls, dep)
            == #[trigger] ls.insert(k, " "@ + dep + ","@) by {
        let k = section_insert_s(ls, h)->0;
        assert(field_ends_at(ls, h, h0, k));
        assert(add_build_dependency_lines_s(ls, dep) == ls.insert(k, " "@ + dep + ","@));
    }
}

} // verus!
