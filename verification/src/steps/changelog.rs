//! `debian/changelog` text: version strings for new entries, backport
//! version arithmetic and the rewriting of the newest entry.
use vstd::prelude::*;

use crate::error::ThermiteError;
use crate::text::{
    dec_s, lemma_dec_digits, lemma_dec_no_char,
    chars_to_string, concat, copy_chars, dv, find, find_s, is_digit, is_digit_char, lacks,
    lemma_find_after_prefix, lemma_is_at_char, lemma_rfind_last, lines, lines_s, push_all,
    replace, replace_s, rfind, rfind_s, str_chars, subvec, text_file, text_file_s, trim_s, trim_v,
};
use crate::types::package_version::{
    backport_parts_agree, lemma_lacks_cat, lemma_version_lacks, opt_dec, opt_dot_dec, opt_view,
    render_version, to_backport_s, tok_0ubuntu, tok_dfsg, VersionFields,
};
use crate::types::versions::RustVersion;

verus! {

// ── New upstream entries ────────────────────────────────────────────────────

/// The Debian version of the first upload of an upstream release.
pub open spec fn debian_version_s(v: RustVersion) -> Seq<char> {
    v.render() + "+dfsg-0ubuntu1"@
}

/// Return the Debian version string for the new upstream Rust release.
///
/// Format: `"<X.Y.Z>+dfsg-0ubuntu1"`
pub fn debian_version_string(version: &RustVersion) -> (r: String)
    ensures
        r@ == debian_version_s(*version),
{
    let mut v = version.render_chars();
    push_all(&mut v, &str_chars("+dfsg-0ubuntu1"));
    chars_to_string(&v)
}

// ── Rewriting the newest entry ──────────────────────────────────────────────

/// A changelog body line whose trimmed text starts with `*` or `-` (a bullet,
/// or the ` -- ` trailer).
pub open spec fn is_bullet_line_s(l: Seq<char>) -> bool {
    let t = trim_s(l);
    t.len() > 0 && (t[0] == '*' || t[0] == '-')
}

/// Index of the first bullet line at or after `j`.
pub open spec fn first_bullet_from(ls: Seq<Seq<char>>, j: int) -> Option<int>
    decreases ls.len() - j,
{
    if j < 0 || j >= ls.len() {
        None
    } else if is_bullet_line_s(ls[j]) {
        Some(j)
    } else {
        first_bullet_from(ls, j + 1)
    }
}

/// The lines with the first bullet after the header line replaced by `b`.
pub open spec fn replace_first_bullet_s(ls: Seq<Seq<char>>, b: Seq<char>) -> Seq<Seq<char>> {
    match first_bullet_from(ls, 1) {
        Some(j) => ls.update(j, b),
        None => ls,
    }
}

/// The first line of a text (empty when the text has no line).
pub open spec fn first_line_s(c: Seq<char>) -> Seq<char> {
    if lines_s(c).len() > 0 {
        lines_s(c)[0]
    } else {
        seq![]
    }
}

pub open spec fn new_upstream_bullet_s(upstream: Seq<char>, bug: Seq<char>) -> Seq<char> {
    "  * New upstream version "@ + upstream + " (LP: #"@ + bug + ")"@
}

/// The changelog after preparing its newest entry for a new upstream
/// release: on the header line `old` becomes `new` and `UNRELEASED` becomes
/// `release`; the first bullet becomes the new-upstream bullet.  `None` for a
/// changelog without lines, which is left alone.
pub open spec fn update_changelog_s(
    content: Seq<char>,
    old: Seq<char>,
    new: Seq<char>,
    release: Seq<char>,
    upstream: Seq<char>,
    bug: Seq<char>,
) -> Option<Seq<char>> {
    let ls = lines_s(content);
    if ls.len() == 0 {
        None
    } else {
        let first = replace_s(replace_s(ls[0], old, new), "UNRELEASED"@, release);
        Some(
            text_file_s(
                replace_first_bullet_s(ls.update(0, first), new_upstream_bullet_s(upstream, bug)),
            ),
        )
    }
}

/// The header line with its distribution (the text between the first `) `
/// and the next `;`) replaced by `release`; unchanged without those marks.
pub open spec fn retarget_header_s(first: Seq<char>, release: Seq<char>) -> Seq<char> {
    match find_s(first, ") "@) {
        Some(i) => {
            let right = first.skip(i + 2);
            match find_s(right, seq![';']) {
                Some(k) => first.take(i) + ") "@ + release + seq![';'] + right.skip(k + 1),
                None => first,
            }
        },
        None => first,
    }
}

pub open spec fn backport_bullet_s(release: Seq<char>, bug: Option<Seq<char>>) -> Seq<char> {
    match bug {
        Some(b) => "  * Backport to "@ + release + " (LP: #"@ + b + ")"@,
        None => "  * Backport to "@ + release,
    }
}

/// The changelog after preparing its newest entry for a backport: the
/// distribution becomes `release` and the first bullet the backport bullet.
/// `None` for a changelog without lines, which is left alone.
pub open spec fn update_backport_changelog_s(
    content: Seq<char>,
    release: Seq<char>,
    bug: Option<Seq<char>>,
) -> Option<Seq<char>> {
    let ls = lines_s(content);
    if ls.len() == 0 {
        None
    } else {
        Some(
            text_file_s(
                replace_first_bullet_s(
                    ls.update(0, retarget_header_s(ls[0], release)),
                    backport_bullet_s(release, bug),
                ),
            ),
        )
    }
}

/// The version on the header line: the trimmed text between its first `(`
/// and the next `)` (empty when there is none).
pub open spec fn changelog_version_s(content: Seq<char>) -> Seq<char> {
    let f = first_line_s(content);
    match find_s(f, seq!['(']) {
        Some(i) => {
            let rest = f.skip(i + 1);
            match find_s(rest, seq![')']) {
                Some(k) => trim_s(rest.take(k)),
                None => seq![],
            }
        },
        None => seq![],
    }
}

fn is_bullet_line(l: &Vec<char>) -> (r: bool)
    ensures
        r == is_bullet_line_s(l@),
{
    let t = trim_v(l);
    t.len() > 0 && (t[0] == '*' || t[0] == '-')
}

/// Replace the first bullet line after the header by `b`.
fn replace_first_bullet(ls: &Vec<Vec<char>>, b: &Vec<char>) -> (r: Vec<Vec<char>>)
    ensures
        dv(r@) == replace_first_bullet_s(dv(ls@), b@),
{
    let ghost d = dv(ls@);
    let mut j: usize = 1;
    let mut found: Option<usize> = None;
    while j < ls.len() && found.is_none()
        invariant
            1 <= j,
            d == dv(ls@),
            d.len() == ls.len(),
            found is None ==> first_bullet_from(d, 1) == first_bullet_from(d, j as int),
            found matches Some(k) ==> first_bullet_from(d, 1) == Some(k as int) && k < ls.len(),
        decreases ls.len() - j,
    {
        assert(d[j as int] == ls@[j as int]@);
        if is_bullet_line(&ls[j]) {
            found = Some(j);
        }
        j = j + 1;
    }
    let ghost want = replace_first_bullet_s(d, b@);
    assert(want.len() == d.len());
    let mut out: Vec<Vec<char>> = Vec::new();
    let mut i: usize = 0;
    while i < ls.len()
        invariant
            i <= ls.len(),
            d == dv(ls@),
            d.len() == ls.len(),
            want == replace_first_bullet_s(d, b@),
            want.len() == d.len(),
            found matches Some(k) ==> first_bullet_from(d, 1) == Some(k as int) && k < ls.len(),
            found is None ==> first_bullet_from(d, 1) is None,
            dv(out@) == want.take(i as int),
        decreases ls.len() - i,
    {
        let ghost o = dv(out@);
        assert(d[i as int] == ls@[i as int]@);
        let hit = match found {
            Some(k) => k == i,
            None => false,
        };
        let line = if hit {
            copy_chars(b)
        } else {
            copy_chars(&ls[i])
        };
        proof {
            match found {
                Some(k) => {
                    assert(want == d.update(k as int, b@));
                    if k == i {
                        assert(want[i as int] == b@);
                    } else {
                        assert(want[i as int] == d[i as int]);
                    }
                },
                None => {
                    assert(want == d);
                },
            }
        }
        assert(line@ == want[i as int]);
        out.push(line);
        assert(dv(out@) =~= o.push(line@));
        assert(want.take(i + 1) =~= want.take(i as int).push(want[i as int]));
        i = i + 1;
    }
    assert(want.take(i as int) =~= want);
    out
}

/// The lines with the first one replaced.
fn with_first_line(ls: &Vec<Vec<char>>, first: Vec<char>) -> (r: Vec<Vec<char>>)
    requires
        ls.len() > 0,
    ensures
        dv(r@) == dv(ls@).update(0, first@),
{
    let ghost want = dv(ls@).update(0, first@);
    let mut out: Vec<Vec<char>> = Vec::new();
    out.push(first);
    assert(dv(out@) =~= want.take(1));
    let mut i: usize = 1;
    while i < ls.len()
        invariant
            1 <= i <= ls.len(),
            want == dv(ls@).update(0, first@),
            want.len() == ls.len(),
            dv(out@) == want.take(i as int),
        decreases ls.len() - i,
    {
        let ghost o = dv(out@);
        let line = copy_chars(&ls[i]);
        assert(line@ == want[i as int]);
        out.push(line);
        assert(dv(out@) =~= o.push(line@));
        assert(want.take(i + 1) =~= want.take(i as int).push(want[i as int]));
        i = i + 1;
    }
    assert(want.take(i as int) =~= want);
    out
}

/// The text of a new `debian/changelog` whose newest entry is prepared for
/// a new upstream release (see [`update_changelog_s`]); `None` when the
/// changelog has no line and is to be left as it is.
pub fn update_changelog_entry(
    content: &str,
    old_pkg_name: &str,
    new_pkg_name: &str,
    release: &str,
    upstream_version: &str,
    lp_bug: &str,
) -> (r: Option<String>)
    ensures
        opt_view(r) == update_changelog_s(
            content@,
            old_pkg_name@,
            new_pkg_name@,
            release@,
            upstream_version@,
            lp_bug@,
        ),
{
    let ls = lines(&str_chars(content));
    if ls.len() == 0 {
        return None;
    }
    let renamed = replace(&ls[0], &str_chars(old_pkg_name), &str_chars(new_pkg_name));
    let first = replace(&renamed, &str_chars("UNRELEASED"), &str_chars(release));
    let mut bullet = str_chars("  * New upstream version ");
    push_all(&mut bullet, &str_chars(upstream_version));
    push_all(&mut bullet, &str_chars(" (LP: #"));
    push_all(&mut bullet, &str_chars(lp_bug));
    push_all(&mut bullet, &str_chars(")"));
    let updated = replace_first_bullet(&with_first_line(&ls, first), &bullet);
    Some(chars_to_string(&text_file(&updated)))
}

fn retarget_header(first: &Vec<char>, release: &Vec<char>) -> (r: Vec<char>)
    ensures
        r@ == retarget_header_s(first@, release@),
{
    let close = str_chars(") ");
    proof {
        reveal_strlit(") ");
    }
    match find(first, &close) {
        Some(i) => {
            proof {
                crate::text::lemma_find_from_found(first@, ") "@, 0);
            }
            let n = first.len();
            let right = subvec(first, i + 2, n);
            assert(right@ =~= first@.skip(i + 2));
            let semi = str_chars(";");
            proof {
                reveal_strlit(";");
            }
            assert(semi@ =~= seq![';']);
            match find(&right, &semi) {
                Some(k) => {
                    proof {
                        crate::text::lemma_find_from_found(right@, seq![';'], 0);
                    }
                    let m = right.len();
                    let mut out = subvec(first, 0, i);
                    push_all(&mut out, &close);
                    push_all(&mut out, release);
                    push_all(&mut out, &semi);
                    let tail = subvec(&right, k + 1, m);
                    push_all(&mut out, &tail);
                    assert(tail@ =~= right@.skip(k + 1));
                    assert(out@ =~= first@.take(i as int) + ") "@ + release@ + seq![';'] + right@.skip(k + 1));
                    out
                },
                None => subvec_all(first),
            }
        },
        None => subvec_all(first),
    }
}

/// The text of a new `debian/changelog` whose newest entry is prepared for
/// a backport to `release` (see [`update_backport_changelog_s`]); `None`
/// when the changelog has no line and is to be left as it is.
pub fn update_backport_changelog_entry(content: &str, release: &str, lp_bug: Option<&str>) -> (r:
    Option<String>)
    ensures
        opt_view(r) == update_backport_changelog_s(
            content@,
            release@,
            match lp_bug {
                Some(b) => Some(b@),
                None => None,
            },
        ),
{
    let ls = lines(&str_chars(content));
    if ls.len() == 0 {
        return None;
    }
    let rel = str_chars(release);
    let first = retarget_header(&ls[0], &rel);
    let mut bullet = str_chars("  * Backport to ");
    push_all(&mut bullet, &rel);
    match lp_bug {
        Some(b) => {
            push_all(&mut bullet, &str_chars(" (LP: #"));
            push_all(&mut bullet, &str_chars(b));
            push_all(&mut bullet, &str_chars(")"));
        },
        None => {},
    }
    let updated = replace_first_bullet(&with_first_line(&ls, first), &bullet);
    Some(chars_to_string(&text_file(&updated)))
}

/// Read the version from the header line of a changelog text,
/// `<package> (<version>) <distribution>; urgency=<level>`.  An `Io` error
/// naming the header line when there is no non-empty version between `(`
/// and `)`.
pub fn read_current_version(content: &str) -> (r: Result<String, ThermiteError>)
    ensures
        changelog_version_s(content@).len() > 0 ==> (r matches Ok(v) && v@ == changelog_version_s(
            content@,
        )),
        changelog_version_s(content@).len() == 0 ==> (r matches Err(ThermiteError::Io(m)) && m@
            == "could not parse version from debian/changelog first line: '"@ + first_line_s(
            content@,
        ) + "'"@),
{
    let ls = lines(&str_chars(content));
    let first = if ls.len() > 0 {
        ls[0].clone()
    } else {
        Vec::new()
    };
    assert(first@ =~= first_line_s(content@));
    let open = str_chars("(");
    let close = str_chars(")");
    proof {
        reveal_strlit("(");
        reveal_strlit(")");
    }
    assert(open@ =~= seq!['(']);
    assert(close@ =~= seq![')']);
    let mut version: Vec<char> = Vec::new();
    match find(&first, &open) {
        Some(i) => {
            proof {
                crate::text::lemma_find_from_found(first@, seq!['('], 0);
            }
            let n = first.len();
            let rest = subvec(&first, i + 1, n);
            assert(rest@ =~= first@.skip(i + 1));
            match find(&rest, &close) {
                Some(k) => {
                    proof {
                        crate::text::lemma_find_from_found(rest@, seq![')'], 0);
                    }
                    version = trim_v(&subvec(&rest, 0, k));
                    assert(rest@.subrange(0, k as int) =~= rest@.take(k as int));
                },
                None => {},
            }
        },
        None => {},
    }
    assert(version@ =~= changelog_version_s(content@));
    if version.len() == 0 {
        let mut m = str_chars("could not parse version from debian/changelog first line: '");
        push_all(&mut m, &first);
        push_all(&mut m, &str_chars("'"));
        return Err(ThermiteError::Io(chars_to_string(&m)));
    }
    Ok(chars_to_string(&version))
}

// ── Backport versions ───────────────────────────────────────────────────────

/// `s` looks like a numeric series identifier such as `22.04` or `24.04.1`:
/// non-empty, only ASCII digits and dots, starting and ending with a digit.
pub open spec fn is_series_like_s(s: Seq<char>) -> bool {
    &&& s.len() > 0
    &&& forall|i: int| 0 <= i < s.len() ==> is_digit(#[trigger] s[i]) || s[i] == '.'
    &&& is_digit(s[0])
    &&& is_digit(s.last())
}

/// `s` without a trailing `~<series>` suffix, where the suffix starts at the
/// last `~` and must look like a series.
pub open spec fn strip_series_suffix_s(s: Seq<char>) -> Seq<char> {
    match rfind_s(s, seq!['~']) {
        Some(t) => if is_series_like_s(s.skip(t + 1)) {
            s.take(t)
        } else {
            s
        },
        None => s,
    }
}

/// The Debian version of a backport of `v` to the series `t`.
pub open spec fn compute_backport_s(v: Seq<char>, t: Seq<char>) -> Seq<char> {
    match find_s(v, seq!['-']) {
        Some(i) => strip_series_suffix_s(v.take(i)) + seq!['~'] + t + seq!['-']
            + strip_series_suffix_s(v.skip(i + 1)) + seq!['~'] + t + ".1"@,
        None => v + seq!['~'] + t + "-0ubuntu1~"@ + t + ".1"@,
    }
}

/// Return `true` if `s` looks like a numeric series identifier such as
/// `"22.04"` or `"24.04.1"`.
pub fn is_series_like(s: &str) -> (r: bool)
    ensures
        r == is_series_like_s(s@),
{
    is_series_like_chars(&str_chars(s))
}

fn is_series_like_chars(s: &Vec<char>) -> (r: bool)
    ensures
        r == is_series_like_s(s@),
{
    if s.len() == 0 {
        return false;
    }
    let mut i: usize = 0;
    while i < s.len()
        invariant
            i <= s.len(),
            forall|j: int| 0 <= j < i ==> is_digit(#[trigger] s@[j]) || s@[j] == '.',
        decreases s.len() - i,
    {
        if !(is_digit_char(s[i]) || s[i] == '.') {
            return false;
        }
        i = i + 1;
    }
    is_digit_char(s[0]) && is_digit_char(s[s.len() - 1])
}

/// Strip a trailing `~XX.YY[.Z…]` series suffix from a version component.
pub fn strip_series_suffix(s: &str) -> (r: String)
    ensures
        r@ == strip_series_suffix_s(s@),
{
    chars_to_string(&strip_series_suffix_chars(&str_chars(s)))
}

fn strip_series_suffix_chars(s: &Vec<char>) -> (r: Vec<char>)
    ensures
        r@ == strip_series_suffix_s(s@),
{
    let tilde: Vec<char> = str_chars("~");
    proof {
        reveal_strlit("~");
    }
    assert(tilde@ =~= seq!['~']);
    match rfind(s, &tilde) {
        Some(t) => {
            proof {
                crate::text::lemma_rfind_upto_found(s@, seq!['~'], s@.len() - 1);
                assert(crate::text::is_at(s@, seq!['~'], t as int));
            }
            let n = s.len();
            let suffix = subvec(s, t + 1, n);
            assert(suffix@ =~= s@.skip(t + 1));
            if is_series_like_chars(&suffix) {
                let r = subvec(s, 0, t);
                assert(r@ =~= s@.take(t as int));
                r
            } else {
                subvec_all(s)
            }
        },
        None => subvec_all(s),
    }
}

fn subvec_all(s: &Vec<char>) -> (r: Vec<char>)
    ensures
        r@ == s@,
{
    let r = subvec(s, 0, s.len());
    assert(r@ =~= s@);
    r
}

/// Compute the Debian version string for a backport to `target_series`.
///
/// The version is split on its first `-` into upstream part and Debian
/// revision; each loses a trailing `~<series>` suffix, the upstream part
/// gains `~<target_series>` and the revision `~<target_series>.1`.  Without a
/// `-` the whole text is the upstream part and the revision is `0ubuntu1`.
///
/// - `"1.93.0+dfsg-0ubuntu1"` + `"24.04"` → `"1.93.0+dfsg~24.04-0ubuntu1~24.04.1"`
/// - `"1.89.0+dfsg2~24.04.1-0ubuntu3~24.04.2"` + `"22.04"`
///   → `"1.89.0+dfsg2~22.04-0ubuntu3~22.04.1"`
pub fn compute_backport_version(current_version: &str, target_series: &str) -> (r: String)
    ensures
        r@ == compute_backport_s(current_version@, target_series@),
{
    let v = str_chars(current_version);
    let t = str_chars(target_series);
    let dash = str_chars("-");
    let tilde = str_chars("~");
    let dot_one = str_chars(".1");
    proof {
        reveal_strlit("-");
        reveal_strlit("~");
    }
    assert(dash@ =~= seq!['-']);
    assert(tilde@ =~= seq!['~']);
    let mut out: Vec<char>;
    match find(&v, &dash) {
        Some(i) => {
            proof {
                crate::text::lemma_find_from_found(v@, seq!['-'], 0);
                assert(crate::text::is_at(v@, seq!['-'], i as int));
            }
            let n = v.len();
            let up = subvec(&v, 0, i);
            let rev = subvec(&v, i + 1, n);
            assert(up@ =~= v@.take(i as int));
            assert(rev@ =~= v@.skip(i + 1));
            out = strip_series_suffix_chars(&up);
            push_all(&mut out, &tilde);
            push_all(&mut out, &t);
            push_all(&mut out, &dash);
            push_all(&mut out, &strip_series_suffix_chars(&rev));
            push_all(&mut out, &tilde);
            push_all(&mut out, &t);
            push_all(&mut out, &dot_one);
        },
        None => {
            out = concat(&v, &tilde);
            push_all(&mut out, &t);
            push_all(&mut out, &str_chars("-0ubuntu1~"));
            push_all(&mut out, &t);
            push_all(&mut out, &dot_one);
        },
    }
    chars_to_string(&out)
}

/// A series-like text holds neither `-` nor `~`.
proof fn lemma_series_lacks(t: Seq<char>)
    requires
        is_series_like_s(t),
    ensures
        lacks(t, '-'),
        lacks(t, '~'),
{
    assert forall|i: int| 0 <= i < t.len() implies t[i] != '-' && t[i] != '~' by {
        assert(is_digit(t[i]) || t[i] == '.');
    }
}

/// A series with a `.1` sub-revision appended is still series-like.
proof fn lemma_series_dot_one(t: Seq<char>)
    requires
        is_series_like_s(t),
    ensures
        is_series_like_s(t + ".1"@),
{
    reveal_strlit(".1");
    let w = t + ".1"@;
    assert(w.len() == t.len() + 2);
    assert forall|i: int| 0 <= i < w.len() implies is_digit(#[trigger] w[i]) || w[i] == '.' by {
        if i < t.len() {
            assert(w[i] == t[i]);
        }
    }
    assert(w[0] == t[0]);
}

/// Stripping keeps a prefix of the text.
proof fn lemma_strip_prefix(s: Seq<char>)
    ensures
        strip_series_suffix_s(s).len() <= s.len(),
        strip_series_suffix_s(s) == s.take(strip_series_suffix_s(s).len() as int),
{
    if rfind_s(s, seq!['~']) is Some {
        crate::text::lemma_rfind_upto_found(s, seq!['~'], s.len() - 1);
    }
    assert(s.take(s.len() as int) =~= s);
}

/// Stripping a series suffix that was just appended gives the text back.
proof fn lemma_strip_appended(x: Seq<char>, t: Seq<char>)
    requires
        is_series_like_s(t),
    ensures
        strip_series_suffix_s(x + seq!['~'] + t) == x,
{
    lemma_series_lacks(t);
    assert(seq!['~'].skip(1) + t =~= t);
    lemma_rfind_last(x, seq!['~'], t);
    let w = x + seq!['~'] + t;
    assert(w.skip(x.len() as int + 1) =~= t);
    assert(w.take(x.len() as int) =~= x);
}

/// Recomputing the backport version of a backport version for the same
/// series gives it back unchanged: a re-run of a backport to a series it
/// already targets finds nothing to change.
pub proof fn lemma_backport_version_idempotent(v: Seq<char>, t: Seq<char>)
    requires
        is_series_like_s(t),
    ensures
        compute_backport_s(compute_backport_s(v, t), t) == compute_backport_s(v, t),
{
    reveal_strlit(".1");
    reveal_strlit("-0ubuntu1~");
    lemma_series_lacks(t);
    lemma_series_dot_one(t);
    let t1 = t + ".1"@;
    let dash = seq!['-'];
    match find_s(v, dash) {
        Some(i) => {
            crate::text::lemma_find_from_found(v, dash, 0);
            let up = v.take(i);
            let su = strip_series_suffix_s(up);
            let sr = strip_series_suffix_s(v.skip(i + 1));
            assert(lacks(up, '-')) by {
                assert forall|j: int| 0 <= j < up.len() implies up[j] != '-' by {
                    lemma_is_at_char(v, '-', j);
                }
            }
            assert(lacks(su, '-')) by {
                lemma_strip_prefix(up);
                assert forall|j: int| 0 <= j < su.len() implies su[j] != '-' by {
                    assert(su[j] == up[j]);
                }
            }
            let x = su + seq!['~'] + t;
            let y = sr + seq!['~'] + t1;
            assert(lacks(x, '-')) by {
                assert forall|j: int| 0 <= j < x.len() implies x[j] != '-' by {
                    if j < su.len() {
                        assert(x[j] == su[j]);
                    } else if j > su.len() {
                        assert(x[j] == t[j - su.len() - 1]);
                    }
                }
            }
            let w = compute_backport_s(v, t);
            assert(w =~= x + dash + y);
            lemma_find_after_prefix(x, dash, y);
            assert(w.take(x.len() as int) =~= x);
            assert(w.skip(x.len() as int + 1) =~= sr + seq!['~'] + t1);
            lemma_strip_appended(su, t);
            lemma_strip_appended(sr, t1);
        },
        None => {
            crate::text::lemma_find_from_none(v, dash, 0);
            assert(lacks(v, '-')) by {
                assert forall|j: int| 0 <= j < v.len() implies v[j] != '-' by {
                    lemma_is_at_char(v, '-', j);
                }
            }
            let x = v + seq!['~'] + t;
            let rev = "0ubuntu1"@;
            reveal_strlit("0ubuntu1");
            let y = rev + seq!['~'] + t1;
            assert(lacks(x, '-')) by {
                assert forall|j: int| 0 <= j < x.len() implies x[j] != '-' by {
                    if j < v.len() {
                        assert(x[j] == v[j]);
                    } else if j > v.len() {
                        assert(x[j] == t[j - v.len() - 1]);
                    }
                }
            }
            let w = compute_backport_s(v, t);
            assert(w =~= x + dash + y);
            lemma_find_after_prefix(x, dash, y);
            assert(w.take(x.len() as int) =~= x);
            assert(w.skip(x.len() as int + 1) =~= y);
            lemma_strip_appended(v, t);
            lemma_strip_appended(rev, t1);
            assert(compute_backport_s(w, t) =~= v + seq!['~'] + t + dash + rev + seq!['~'] + t1);
        },
    }
}

/// A text without `~` keeps its whole self when a series suffix is stripped.
proof fn lemma_strip_no_tilde(x: Seq<char>)
    requires
        lacks(x, '~'),
    ensures
        strip_series_suffix_s(x) == x,
{
    if rfind_s(x, seq!['~']) is Some {
        crate::text::lemma_rfind_upto_found(x, seq!['~'], x.len() - 1);
        let r = rfind_s(x, seq!['~'])->0;
        lemma_is_at_char(x, '~', r);
    }
}

/// A series followed by `.<n>` is still series-like.
proof fn lemma_series_dot_dec(t: Seq<char>, n: nat)
    requires
        is_series_like_s(t),
    ensures
        is_series_like_s(t + seq!['.'] + dec_s(n)),
{
    lemma_dec_digits(n);
    let d = dec_s(n);
    let w = t + seq!['.'] + d;
    assert forall|i: int| 0 <= i < w.len() implies is_digit(#[trigger] w[i]) || w[i] == '.' by {
        if i < t.len() {
            assert(w[i] == t[i]);
        } else if i > t.len() {
            assert(w[i] == d[i - t.len() - 1]);
        }
    }
    assert(w[0] == t[0]);
    assert(w.last() == d.last());
}

proof fn lemma_tokens_lack(c: char)
    requires
        c == '-' || c == '~',
    ensures
        lacks(tok_dfsg(), c),
        lacks(tok_0ubuntu(), c),
        lacks(seq!['.'], c),
{
    assert forall|i: int| 0 <= i < 5 implies tok_dfsg()[i] != c by {
        assert(i == 0 || i == 1 || i == 2 || i == 3 || i == 4);
    }
    assert forall|i: int| 0 <= i < 7 implies tok_0ubuntu()[i] != c by {
        assert(i == 0 || i == 1 || i == 2 || i == 3 || i == 4 || i == 5 || i == 6);
    }
}

/// Computing the backport version on the text of a package version gives
/// the text of that version turned into a backport to the same series
/// ([`RustcPackageVersion::to_backport`]), for a version without stage0
/// marker or PPA suffix whose series, if any, looks like a series and comes
/// with a backport revision.
///
/// [`RustcPackageVersion::to_backport`]: crate::types::package_version::RustcPackageVersion::to_backport
pub proof fn lemma_backport_version_agrees(v: VersionFields, t: Seq<char>)
    requires
        !v.stage0,
        v.ppa is None,
        backport_parts_agree(v.series, v.backport_revision),
        v.series matches Some(s) ==> is_series_like_s(s),
    ensures
        compute_backport_s(render_version(v), t) == render_version(to_backport_s(v, t)),
{
    reveal_strlit(".1");
    let dash = seq!['-'];
    let tl = seq!['~'];
    let base = v.upstream.render() + tok_dfsg() + opt_dec(v.repack_number);
    let rev0 = tok_0ubuntu() + dec_s(v.ubuntu_revision as nat);
    lemma_tokens_lack('-');
    lemma_tokens_lack('~');
    lemma_version_lacks(v.upstream, '-');
    lemma_version_lacks(v.upstream, '~');
    lemma_dec_no_char(v.ubuntu_revision as nat, '-');
    lemma_dec_no_char(v.ubuntu_revision as nat, '~');
    assert(lacks(opt_dec(v.repack_number), '-') && lacks(opt_dec(v.repack_number), '~')) by {
        if let Some(n) = v.repack_number {
            lemma_dec_no_char(n as nat, '-');
            lemma_dec_no_char(n as nat, '~');
        }
    }
    lemma_lacks_cat(v.upstream.render(), tok_dfsg(), '-');
    lemma_lacks_cat(v.upstream.render() + tok_dfsg(), opt_dec(v.repack_number), '-');
    lemma_lacks_cat(v.upstream.render(), tok_dfsg(), '~');
    lemma_lacks_cat(v.upstream.render() + tok_dfsg(), opt_dec(v.repack_number), '~');
    lemma_lacks_cat(tok_0ubuntu(), dec_s(v.ubuntu_revision as nat), '~');
    assert(dec_s(1) =~= seq!['1']);
    let w = to_backport_s(v, t);
    assert(render_version(w) =~= base + tl + t + dash + rev0 + tl + t + ".1"@);
    match v.series {
        None => {
            assert(render_version(v) =~= base + dash + rev0);
            lemma_find_after_prefix(base, dash, rev0);
            assert((base + dash + rev0).take(base.len() as int) =~= base);
            assert((base + dash + rev0).skip(base.len() as int + 1) =~= rev0);
            lemma_strip_no_tilde(base);
            lemma_strip_no_tilde(rev0);
            assert(compute_backport_s(render_version(v), t) =~= base + tl + t + dash + rev0 + tl + t
                + ".1"@);
        },
        Some(s) => {
            let b = v.backport_revision->0;
            let sr = s + opt_dot_dec(v.backport_repack);
            let rb = s + seq!['.'] + dec_s(b as nat);
            assert(is_series_like_s(sr)) by {
                if let Some(k) = v.backport_repack {
                    lemma_series_dot_dec(s, k as nat);
                    assert(sr =~= s + seq!['.'] + dec_s(k as nat));
                } else {
                    assert(sr =~= s);
                }
            }
            lemma_series_dot_dec(s, b as nat);
            lemma_series_lacks(sr);
            let up = base + tl + sr;
            let rev = rev0 + tl + rb;
            assert(lacks(up, '-')) by {
                assert forall|j: int| 0 <= j < up.len() implies up[j] != '-' by {
                    if j < base.len() {
                        assert(up[j] == base[j]);
                    } else if j > base.len() {
                        assert(up[j] == sr[j - base.len() - 1]);
                    }
                }
            }
            assert(render_version(v) =~= up + dash + rev);
            lemma_find_after_prefix(up, dash, rev);
            assert((up + dash + rev).take(up.len() as int) =~= up);
            assert((up + dash + rev).skip(up.len() as int + 1) =~= rev);
            lemma_strip_appended(base, sr);
            lemma_strip_appended(rev0, rb);
            assert(compute_backport_s(render_version(v), t) =~= base + tl + t + dash + rev0 + tl + t
                + ".1"@);
        },
    }
}

} // verus!
