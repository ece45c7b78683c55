//! Structured representation of an Ubuntu `rustc-X.Y` Debian package version.
//!
//! **Non-backport:** `<upstream>+dfsg[<repack>]-0ubuntu<ubuntu_revision>`
//!
//! **Backport:** `<upstream>+dfsg[<repack>]~<series>[.<backport_repack>]-0ubuntu<ubuntu_revision>~<series>.<backport_revision>`
//!
//! **Stage0 bootstrap:** `<upstream>+dfsg[<repack>]~<series>~stage0-0ubuntu<ubuntu_revision>~<series>.<backport_revision>`
//!
//! Any of these may end in a `~ppa<N>` development suffix.
use vstd::prelude::*;

use crate::error::ThermiteError;
use crate::text::{
    all_digit_chars,
    lacks, lemma_dec_digits, lemma_dec_no_char, lemma_find_absent_char, lemma_find_after_prefix,
    lemma_leading_digits_concat, lemma_parse_dec, lemma_rfind_last, lemma_rfind_upto_found,
    lemma_split_concat, lemma_split_single,
    leading_digits,
    all_digits, char_vec, chars_to_string, concat, copy_chars, dec_s, dv, find, find_char_s,
    find_s, is_digit, is_digit_char, lemma_is_at_char, parse_u32, parse_u32_s, push_all, push_dec,
    rfind, rfind_s, split_char, split_s, starts_with, starts_with_s, str_chars, subvec,
};
use crate::types::versions::{parse_rust_version_s, RustVersion};

verus! {

/// The abstract content of a [`RustcPackageVersion`].
pub struct VersionFields {
    pub upstream: RustVersion,
    pub repack_number: Option<u32>,
    pub series: Option<Seq<char>>,
    pub backport_repack: Option<u32>,
    pub stage0: bool,
    pub ubuntu_revision: u32,
    pub backport_revision: Option<u32>,
    pub ppa: Option<u32>,
}

/// A fully parsed Ubuntu `rustc` package version string.
///
/// Covers non-backport, backport and stage0 bootstrap versions, with the
/// optional `~ppaN` development suffix.
#[derive(Debug, Clone, PartialEq, Eq)]
pub struct RustcPackageVersion {
    /// The upstream Rust toolchain version (e.g. `1.85.0`).
    pub upstream: RustVersion,
    /// The dfsg repack number: `None` is a bare `+dfsg`, `Some(n)` is `+dfsg<n>`.
    pub repack_number: Option<u32>,
    /// The target Ubuntu series number for backports (e.g. `"24.04"`);
    /// `None` for non-backport versions.
    pub series: Option<String>,
    /// Additional repack counter of the backport's orig tarball (`~<series>.<n>`).
    pub backport_repack: Option<u32>,
    /// Whether this is a stage0 bootstrap package (`~stage0` marker).
    pub stage0: bool,
    /// The Ubuntu revision number (the `N` in `-0ubuntuN`).
    pub ubuntu_revision: u32,
    /// The backport revision number (the `N` in `~<series>.N`); present
    /// only for backport versions.
    pub backport_revision: Option<u32>,
    /// The PPA upload number (the `N` in `~ppaN`).
    pub ppa: Option<u32>,
}

pub open spec fn opt_view(o: Option<String>) -> Option<Seq<char>> {
    match o {
        Some(s) => Some(s@),
        None => None,
    }
}

impl View for RustcPackageVersion {
    type V = VersionFields;

    open spec fn view(&self) -> VersionFields {
        VersionFields {
            upstream: self.upstream,
            repack_number: self.repack_number,
            series: opt_view(self.series),
            backport_repack: self.backport_repack,
            stage0: self.stage0,
            ubuntu_revision: self.ubuntu_revision,
            backport_revision: self.backport_revision,
            ppa: self.ppa,
        }
    }
}

// ── Tokens ───────────────────────────────────────────────────────────────────

pub open spec fn tok_dfsg() -> Seq<char> {
    seq!['+', 'd', 'f', 's', 'g']
}

pub open spec fn tok_stage0() -> Seq<char> {
    seq!['s', 't', 'a', 'g', 'e', '0']
}

pub open spec fn tok_0ubuntu() -> Seq<char> {
    seq!['0', 'u', 'b', 'u', 'n', 't', 'u']
}

pub open spec fn tok_ppa() -> Seq<char> {
    seq!['~', 'p', 'p', 'a']
}

fn dfsg_chars() -> (r: Vec<char>)
    ensures
        r@ == tok_dfsg(),
{
    let mut r = Vec::new();
    r.push('+');
    r.push('d');
    r.push('f');
    r.push('s');
    r.push('g');
    assert(r@ =~= tok_dfsg());
    r
}

fn stage0_chars() -> (r: Vec<char>)
    ensures
        r@ == tok_stage0(),
{
    let mut r = Vec::new();
    r.push('s');
    r.push('t');
    r.push('a');
    r.push('g');
    r.push('e');
    r.push('0');
    assert(r@ =~= tok_stage0());
    r
}

fn ubuntu_chars() -> (r: Vec<char>)
    ensures
        r@ == tok_0ubuntu(),
{
    let mut r = Vec::new();
    r.push('0');
    r.push('u');
    r.push('b');
    r.push('u');
    r.push('n');
    r.push('t');
    r.push('u');
    assert(r@ =~= tok_0ubuntu());
    r
}

fn ppa_chars() -> (r: Vec<char>)
    ensures
        r@ == tok_ppa(),
{
    let mut r = Vec::new();
    r.push('~');
    r.push('p');
    r.push('p');
    r.push('a');
    assert(r@ =~= tok_ppa());
    r
}

// ── Rendering ────────────────────────────────────────────────────────────────

pub open spec fn opt_dec(o: Option<u32>) -> Seq<char> {
    match o {
        Some(n) => dec_s(n as nat),
        None => seq![],
    }
}

pub open spec fn opt_dot_dec(o: Option<u32>) -> Seq<char> {
    match o {
        Some(n) => seq!['.'] + dec_s(n as nat),
        None => seq![],
    }
}

/// `~<series>[.<backport_repack>]` for a backport, nothing otherwise.
pub open spec fn series_part(v: VersionFields) -> Seq<char> {
    match v.series {
        Some(s) => seq!['~'] + s + opt_dot_dec(v.backport_repack),
        None => seq![],
    }
}

/// `~stage0` for a stage0 bootstrap package, nothing otherwise.
pub open spec fn stage0_part(v: VersionFields) -> Seq<char> {
    if v.stage0 {
        seq!['~'] + tok_stage0()
    } else {
        seq![]
    }
}

/// `~<series>.<backport_revision>` for a backport (revision 1 when it has
/// none), nothing otherwise.
pub open spec fn backport_revision_part(v: VersionFields) -> Seq<char> {
    match v.series {
        Some(s) => seq!['~'] + s + seq!['.'] + dec_s(
            match v.backport_revision {
                Some(b) => b as nat,
                None => 1,
            },
        ),
        None => seq![],
    }
}

/// `~ppa<N>` when there is a PPA upload number, nothing otherwise.
pub open spec fn ppa_part(v: VersionFields) -> Seq<char> {
    match v.ppa {
        Some(p) => tok_ppa() + dec_s(p as nat),
        None => seq![],
    }
}

/// Text of the upstream part: `<X.Y.Z>+dfsg[<repack>][~<series>[.<bp_repack>]][~stage0]`.
pub open spec fn render_upstream_part(v: VersionFields) -> Seq<char> {
    v.upstream.render() + tok_dfsg() + opt_dec(v.repack_number) + series_part(v) + stage0_part(v)
}

/// Text of the Debian revision: `0ubuntu<N>[~<series>.<bp_rev>][~ppa<N>]`.
pub open spec fn render_revision_part(v: VersionFields) -> Seq<char> {
    tok_0ubuntu() + dec_s(v.ubuntu_revision as nat) + backport_revision_part(v) + ppa_part(v)
}

/// The full version text (what `Display` prints).
pub open spec fn render_version(v: VersionFields) -> Seq<char> {
    render_upstream_part(v) + seq!['-'] + render_revision_part(v)
}

/// `v` turned into a first backport to the series `t`: series `t`, no
/// backport repack, backport revision 1, no stage0 marker and no PPA suffix.
pub open spec fn to_backport_s(v: VersionFields, t: Seq<char>) -> VersionFields {
    VersionFields {
        series: Some(t),
        backport_repack: None,
        backport_revision: Some(1),
        stage0: false,
        ppa: None,
        ..v
    }
}

// ── Parsing model ────────────────────────────────────────────────────────────

/// The repack number right after `+dfsg` and what follows it: no number
/// when no digit follows (a bare `+dfsg`), and `None` when the digits do not
/// fit a `u32`.
pub open spec fn repack_split_s(s: Seq<char>) -> Option<(Option<u32>, Seq<char>)> {
    let k = leading_digits(s);
    if k == 0 {
        Some((None, s))
    } else {
        match parse_u32_s(s.take(k as int)) {
            Some(n) => Some((Some(n), s.skip(k as int))),
            None => None,
        }
    }
}

/// A backport carries its series in the upstream part and its backport
/// revision in the Debian revision: both or neither.
pub open spec fn backport_parts_agree(series: Option<Seq<char>>, backport_revision: Option<u32>) -> bool {
    (series is Some) == (backport_revision is Some)
}

/// `XX.YY` or `XX.YY.N` (series and backport repack).
pub open spec fn series_and_repack_s(s: Seq<char>) -> Option<(Seq<char>, Option<u32>)> {
    let parts = split_s(s, '.');
    if parts.len() == 2 {
        Some((s, None))
    } else if parts.len() == 3 {
        match parse_u32_s(parts[2]) {
            Some(n) => Some((parts[0] + seq!['.'] + parts[1], Some(n))),
            None => None,
        }
    } else {
        None
    }
}

/// The suffixes after the repack number: `""`, `~<series>[.<n>]`,
/// `~<series>[.<n>]~stage0` or `~stage0`.
pub open spec fn upstream_suffixes_s(s: Seq<char>) -> Option<(Option<Seq<char>>, Option<u32>, bool)> {
    if s.len() == 0 {
        Some((None, None, false))
    } else if s[0] != '~' {
        None
    } else {
        let rem = s.skip(1);
        if rem == tok_stage0() {
            Some((None, None, true))
        } else {
            match find_char_s(rem, '~') {
                Some(i) => if rem.skip(i + 1) == tok_stage0() {
                    match series_and_repack_s(rem.take(i)) {
                        Some(sr) => Some((Some(sr.0), sr.1, true)),
                        None => None,
                    }
                } else {
                    None
                },
                None => match series_and_repack_s(rem) {
                    Some(sr) => Some((Some(sr.0), sr.1, false)),
                    None => None,
                },
            }
        }
    }
}

/// Split a trailing `~ppa<digits>` suffix off the Debian revision.
pub open spec fn strip_ppa_s(s: Seq<char>) -> (Seq<char>, Option<u32>) {
    match rfind_s(s, tok_ppa()) {
        Some(p) => {
            let after = s.skip(p + 4);
            if after.len() > 0 && all_digits(after) && parse_u32_s(after) is Some {
                (s.take(p), parse_u32_s(after))
            } else {
                (s, None)
            }
        },
        None => (s, None),
    }
}

/// `0ubuntu<N>` or `0ubuntu<N>~<series>.<backport_revision>`.
pub open spec fn debian_revision_s(rev: Seq<char>) -> Option<(u32, Option<u32>)> {
    if !starts_with_s(rev, tok_0ubuntu()) {
        None
    } else {
        let a = rev.skip(7);
        match find_char_s(a, '~') {
            Some(i) => match parse_u32_s(a.take(i)) {
                Some(u) => {
                    let suf = a.skip(i + 1);
                    match rfind_s(suf, seq!['.']) {
                        Some(d) => match parse_u32_s(suf.skip(d + 1)) {
                            Some(b) => Some((u, Some(b))),
                            None => None,
                        },
                        None => None,
                    }
                },
                None => None,
            },
            None => match parse_u32_s(a) {
                Some(u) => Some((u, None)),
                None => None,
            },
        }
    }
}

/// What [`RustcPackageVersion::parse`] accepts and the fields it reads.
pub open spec fn parse_package_version_s(s: Seq<char>) -> Option<VersionFields> {
    match find_char_s(s, '-') {
        None => None,
        Some(i) => {
            let up = s.take(i);
            let rev = s.skip(i + 1);
            match find_s(up, tok_dfsg()) {
                None => None,
                Some(j) => match parse_rust_version_s(up.take(j)) {
                    None => None,
                    Some(uv) => {
                        match repack_split_s(up.skip(j + 5)) {
                            None => None,
                            Some(rs) => match upstream_suffixes_s(rs.1) {
                                None => None,
                                Some(sfx) => {
                                    let pp = strip_ppa_s(rev);
                                    match debian_revision_s(pp.0) {
                                        None => None,
                                        Some(dr) => if backport_parts_agree(sfx.0, dr.1) {
                                            Some(
                                                VersionFields {
                                                    upstream: uv,
                                                    repack_number: rs.0,
                                                    series: sfx.0,
                                                    backport_repack: sfx.1,
                                                    stage0: sfx.2,
                                                    ubuntu_revision: dr.0,
                                                    backport_revision: dr.1,
                                                    ppa: pp.1,
                                                },
                                            )
                                        } else {
                                            None
                                        },
                                    }
                                },
                            },
                        }
                    },
                },
            }
        },
    }
}

// ── Parse errors ─────────────────────────────────────────────────────────────

/// The message when the series part `p` (after `~`) is malformed.
pub open spec fn series_error_s(p: Seq<char>) -> Seq<char> {
    if split_s(p, '.').len() == 3 {
        "invalid backport repack number in '"@ + p + "'"@
    } else {
        "invalid series format: '"@ + p + "'"@
    }
}

/// The message when the suffixes after the repack number are malformed
/// (see [`upstream_suffixes_s`]).
pub open spec fn suffix_error_s(s: Seq<char>) -> Seq<char> {
    if s.len() > 0 && s[0] != '~' {
        "unexpected characters after repack number in upstream part: '"@ + s + "'"@
    } else {
        let rem = s.skip(1);
        match find_char_s(rem, '~') {
            Some(i) => if rem.skip(i + 1) == tok_stage0() {
                series_error_s(rem.take(i))
            } else {
                "unexpected suffix after series in upstream: '~"@ + rem.skip(i + 1) + "'"@
            },
            None => series_error_s(rem),
        }
    }
}

/// The message when the Debian revision `rev` (without its `~ppa<N>`) of
/// the version text `full` is malformed (see [`debian_revision_s`]).
pub open spec fn revision_error_s(rev: Seq<char>, full: Seq<char>) -> Seq<char> {
    if !starts_with_s(rev, tok_0ubuntu()) {
        "debian revision must start with '0ubuntu': got '"@ + rev + "' in '"@ + full + "'"@
    } else {
        let a = rev.skip(7);
        match find_char_s(a, '~') {
            Some(i) => if parse_u32_s(a.take(i)) is None {
                "invalid ubuntu revision number '"@ + a.take(i) + "' in '"@ + full + "'"@
            } else {
                let suf = a.skip(i + 1);
                match rfind_s(suf, seq!['.']) {
                    Some(d) => "invalid backport revision '"@ + suf.skip(d + 1) + "' in '"@ + full
                        + "'"@,
                    None => "expected '<series>.<backport_revision>' but got '"@ + suf + "' in '"@
                        + full + "'"@,
                }
            },
            None => "invalid ubuntu revision number '"@ + a + "' in '"@ + full + "'"@,
        }
    }
}

/// The message of the `InvalidRustVersion` error for text that
/// [`parse_package_version_s`] rejects: the first check that fails names
/// the problem (a malformed `X.Y.Z` gives that text alone).
pub open spec fn parse_error_s(s: Seq<char>) -> Seq<char> {
    match find_char_s(s, '-') {
        None => "missing '-' separator in version string: "@ + s,
        Some(i) => {
            let up = s.take(i);
            let rev = s.skip(i + 1);
            match find_s(up, tok_dfsg()) {
                None => "missing '+dfsg' in upstream part: "@ + up,
                Some(j) => if parse_rust_version_s(up.take(j)) is None {
                    up.take(j)
                } else {
                    let after = up.skip(j + 5);
                    match repack_split_s(after) {
                        None => "invalid repack number '"@ + after.take(leading_digits(after) as int)
                            + "' in '"@ + s + "'"@,
                        Some(rs) => if upstream_suffixes_s(rs.1) is None {
                            suffix_error_s(rs.1)
                        } else if debian_revision_s(strip_ppa_s(rev).0) is None {
                            revision_error_s(strip_ppa_s(rev).0, s)
                        } else {
                            "series and backport revision must appear together in '"@ + s + "'"@
                        },
                    }
                },
            }
        },
    }
}

// ── Parsing, executable ─────────────────────────────────────────────────────

fn leading_digit_count(s: &Vec<char>) -> (k: usize)
    ensures
        k == leading_digits(s@),
        k <= s.len(),
{
    let mut i: usize = s.len();
    // Count from the back so that the recursion on `skip(1)` unfolds from the front.
    let mut k: usize = 0;
    let mut j: usize = 0;
    assert(s@.skip(0) =~= s@);
    while j < s.len() && is_digit_char(s[j])
        invariant
            j <= s.len(),
            k == j,
            leading_digits(s@) == j + leading_digits(s@.skip(j as int)),
        decreases s.len() - j,
    {
        assert(s@.skip(j as int).skip(1) =~= s@.skip(j + 1));
        j = j + 1;
        k = k + 1;
    }
    k
}

/// The repack number and the rest, or `Err` with the digits that do not fit.
fn repack_split(s: &Vec<char>) -> (r: Result<(Option<u32>, Vec<char>), Vec<char>>)
    ensures
        r matches Ok(x) ==> repack_split_s(s@) == Some((x.0, x.1@)),
        r matches Err(d) ==> repack_split_s(s@) is None && d@ == s@.take(leading_digits(s@) as int),
{
    let k = leading_digit_count(s);
    if k == 0 {
        Ok((None, copy_chars(s)))
    } else {
        let digits = subvec(s, 0, k);
        assert(digits@ =~= s@.take(k as int));
        assert(s@.subrange(k as int, s@.len() as int) =~= s@.skip(k as int));
        match parse_u32(&digits) {
            Some(n) => Ok((Some(n), subvec(s, k, s.len()))),
            None => Err(digits),
        }
    }
}

fn series_and_repack(s: &Vec<char>) -> (r: Option<(Vec<char>, Option<u32>)>)
    ensures
        r matches Some(x) ==> series_and_repack_s(s@) == Some((x.0@, x.1)),
        r is None ==> series_and_repack_s(s@) is None,
{
    let parts = split_char(s, '.');
    if parts.len() == 2 {
        Some((copy_chars(s), None))
    } else if parts.len() == 3 {
        assert(dv(parts@)[0] == parts@[0]@);
        assert(dv(parts@)[1] == parts@[1]@);
        assert(dv(parts@)[2] == parts@[2]@);
        match parse_u32(&parts[2]) {
            Some(n) => {
                let mut ser = copy_chars(&parts[0]);
                ser.push('.');
                push_all(&mut ser, &parts[1]);
                assert(ser@ =~= parts@[0]@ + seq!['.'] + parts@[1]@);
                Some((ser, Some(n)))
            },
            None => None,
        }
    } else {
        None
    }
}

fn msg3(a: &str, b: &Vec<char>, c: &str) -> (r: Vec<char>)
    ensures
        r@ == a@ + b@ + c@,
{
    let mut r = str_chars(a);
    push_all(&mut r, b);
    push_all(&mut r, &str_chars(c));
    r
}

fn msg5(a: &str, b: &Vec<char>, c: &str, d: &Vec<char>, e: &str) -> (r: Vec<char>)
    ensures
        r@ == a@ + b@ + c@ + d@ + e@,
{
    let mut r = msg3(a, b, c);
    push_all(&mut r, d);
    push_all(&mut r, &str_chars(e));
    r
}

fn series_error(p: &Vec<char>) -> (r: Vec<char>)
    ensures
        r@ == series_error_s(p@),
{
    let parts = split_char(p, '.');
    if parts.len() == 3 {
        msg3("invalid backport repack number in '", p, "'")
    } else {
        msg3("invalid series format: '", p, "'")
    }
}

fn upstream_suffixes(s: &Vec<char>) -> (r: Result<(Option<Vec<char>>, Option<u32>, bool), Vec<char>>)
    ensures
        r matches Ok(x) ==> upstream_suffixes_s(s@) == Some(
            (
                match x.0 {
                    Some(v) => Some(v@),
                    None => None,
                },
                x.1,
                x.2,
            ),
        ),
        r matches Err(m) ==> upstream_suffixes_s(s@) is None && m@ == suffix_error_s(s@),
{
    if s.len() == 0 {
        return Ok((None, None, false));
    }
    if s[0] != '~' {
        return Err(msg3("unexpected characters after repack number in upstream part: '", s, "'"));
    }
    let rem = subvec(s, 1, s.len());
    assert(rem@ =~= s@.skip(1));
    let st0 = stage0_chars();
    if crate::text::chars_eq(&rem, &st0) {
        return Ok((None, None, true));
    }
    let tilde = char_vec('~');
    match find(&rem, &tilde) {
        Some(i) => {
            proof {
                crate::text::lemma_find_from_found(rem@, seq!['~'], 0);
                lemma_is_at_char(rem@, '~', i as int);
            }
            let after = subvec(&rem, i + 1, rem.len());
            assert(after@ =~= rem@.skip(i + 1));
            let before = subvec(&rem, 0, i);
            assert(before@ =~= rem@.take(i as int));
            if crate::text::chars_eq(&after, &st0) {
                match series_and_repack(&before) {
                    Some((ser, bp)) => Ok((Some(ser), bp, true)),
                    None => Err(series_error(&before)),
                }
            } else {
                Err(msg3("unexpected suffix after series in upstream: '~", &after, "'"))
            }
        },
        None => match series_and_repack(&rem) {
            Some((ser, bp)) => Ok((Some(ser), bp, false)),
            None => Err(series_error(&rem)),
        },
    }
}

fn strip_ppa(s: &Vec<char>) -> (r: (Vec<char>, Option<u32>))
    ensures
        r.0@ == strip_ppa_s(s@).0,
        r.1 == strip_ppa_s(s@).1,
{
    let pat = ppa_chars();
    match rfind(s, &pat) {
        Some(p) => {
            proof {
                crate::text::lemma_rfind_upto_found(s@, tok_ppa(), s@.len() - 4);
                assert(tok_ppa().len() == 4);
                assert(crate::text::is_at(s@, tok_ppa(), p as int));
                assert(p + 4 <= s@.len());
            }
            assert(p + 4 <= s.len());
            let after = subvec(s, p + 4, s.len());
            assert(after@ =~= s@.skip(p + 4));
            if after.len() > 0 && all_digit_chars(&after) {
                match parse_u32(&after) {
                    Some(n) => {
                        let main = subvec(s, 0, p);
                        assert(main@ =~= s@.take(p as int));
                        (main, Some(n))
                    },
                    None => (copy_chars(s), None),
                }
            } else {
                (copy_chars(s), None)
            }
        },
        None => (copy_chars(s), None),
    }
}

fn debian_revision(rev: &Vec<char>, full: &Vec<char>) -> (r: Result<(u32, Option<u32>), Vec<char>>)
    ensures
        r matches Ok(x) ==> debian_revision_s(rev@) == Some(x),
        r matches Err(m) ==> debian_revision_s(rev@) is None && m@ == revision_error_s(rev@, full@),
{
    let pre = ubuntu_chars();
    if !starts_with(rev, &pre) {
        return Err(msg5("debian revision must start with '0ubuntu': got '", rev, "' in '", full, "'"));
    }
    let a = subvec(rev, 7, rev.len());
    assert(a@ =~= rev@.skip(7));
    let tilde = char_vec('~');
    match find(&a, &tilde) {
        Some(i) => {
            proof {
                crate::text::lemma_find_from_found(a@, seq!['~'], 0);
                lemma_is_at_char(a@, '~', i as int);
            }
            let head = subvec(&a, 0, i);
            assert(head@ =~= a@.take(i as int));
            match parse_u32(&head) {
                Some(u) => {
                    let suf = subvec(&a, i + 1, a.len());
                    assert(suf@ =~= a@.skip(i + 1));
                    let dot = char_vec('.');
                    match rfind(&suf, &dot) {
                        Some(d) => {
                            proof {
                                crate::text::lemma_rfind_upto_found(
                                    suf@,
                                    seq!['.'],
                                    suf@.len() - 1,
                                );
                            }
                            let tail = subvec(&suf, d + 1, suf.len());
                            assert(tail@ =~= suf@.skip(d + 1));
                            match parse_u32(&tail) {
                                Some(b) => Ok((u, Some(b))),
                                None => Err(
                                    msg5("invalid backport revision '", &tail, "' in '", full, "'"),
                                ),
                            }
                        },
                        None => Err(
                            msg5(
                                "expected '<series>.<backport_revision>' but got '",
                                &suf,
                                "' in '",
                                full,
                                "'",
                            ),
                        ),
                    }
                },
                None => Err(msg5("invalid ubuntu revision number '", &head, "' in '", full, "'")),
            }
        },
        None => match parse_u32(&a) {
            Some(u) => Ok((u, None)),
            None => Err(msg5("invalid ubuntu revision number '", &a, "' in '", full, "'")),
        },
    }
}

fn invalid(prefix: &str, detail: &Vec<char>) -> (e: ThermiteError)
    ensures
        e matches ThermiteError::InvalidRustVersion(m) && m@ == prefix@ + detail@,
{
    ThermiteError::InvalidRustVersion(chars_to_string(&concat(&str_chars(prefix), detail)))
}

impl RustcPackageVersion {
    /// Parse a full Debian version string into a structured representation.
    ///
    /// Text that does not follow the format is rejected with
    /// `InvalidRustVersion`: among others, repack digits that do not fit a
    /// `u32`, and a series in the upstream part without a backport revision
    /// in the Debian revision (or the other way round).
    pub fn parse(s: &str) -> (r: Result<Self, ThermiteError>)
        ensures
            parse_package_version_s(s@) matches Some(f) ==> (r matches Ok(v) && v@ == f),
            r matches Ok(v) ==> backport_parts_agree(v@.series, v@.backport_revision),
            parse_package_version_s(s@) is None ==> (r matches Err(
                ThermiteError::InvalidRustVersion(m),
            ) && m@ == parse_error_s(s@)),
    {
        let cs = str_chars(s);
        let dash = char_vec('-');
        let i = match find(&cs, &dash) {
            Some(i) => i,
            None => {
                return Err(invalid("missing '-' separator in version string: ", &cs));
            },
        };
        proof {
            crate::text::lemma_find_from_found(cs@, seq!['-'], 0);
            lemma_is_at_char(cs@, '-', i as int);
        }
        let up = subvec(&cs, 0, i);
        assert(up@ =~= cs@.take(i as int));
        let rev = subvec(&cs, i + 1, cs.len());
        assert(rev@ =~= cs@.skip(i + 1));
        let dfsg = dfsg_chars();
        let j = match find(&up, &dfsg) {
            Some(j) => j,
            None => {
                return Err(invalid("missing '+dfsg' in upstream part: ", &up));
            },
        };
        proof {
            crate::text::lemma_find_from_found(up@, tok_dfsg(), 0);
        }
        let before = subvec(&up, 0, j);
        assert(before@ =~= up@.take(j as int));
        let upstream = match RustVersion::parse_chars(&before) {
            Some(v) => v,
            None => {
                return Err(ThermiteError::InvalidRustVersion(chars_to_string(&before)));
            },
        };
        let after = subvec(&up, j + 5, up.len());
        assert(after@ =~= up@.skip(j + 5));
        let (repack_number, rest) = match repack_split(&after) {
            Ok(x) => x,
            Err(d) => {
                return Err(
                    ThermiteError::InvalidRustVersion(
                        chars_to_string(&msg5("invalid repack number '", &d, "' in '", &cs, "'")),
                    ),
                );
            },
        };
        let (series, backport_repack, stage0) = match upstream_suffixes(&rest) {
            Ok(x) => x,
            Err(m) => {
                return Err(ThermiteError::InvalidRustVersion(chars_to_string(&m)));
            },
        };
        let (main, ppa) = strip_ppa(&rev);
        let (ubuntu_revision, backport_revision) = match debian_revision(&main, &cs) {
            Ok(x) => x,
            Err(m) => {
                return Err(ThermiteError::InvalidRustVersion(chars_to_string(&m)));
            },
        };
        if series.is_some() != backport_revision.is_some() {
            return Err(
                ThermiteError::InvalidRustVersion(
                    chars_to_string(
                        &msg3("series and backport revision must appear together in '", &cs, "'"),
                    ),
                ),
            );
        }
        let series = match series {
            Some(v) => Some(chars_to_string(&v)),
            None => None,
        };
        Ok(
            RustcPackageVersion {
                upstream,
                repack_number,
                series,
                backport_repack,
                stage0,
                ubuntu_revision,
                backport_revision,
                ppa,
            },
        )
    }
}

impl RustcPackageVersion {
    fn render_upstream_chars(&self) -> (r: Vec<char>)
        ensures
            r@ == render_upstream_part(self@),
    {
        let mut r = self.upstream.render_chars();
        push_all(&mut r, &dfsg_chars());
        if let Some(n) = self.repack_number {
            push_dec(&mut r, n as u64);
        }
        let ghost a = r@;
        assert(a =~= self.upstream.render() + tok_dfsg() + opt_dec(self.repack_number));
        let mut mid: Vec<char> = Vec::new();
        match &self.series {
            Some(series) => {
                mid.push('~');
                push_all(&mut mid, &str_chars(series.as_str()));
                if let Some(b) = self.backport_repack {
                    mid.push('.');
                    push_dec(&mut mid, b as u64);
                }
            },
            None => {},
        }
        let mut tail: Vec<char> = Vec::new();
        if self.stage0 {
            tail.push('~');
            push_all(&mut tail, &stage0_chars());
        }
        push_all(&mut r, &mid);
        push_all(&mut r, &tail);
        r
    }

    fn render_revision_chars(&self) -> (r: Vec<char>)
        ensures
            r@ == render_revision_part(self@),
    {
        let mut r = ubuntu_chars();
        push_dec(&mut r, self.ubuntu_revision as u64);
        let mut mid: Vec<char> = Vec::new();
        match &self.series {
            Some(series) => {
                mid.push('~');
                push_all(&mut mid, &str_chars(series.as_str()));
                mid.push('.');
                let b = match self.backport_revision {
                    Some(b) => b,
                    None => 1,
                };
                push_dec(&mut mid, b as u64);
            },
            None => {},
        }
        let mut tail: Vec<char> = Vec::new();
        if let Some(p) = self.ppa {
            push_all(&mut tail, &ppa_chars());
            push_dec(&mut tail, p as u64);
        }
        push_all(&mut r, &mid);
        push_all(&mut r, &tail);
        r
    }

    /// The version text as characters.
    pub fn render_chars(&self) -> (r: Vec<char>)
        ensures
            r@ == render_version(self@),
    {
        let mut r = self.render_upstream_chars();
        r.push('-');
        push_all(&mut r, &self.render_revision_chars());
        assert(r@ =~= render_version(self@));
        r
    }

    /// The version text (what `Display` prints).
    pub fn to_version_string(&self) -> (r: String)
        ensures
            r@ == render_version(self@),
    {
        chars_to_string(&self.render_chars())
    }

    /// Whether this version represents a backport.
    pub fn is_backport(&self) -> (r: bool)
        ensures
            r == self.series.is_some(),
    {
        self.series.is_some()
    }

    /// Whether this version represents a stage0 bootstrap package.
    pub fn is_stage0(&self) -> (r: bool)
        ensures
            r == self.stage0,
    {
        self.stage0
    }

    /// Convert into a backport targeting `target_series`: the series is set,
    /// the backport repack cleared, the backport revision reset to 1 and the
    /// stage0 marker and PPA suffix dropped; the upstream version, repack
    /// number and Ubuntu revision are kept. On a backport this retargets it.
    pub fn to_backport(&mut self, target_series: &str)
        ensures
            final(self)@ == to_backport_s(old(self)@, target_series@),
    {
        self.series = Some(chars_to_string(&str_chars(target_series)));
        self.backport_repack = None;
        self.backport_revision = Some(1);
        self.stage0 = false;
        self.ppa = None;
    }

    /// Change the target series of an existing backport; the same as
    /// [`Self::to_backport`].
    pub fn retarget_series(&mut self, new_series: &str)
        ensures
            final(self)@ == to_backport_s(old(self)@, new_series@),
    {
        self.to_backport(new_series);
    }

    /// Move to a new upstream patch release, resetting every other component
    /// to its initial state (bare `+dfsg`, no series, Ubuntu revision 1).
    pub fn bump_patch_release(&mut self, new_upstream: RustVersion)
        ensures
            final(self)@ == (VersionFields {
                upstream: new_upstream,
                repack_number: None,
                series: None,
                backport_repack: None,
                stage0: false,
                ubuntu_revision: 1,
                backport_revision: None,
                ppa: None,
            }),
    {
        self.upstream = new_upstream;
        self.repack_number = None;
        self.series = None;
        self.backport_repack = None;
        self.stage0 = false;
        self.ubuntu_revision = 1;
        self.backport_revision = None;
        self.ppa = None;
    }

    /// Increment the Ubuntu revision number.
    pub fn bump_ubuntu_revision(&mut self)
        requires
            old(self).ubuntu_revision < u32::MAX,
        ensures
            final(self)@ == (VersionFields {
                ubuntu_revision: (old(self).ubuntu_revision + 1) as u32,
                ..old(self)@
            }),
    {
        self.ubuntu_revision = self.ubuntu_revision + 1;
    }

    /// Increment the repack number (a bare `+dfsg` becomes `+dfsg1`) and reset
    /// the Ubuntu revision to 1.
    pub fn bump_repack(&mut self)
        requires
            old(self).repack_number matches Some(n) ==> n < u32::MAX,
        ensures
            final(self)@ == (VersionFields {
                repack_number: Some(
                    match old(self).repack_number {
                        Some(n) => (n + 1) as u32,
                        None => 1,
                    },
                ),
                ubuntu_revision: 1,
                ..old(self)@
            }),
    {
        self.repack_number = Some(
            match self.repack_number {
                Some(n) => n + 1,
                None => 1,
            },
        );
        self.ubuntu_revision = 1;
    }

    /// Increment the backport revision; a missing one becomes 2 (the initial
    /// upload counts as 1).
    pub fn bump_backport_revision(&mut self)
        requires
            old(self).backport_revision matches Some(n) ==> n < u32::MAX,
        ensures
            final(self)@ == (VersionFields {
                backport_revision: Some(
                    match old(self).backport_revision {
                        Some(n) => (n + 1) as u32,
                        None => 2,
                    },
                ),
                ..old(self)@
            }),
    {
        self.backport_revision = Some(
            match self.backport_revision {
                Some(n) => n + 1,
                None => 2,
            },
        );
    }

    /// Increment the backport repack (a missing one becomes 1) and reset the
    /// backport revision to 1.
    pub fn bump_backport_repack(&mut self)
        requires
            old(self).backport_repack matches Some(n) ==> n < u32::MAX,
        ensures
            final(self)@ == (VersionFields {
                backport_repack: Some(
                    match old(self).backport_repack {
                        Some(n) => (n + 1) as u32,
                        None => 1,
                    },
                ),
                backport_revision: Some(1),
                ..old(self)@
            }),
    {
        self.backport_repack = Some(
            match self.backport_repack {
                Some(n) => n + 1,
                None => 1,
            },
        );
        self.backport_revision = Some(1);
    }

    /// Set or clear the stage0 bootstrap marker.
    pub fn set_stage0(&mut self, stage0: bool)
        ensures
            final(self)@ == (VersionFields { stage0, ..old(self)@ }),
    {
        self.stage0 = stage0;
    }

    /// Construct a version from its components, without a PPA suffix.
    pub fn new(
        upstream: RustVersion,
        repack_number: Option<u32>,
        series: Option<String>,
        backport_repack: Option<u32>,
        stage0: bool,
        ubuntu_revision: u32,
        backport_revision: Option<u32>,
    ) -> (r: Self)
        ensures
            r@ == (VersionFields {
                upstream,
                repack_number,
                series: opt_view(series),
                backport_repack,
                stage0,
                ubuntu_revision,
                backport_revision,
                ppa: None,
            }),
    {
        RustcPackageVersion {
            upstream,
            repack_number,
            series,
            backport_repack,
            stage0,
            ubuntu_revision,
            backport_revision,
            ppa: None,
        }
    }

    /// Set the PPA upload number.
    pub fn set_ppa(&mut self, ppa: Option<u32>)
        ensures
            final(self)@ == (VersionFields { ppa, ..old(self)@ }),
    {
        self.ppa = ppa;
    }

    /// Increment the PPA number; a missing one becomes 1.
    pub fn bump_ppa(&mut self)
        requires
            old(self).ppa matches Some(n) ==> n < u32::MAX,
        ensures
            final(self)@ == (VersionFields {
                ppa: Some(
                    match old(self).ppa {
                        Some(n) => (n + 1) as u32,
                        None => 1,
                    },
                ),
                ..old(self)@
            }),
    {
        self.ppa = Some(
            match self.ppa {
                Some(n) => n + 1,
                None => 1,
            },
        );
    }

    /// Remove the PPA suffix (for the final archive upload).
    pub fn clear_ppa(&mut self)
        ensures
            final(self)@ == (VersionFields { ppa: None, ..old(self)@ }),
    {
        self.ppa = None;
    }
}

// ── Printing and parsing are inverse ────────────────────────────────────────

/// A series such as `24.04`: exactly one `.`, and neither `-` nor `~`.
pub open spec fn series_shape(s: Seq<char>) -> bool {
    &&& lacks(s, '-')
    &&& lacks(s, '~')
    &&& exists|a: Seq<char>, b: Seq<char>|
        lacks(a, '.') && lacks(b, '.') && s == a + seq!['.'] + b
}

/// A version whose text reads back as itself: a backport has a well-shaped
/// series and a backport revision; a non-backport has neither a backport
/// repack nor a backport revision.
pub open spec fn well_formed_version(v: VersionFields) -> bool {
    match v.series {
        Some(s) => series_shape(s) && v.backport_revision is Some,
        None => v.backport_repack is None && v.backport_revision is None,
    }
}

pub(crate) proof fn lemma_lacks_cat(x: Seq<char>, y: Seq<char>, c: char)
    requires
        lacks(x, c),
        lacks(y, c),
    ensures
        lacks(x + y, c),
{
    assert forall|i: int| 0 <= i < (x + y).len() implies (x + y)[i] != c by {
        if i >= x.len() {
            assert((x + y)[i] == y[i - x.len()]);
        }
    }
}

pub(crate) proof fn lemma_digits_lack(n: nat, c: char)
    requires
        !is_digit(c),
    ensures
        lacks(dec_s(n), c),
{
    lemma_dec_no_char(n, c);
}

proof fn lemma_series_and_repack(s: Seq<char>, bpr: Option<u32>)
    requires
        series_shape(s),
    ensures
        series_and_repack_s(s + opt_dot_dec(bpr)) == Some((s, bpr)),
{
    let ab = choose|a: Seq<char>, b: Seq<char>|
        lacks(a, '.') && lacks(b, '.') && s == a + seq!['.'] + b;
    let a = ab.0;
    let b = ab.1;
    let e: Seq<char> = seq![];
    lemma_split_concat(a, '.', b, e);
    lemma_split_single(a, '.');
    lemma_split_single(b, '.');
    assert(split_s(s, '.') =~= seq![a, b]);
    match bpr {
        None => {
            assert(s + opt_dot_dec(bpr) =~= s);
        },
        Some(n) => {
            let d = dec_s(n as nat);
            lemma_digits_lack(n as nat, '.');
            lemma_split_single(d, '.');
            lemma_split_concat(s, '.', d, e);
            assert(s + opt_dot_dec(bpr) =~= s + seq!['.'] + d);
            assert(split_s(s + opt_dot_dec(bpr), '.') =~= seq![a, b, d]);
            lemma_parse_dec(n);
        },
    }
}

proof fn lemma_stage0_lacks()
    ensures
        lacks(tok_stage0(), '~'),
        lacks(tok_stage0(), '.'),
        tok_stage0().len() == 6,
{
    assert forall|i: int| 0 <= i < 6 implies tok_stage0()[i] != '~' && tok_stage0()[i] != '.' by {
        assert(i == 0 || i == 1 || i == 2 || i == 3 || i == 4 || i == 5);
    }
}

proof fn lemma_upstream_suffixes(v: VersionFields)
    requires
        well_formed_version(v),
    ensures
        upstream_suffixes_s(series_part(v) + stage0_part(v)) == Some(
            (v.series, v.backport_repack, v.stage0),
        ),
{
    let w = series_part(v) + stage0_part(v);
    lemma_stage0_lacks();
    match v.series {
        None => {
            if v.stage0 {
                assert(w[0] == '~');
                assert(w.skip(1) =~= tok_stage0());
            } else {
                assert(w =~= seq![]);
            }
        },
        Some(s) => {
            let odd = opt_dot_dec(v.backport_repack);
            let rem = w.skip(1);
            assert(w[0] == '~');
            let ab = choose|a: Seq<char>, b: Seq<char>|
                lacks(a, '.') && lacks(b, '.') && s == a + seq!['.'] + b;
            assert(rem[ab.0.len() as int] == '.') by {
                assert(rem =~= s + odd + stage0_part(v));
                assert(s[ab.0.len() as int] == '.');
            }
            if rem == tok_stage0() {
                assert(rem.len() == 6);
                assert(tok_stage0()[ab.0.len() as int] != '.');
            }
            assert(lacks(odd, '~')) by {
                match v.backport_repack {
                    Some(n) => {
                        lemma_digits_lack(n as nat, '~');
                        assert(lacks(seq!['.'], '~'));
                        lemma_lacks_cat(seq!['.'], dec_s(n as nat), '~');
                    },
                    None => {},
                }
            }
            lemma_lacks_cat(s, odd, '~');
            if v.stage0 {
                assert(rem =~= (s + odd) + seq!['~'] + tok_stage0());
                lemma_find_after_prefix(s + odd, seq!['~'], tok_stage0());
                let i = (s + odd).len() as int;
                assert(rem.skip(i + 1) =~= tok_stage0());
                assert(rem.take(i) =~= s + odd);
                lemma_series_and_repack(s, v.backport_repack);
            } else {
                assert(rem =~= s + odd);
                lemma_find_absent_char(s + odd, seq!['~']);
                lemma_series_and_repack(s, v.backport_repack);
            }
        },
    }
}

proof fn lemma_ppa_lacks()
    ensures
        tok_ppa().len() == 4,
        tok_ppa()[0] == '~',
        lacks(tok_ppa().skip(1), '~'),
{
    assert forall|i: int| 0 <= i < 3 implies tok_ppa().skip(1)[i] != '~' by {
        assert(i == 0 || i == 1 || i == 2);
    }
}

proof fn lemma_ubuntu_tok()
    ensures
        tok_0ubuntu().len() == 7,
        lacks(tok_0ubuntu(), '~'),
        lacks(tok_0ubuntu(), '-'),
{
    assert forall|i: int| 0 <= i < 7 implies tok_0ubuntu()[i] != '~' && tok_0ubuntu()[i] != '-' by {
        assert(i == 0 || i == 1 || i == 2 || i == 3 || i == 4 || i == 5 || i == 6);
    }
}

/// Without a PPA number, no `~ppa<digits>` suffix is split off.
proof fn lemma_no_ppa_suffix(v: VersionFields)
    requires
        well_formed_version(v),
        v.ppa is None,
    ensures
        strip_ppa_s(tok_0ubuntu() + dec_s(v.ubuntu_revision as nat) + backport_revision_part(v))
            == (tok_0ubuntu() + dec_s(v.ubuntu_revision as nat) + backport_revision_part(v),
        None::<u32>),
{
    let pre = tok_0ubuntu() + dec_s(v.ubuntu_revision as nat);
    let x = pre + backport_revision_part(v);
    lemma_ubuntu_tok();
    lemma_ppa_lacks();
    lemma_digits_lack(v.ubuntu_revision as nat, '~');
    lemma_lacks_cat(tok_0ubuntu(), dec_s(v.ubuntu_revision as nat), '~');
    match v.series {
        None => {
            assert(x =~= pre);
            lemma_find_absent_char(x, tok_ppa());
        },
        Some(s) => {
            let b = v.backport_revision->0;
            let d = dec_s(b as nat);
            assert(x =~= pre + seq!['~'] + s + seq!['.'] + d);
            if rfind_s(x, tok_ppa()) is Some {
                let q = rfind_s(x, tok_ppa())->0;
                lemma_rfind_upto_found(x, tok_ppa(), x.len() - 4);
                assert(x.subrange(q, q + 4) == tok_ppa());
                assert(x[q] == x.subrange(q, q + 4)[0]);
                let k = pre.len() as int;
                // The only `~` is the one before the series.
                if q < k {
                    assert(x[q] == pre[q]);
                } else if q > k && q <= k + s.len() {
                    assert(x[q] == s[q - k - 1]);
                } else if q == k + s.len() + 1 {
                    assert(x[q] == '.');
                } else if q > k + s.len() + 1 {
                    lemma_digits_lack(b as nat, '~');
                    assert(x[q] == d[q - k - s.len() - 2]);
                }
                assert(q == k);
                // The `.` before the revision lies in what follows `~ppa`.
                let dotpos = k + s.len() + 1;
                assert(x[dotpos] == '.');
                if s.len() < 3 {
                    assert(x.subrange(q, q + 4)[(s.len() + 1) as int] == x[dotpos]);
                    assert(tok_ppa()[(s.len() + 1) as int] != '.');
                }
                let after = x.skip(q + 4);
                assert(after[dotpos - q - 4] == '.');
                assert(!all_digits(after));
            }
        },
    }
}

proof fn lemma_ppa_split(v: VersionFields)
    requires
        well_formed_version(v),
    ensures
        strip_ppa_s(render_revision_part(v)) == (tok_0ubuntu() + dec_s(v.ubuntu_revision as nat)
            + backport_revision_part(v), v.ppa),
{
    let x = tok_0ubuntu() + dec_s(v.ubuntu_revision as nat) + backport_revision_part(v);
    let r = render_revision_part(v);
    lemma_ppa_lacks();
    match v.ppa {
        Some(p) => {
            let d = dec_s(p as nat);
            lemma_digits_lack(p as nat, '~');
            lemma_lacks_cat(tok_ppa().skip(1), d, '~');
            assert(r =~= x + tok_ppa() + d);
            lemma_rfind_last(x, tok_ppa(), d);
            assert(r.skip((x.len() + 4) as int) =~= d);
            assert(r.take(x.len() as int) =~= x);
            lemma_dec_digits(p as nat);
            lemma_parse_dec(p);
        },
        None => {
            assert(r =~= x);
            lemma_no_ppa_suffix(v);
        },
    }
}

proof fn lemma_revision_part(v: VersionFields)
    requires
        well_formed_version(v),
    ensures
        strip_ppa_s(render_revision_part(v)).1 == v.ppa,
        debian_revision_s(strip_ppa_s(render_revision_part(v)).0) == Some(
            (v.ubuntu_revision, v.backport_revision),
        ),
{
    let x = tok_0ubuntu() + dec_s(v.ubuntu_revision as nat) + backport_revision_part(v);
    lemma_ppa_split(v);
    lemma_ubuntu_tok();
    assert(x.subrange(0, 7) =~= tok_0ubuntu());
    let a = x.skip(7);
    assert(a =~= dec_s(v.ubuntu_revision as nat) + backport_revision_part(v));
    lemma_parse_dec(v.ubuntu_revision);
    match v.series {
        None => {
            assert(a =~= dec_s(v.ubuntu_revision as nat));
            lemma_digits_lack(v.ubuntu_revision as nat, '~');
            lemma_find_absent_char(a, seq!['~']);
        },
        Some(s) => {
            let b = v.backport_revision->0;
            let d = dec_s(b as nat);
            let du = dec_s(v.ubuntu_revision as nat);
            lemma_digits_lack(v.ubuntu_revision as nat, '~');
            assert(a =~= du + seq!['~'] + (s + seq!['.'] + d));
            lemma_find_after_prefix(du, seq!['~'], s + seq!['.'] + d);
            assert(a.take(du.len() as int) =~= du);
            let suf = a.skip((du.len() + 1) as int);
            assert(suf =~= s + seq!['.'] + d);
            lemma_digits_lack(b as nat, '.');
            assert(seq!['.'].skip(1) + d =~= d);
            lemma_rfind_last(s, seq!['.'], d);
            assert(suf.skip((s.len() + 1) as int) =~= d);
            lemma_parse_dec(b);
        },
    }
}

pub(crate) proof fn lemma_version_lacks(rv: RustVersion, c: char)
    requires
        !is_digit(c),
        c != '.',
    ensures
        lacks(rv.render(), c),
{
    lemma_digits_lack(rv.major as nat, c);
    lemma_digits_lack(rv.minor as nat, c);
    lemma_digits_lack(rv.patch as nat, c);
    assert(lacks(seq!['.'], c));
    lemma_lacks_cat(dec_s(rv.major as nat), seq!['.'], c);
    lemma_lacks_cat(dec_s(rv.major as nat) + seq!['.'], dec_s(rv.minor as nat), c);
    lemma_lacks_cat(dec_s(rv.major as nat) + seq!['.'] + dec_s(rv.minor as nat), seq!['.'], c);
    lemma_lacks_cat(
        dec_s(rv.major as nat) + seq!['.'] + dec_s(rv.minor as nat) + seq!['.'],
        dec_s(rv.patch as nat),
        c,
    );
}

proof fn lemma_upstream_lacks_dash(v: VersionFields)
    requires
        well_formed_version(v),
    ensures
        lacks(render_upstream_part(v), '-'),
{
    lemma_version_lacks(v.upstream, '-');
    assert(lacks(tok_dfsg(), '-')) by {
        assert forall|i: int| 0 <= i < 5 implies tok_dfsg()[i] != '-' by {
            assert(i == 0 || i == 1 || i == 2 || i == 3 || i == 4);
        }
    }
    let od = opt_dec(v.repack_number);
    assert(lacks(od, '-')) by {
        if let Some(n) = v.repack_number {
            lemma_digits_lack(n as nat, '-');
        }
    }
    let sp = series_part(v);
    assert(lacks(sp, '-')) by {
        if let Some(s) = v.series {
            let odd = opt_dot_dec(v.backport_repack);
            assert(lacks(odd, '-')) by {
                if let Some(n) = v.backport_repack {
                    lemma_digits_lack(n as nat, '-');
                    lemma_lacks_cat(seq!['.'], dec_s(n as nat), '-');
                }
            }
            lemma_lacks_cat(seq!['~'], s, '-');
            lemma_lacks_cat(seq!['~'] + s, odd, '-');
        }
    }
    let st = stage0_part(v);
    assert(lacks(st, '-')) by {
        if v.stage0 {
            assert forall|i: int| 0 <= i < 7 implies st[i] != '-' by {
                assert(i == 0 || i == 1 || i == 2 || i == 3 || i == 4 || i == 5 || i == 6);
            }
        }
    }
    lemma_lacks_cat(v.upstream.render(), tok_dfsg(), '-');
    lemma_lacks_cat(v.upstream.render() + tok_dfsg(), od, '-');
    lemma_lacks_cat(v.upstream.render() + tok_dfsg() + od, sp, '-');
    lemma_lacks_cat(v.upstream.render() + tok_dfsg() + od + sp, st, '-');
}

/// Printing a well-formed version and parsing the text back gives the same
/// version.
#[verifier::rlimit(40)]
pub proof fn lemma_version_roundtrip(v: VersionFields)
    requires
        well_formed_version(v),
    ensures
        parse_package_version_s(render_version(v)) == Some(v),
{
    let u = render_upstream_part(v);
    let r = render_revision_part(v);
    let t = render_version(v);
    lemma_upstream_lacks_dash(v);
    assert(t =~= u + seq!['-'] + r);
    lemma_find_after_prefix(u, seq!['-'], r);
    assert(t.take(u.len() as int) =~= u);
    assert(t.skip((u.len() + 1) as int) =~= r);
    // The `+dfsg` marker follows the upstream version.
    let vr = v.upstream.render();
    let tail = opt_dec(v.repack_number) + series_part(v) + stage0_part(v);
    lemma_version_lacks(v.upstream, '+');
    assert(u =~= vr + tok_dfsg() + tail);
    lemma_find_after_prefix(vr, tok_dfsg(), tail);
    assert(u.take(vr.len() as int) =~= vr);
    crate::types::versions::lemma_rust_version_roundtrip(v.upstream);
    assert(u.skip((vr.len() + 5) as int) =~= tail);
    // The repack number.
    let st = series_part(v) + stage0_part(v);
    assert(leading_digits(st) == 0) by {
        if st.len() > 0 {
            assert(st[0] == '~');
        }
    }
    match v.repack_number {
        Some(n) => {
            lemma_dec_digits(n as nat);
            lemma_leading_digits_concat(dec_s(n as nat), st);
            assert(tail =~= dec_s(n as nat) + st);
            assert(tail.take(dec_s(n as nat).len() as int) =~= dec_s(n as nat));
            assert(tail.skip(dec_s(n as nat).len() as int) =~= st);
            lemma_parse_dec(n);
        },
        None => {
            assert(tail =~= st);
        },
    }
    lemma_upstream_suffixes(v);
    lemma_revision_part(v);
}

} // verus!
