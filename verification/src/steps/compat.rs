//! Compatibility checks for backporting.
//!
//! Each check infers a required version or dependency from the source
//! packaging, looks it up in the target release's archive, and reports
//! either a confirmation or the applicable fix.  Only the known common fixes
//! (LLVM, libgit2, dh-cargo, pkgconf, cmake, debhelper-compat) are detected.
//!
//! This module holds the decisions; reading the packaging files, querying
//! `rmadison` and running `dpkg --compare-versions` are left to the caller,
//! which hands over the file contents and the answers.
use vstd::prelude::*;

use crate::text::{
    after_first, after_first_s, chars_to_string, copy_chars, dv, find, find_s, is_at, is_digit,
    is_digit_char, is_ws, lines, lines_s, matches_at, push_all, split_char, split_s, starts_with,
    starts_with_s, str_chars, subvec, trim_end_s, trim_end_v, trim_s, trim_start_s, trim_start_v,
    trim_v,
};

verus! {

// ── Public types ──────────────────────────────────────────────────────────────

/// The outcome of inferring a required version or dependency from the source
/// packaging.
#[derive(Debug, Clone)]
pub enum Inference {
    /// A value was inferred: `value` is its human-readable form (e.g. `"19"`,
    /// `"1.9.0~~"`), `source` names where it was found.
    Inferred { value: String, source: String },
    /// The value could not be determined; the reason says what was expected.
    CouldNotInfer(String),
}

/// The abstract content of an [`Inference`].
pub enum InferenceV {
    Inferred { value: Seq<char>, source: Seq<char> },
    CouldNotInfer(Seq<char>),
}

impl View for Inference {
    type V = InferenceV;

    open spec fn view(&self) -> InferenceV {
        match self {
            Inference::Inferred { value, source } => InferenceV::Inferred {
                value: value@,
                source: source@,
            },
            Inference::CouldNotInfer(r) => InferenceV::CouldNotInfer(r@),
        }
    }
}

impl Inference {
    /// Returns `true` when this is an `Inferred` value (regardless of whether
    /// the value string is empty).
    pub fn is_inferred(&self) -> (r: bool)
        ensures
            r == (self is Inferred),
    {
        match self {
            Inference::Inferred { .. } => true,
            Inference::CouldNotInfer(_) => false,
        }
    }
}

/// The status of a package/version in the target release's archive.
#[derive(Debug, Clone)]
pub enum ArchiveStatus {
    /// The package is published in the archive; carries its version string.
    Available(String),
    /// The package is published but older than the required version.
    TooOld { available: String, required: String },
    /// The package is not published in the archive at all.
    NotPublished,
    /// The archive check itself failed (e.g. `rmadison` not installed).
    CheckFailed(String),
}

/// The abstract content of an [`ArchiveStatus`].
pub enum ArchiveStatusV {
    Available(Seq<char>),
    TooOld { available: Seq<char>, required: Seq<char> },
    NotPublished,
    CheckFailed(Seq<char>),
}

impl View for ArchiveStatus {
    type V = ArchiveStatusV;

    open spec fn view(&self) -> ArchiveStatusV {
        match self {
            ArchiveStatus::Available(v) => ArchiveStatusV::Available(v@),
            ArchiveStatus::TooOld { available, required } => ArchiveStatusV::TooOld {
                available: available@,
                required: required@,
            },
            ArchiveStatus::NotPublished => ArchiveStatusV::NotPublished,
            ArchiveStatus::CheckFailed(m) => ArchiveStatusV::CheckFailed(m@),
        }
    }
}

/// The combined result of a single compatibility check.
#[derive(Debug, Clone)]
pub struct CheckResult {
    /// Short human-readable name of the check (e.g. `"LLVM"`).
    pub name: &'static str,
    /// What was inferred from the source packaging.
    pub inference: Inference,
    /// What was found (or failed to be found) in the archive.
    pub archive_status: ArchiveStatus,
    /// One-line summary of the applicable fix, or empty when none is needed.
    pub guidance: &'static str,
    /// Launchpad URL for manual verification.
    pub url: String,
}

impl CheckResult {
    /// Returns `true` when the check passed and no action is needed.
    pub fn is_ok(&self) -> (r: bool)
        ensures
            r == (self.archive_status is Available),
    {
        match self.archive_status {
            ArchiveStatus::Available(_) => true,
            _ => false,
        }
    }
}

// ── Word-boundary helpers ─────────────────────────────────────────────────────

/// Whitespace, a comma, a parenthesis or `|` ends a word.
pub open spec fn is_word_boundary_s(c: char) -> bool {
    c == ' ' || c == '\t' || c == ',' || c == '(' || c == ')' || c == '|'
}

/// A character is a word boundary when it is a space, a tab, a comma, a
/// parenthesis or `|`.
pub fn is_word_boundary(c: char) -> (r: bool)
    ensures
        r == is_word_boundary_s(c),
{
    c == ' ' || c == '\t' || c == ',' || c == '(' || c == ')' || c == '|'
}

/// The occurrence of `w` at `i` stands as a whole word: the characters just
/// before and after it, where there are any, are word boundaries.
pub open spec fn whole_word_at(s: Seq<char>, w: Seq<char>, i: int) -> bool {
    &&& (i == 0 || is_word_boundary_s(s[i - 1]))
    &&& (i + w.len() >= s.len() || is_word_boundary_s(s[i + w.len()]))
}

/// The search for `w` as a whole word from position `i`: occurrences are
/// tried left to right, and after one that is not a whole word the search
/// resumes after its end.
pub open spec fn find_word_from_s(s: Seq<char>, w: Seq<char>, i: int) -> Option<int>
    decreases s.len() + 1 - i,
{
    if w.len() == 0 || i < 0 || i + w.len() > s.len() {
        None
    } else if is_at(s, w, i) {
        if whole_word_at(s, w, i) {
            Some(i)
        } else {
            find_word_from_s(s, w, i + w.len())
        }
    } else {
        find_word_from_s(s, w, i + 1)
    }
}

pub open spec fn find_word_s(s: Seq<char>, w: Seq<char>) -> Option<int> {
    find_word_from_s(s, w, 0)
}

/// A word found by the search occurs where it was found.
pub proof fn lemma_find_word_at(s: Seq<char>, w: Seq<char>, i: int)
    requires
        find_word_from_s(s, w, i) is Some,
    ensures
        is_at(s, w, find_word_from_s(s, w, i)->0),
        whole_word_at(s, w, find_word_from_s(s, w, i)->0),
    decreases s.len() + 1 - i,
{
    if w.len() == 0 || i < 0 || i + w.len() > s.len() {
    } else if is_at(s, w, i) {
        if !whole_word_at(s, w, i) {
            lemma_find_word_at(s, w, i + w.len());
        }
    } else {
        lemma_find_word_at(s, w, i + 1);
    }
}

/// `w` holds no word-boundary character.
pub open spec fn free_of_boundaries(w: Seq<char>) -> bool {
    forall|j: int| 0 <= j < w.len() ==> !is_word_boundary_s(#[trigger] w[j])
}

/// `w` stands as a whole word at position `k` of `s`.
pub open spec fn whole_word_occurrence(s: Seq<char>, w: Seq<char>, k: int) -> bool {
    is_at(s, w, k) && whole_word_at(s, w, k)
}

proof fn lemma_find_word_from_least(s: Seq<char>, w: Seq<char>, i: int)
    requires
        w.len() > 0,
        free_of_boundaries(w),
        0 <= i,
    ensures
        match find_word_from_s(s, w, i) {
            Some(r) => i <= r && whole_word_occurrence(s, w, r) && forall|k: int|
                i <= k < r ==> !whole_word_occurrence(s, w, k),
            None => forall|k: int| i <= k ==> !whole_word_occurrence(s, w, k),
        },
    decreases s.len() + 1 - i,
{
    if i + w.len() > s.len() {
    } else if is_at(s, w, i) {
        if whole_word_at(s, w, i) {
        } else {
            lemma_find_word_from_least(s, w, i + w.len());
            assert forall|k: int| i <= k < i + w.len() implies !whole_word_occurrence(s, w, k) by {
                if k > i && whole_word_occurrence(s, w, k) {
                    assert(s[k - 1] == s.subrange(i, i + w.len())[k - 1 - i]);
                    assert(is_word_boundary_s(w[k - 1 - i]));
                }
            }
        }
    } else {
        lemma_find_word_from_least(s, w, i + 1);
    }
}

/// When the word holds no boundary character, the search finds the first
/// position where the word stands as a whole word, and `None` exactly when
/// there is no such position.
pub proof fn lemma_find_word_first(s: Seq<char>, w: Seq<char>)
    requires
        w.len() > 0,
        free_of_boundaries(w),
    ensures
        match find_word_s(s, w) {
            Some(r) => whole_word_occurrence(s, w, r) && forall|k: int|
                0 <= k < r ==> !whole_word_occurrence(s, w, k),
            None => forall|k: int| !whole_word_occurrence(s, w, k),
        },
{
    lemma_find_word_from_least(s, w, 0);
}

/// Find the (character) position of `word` in `line` where it appears as a
/// whole word.
pub fn find_word(line: &str, word: &str) -> (r: Option<usize>)
    requires
        word@.len() > 0,
    ensures
        match r {
            Some(i) => find_word_s(line@, word@) == Some(i as int),
            None => find_word_s(line@, word@) is None,
        },
{
    find_word_chars(&str_chars(line), &str_chars(word))
}

fn find_word_chars(s: &Vec<char>, w: &Vec<char>) -> (r: Option<usize>)
    requires
        w.len() > 0,
    ensures
        match r {
            Some(i) => find_word_s(s@, w@) == Some(i as int),
            None => find_word_s(s@, w@) is None,
        },
{
    let n = s.len();
    let m = w.len();
    if m > n {
        return None;
    }
    let mut i: usize = 0;
    while i <= n - m
        invariant
            n == s.len(),
            m == w.len(),
            0 < m <= n,
            find_word_s(s@, w@) == find_word_from_s(s@, w@, i as int),
        decreases n + 1 - i,
    {
        if matches_at(s, w, i) {
            let before_ok = i == 0 || is_word_boundary(s[i - 1]);
            let after_ok = i + m >= n || is_word_boundary(s[i + m]);
            if before_ok && after_ok {
                return Some(i);
            }
            i = i + m;
        } else {
            i = i + 1;
        }
    }
    None
}

/// Returns `true` when `word` appears in `line` as a whole word.
pub fn contains_word(line: &str, word: &str) -> (r: bool)
    requires
        word@.len() > 0,
    ensures
        r == (find_word_s(line@, word@) is Some),
{
    find_word(line, word).is_some()
}

// ── Inference from the packaging ─────────────────────────────────────────────

/// The six compatibility checks, in display order.
#[derive(Debug, Clone, Copy, PartialEq, Eq, Structural)]
pub enum CompatCheck {
    Llvm,
    Libgit2,
    DhCargo,
    Pkgconf,
    Cmake,
    DebhelperCompat,
}

/// A line whose first non-space character is `#`.
pub open spec fn is_commented_s(l: Seq<char>) -> bool {
    starts_with_s(trim_start_s(l), seq!['#'])
}

/// `s` without leading spaces, tabs, `=` and `:`.
pub open spec fn trim_assign_s(s: Seq<char>) -> Seq<char>
    decreases s.len(),
{
    if s.len() > 0 && (s[0] == ' ' || s[0] == '=' || s[0] == ':' || s[0] == '\t') {
        trim_assign_s(s.skip(1))
    } else {
        s
    }
}

/// Non-empty, and only ASCII digits and dots.
pub open spec fn is_version_number_s(s: Seq<char>) -> bool {
    s.len() > 0 && forall|i: int| 0 <= i < s.len() ==> is_digit(#[trigger] s[i]) || s[i] == '.'
}

/// The trimmed text between the first `op` and the next `)`.
pub open spec fn constraint_s(a: Seq<char>, op: Seq<char>) -> Option<Seq<char>> {
    match after_first_s(a, op) {
        Some(rest) => match find_s(rest, seq![')']) {
            Some(e) => Some(trim_s(rest.take(e))),
            None => None,
        },
        None => None,
    }
}

/// `name (>= v)` in the source text, or `name (no version constraint)`.
pub open spec fn constrained_source_s(file: Seq<char>, name: Seq<char>, op: Seq<char>, v: Seq<
    char,
>) -> Seq<char> {
    file + ": "@ + name + " "@ + op + " "@ + v + ")"@
}

pub open spec fn unconstrained_s(name: Seq<char>) -> InferenceV {
    InferenceV::Inferred {
        value: seq![],
        source: "debian/control: "@ + name + " (no version constraint)"@,
    }
}

/// What a line (already trimmed) of `debian/rules` says of the LLVM version:
/// `LLVM_VERSION`, optional spaces, `=` or `:`, and a version number.
pub open spec fn llvm_line_s(t: Seq<char>) -> Option<InferenceV> {
    if starts_with_s(t, "LLVM_VERSION"@) {
        let r = trim_end_s(trim_assign_s(t.skip("LLVM_VERSION"@.len() as int)));
        if is_version_number_s(r) {
            Some(InferenceV::Inferred { value: r, source: "debian/rules: LLVM_VERSION = "@ + r })
        } else {
            None
        }
    } else {
        None
    }
}

/// A line naming `name`: its `(>= v)` constraint, or no constraint.  With
/// `need_value`, an empty `v` counts as no constraint.
pub open spec fn dependency_line_s(after: Seq<char>, name: Seq<char>, need_value: bool) -> InferenceV {
    match constraint_s(after, "(>="@) {
        Some(v) => if need_value && v.len() == 0 {
            unconstrained_s(name)
        } else {
            InferenceV::Inferred {
                value: v,
                source: constrained_source_s("debian/control"@, name, "(>="@, v),
            }
        },
        None => unconstrained_s(name),
    }
}

pub open spec fn libgit2_line_s(t: Seq<char>) -> Option<InferenceV> {
    match after_first_s(t, "libgit2-dev"@) {
        Some(a) => Some(dependency_line_s(a, "libgit2-dev"@, true)),
        None => None,
    }
}

pub open spec fn dh_cargo_line_s(t: Seq<char>) -> Option<InferenceV> {
    match after_first_s(t, "dh-cargo"@) {
        Some(a) => Some(dependency_line_s(a, "dh-cargo"@, false)),
        None => None,
    }
}

/// `cmake` as a whole word, not followed by `-` or `3`.
pub open spec fn cmake_line_s(t: Seq<char>) -> Option<InferenceV> {
    match find_word_s(t, "cmake"@) {
        Some(i) => {
            let a = t.skip(i + "cmake"@.len());
            if a.len() > 0 && (a[0] == '-' || a[0] == '3') {
                None
            } else {
                Some(dependency_line_s(a, "cmake"@, false))
            }
        },
        None => None,
    }
}

pub open spec fn pkgconf_line_s(t: Seq<char>) -> Option<InferenceV> {
    if find_word_s(t, "pkgconf"@) is Some && find_word_s(t, "pkg-config"@) is None {
        Some(
            InferenceV::Inferred {
                value: "present"@,
                source: "debian/control: pkgconf in Build-Depends"@,
            },
        )
    } else if find_word_s(t, "pkg-config"@) is Some {
        Some(
            InferenceV::Inferred {
                value: "pkg-config"@,
                source: "debian/control: pkg-config in Build-Depends"@,
            },
        )
    } else {
        None
    }
}

/// `debhelper-compat (= N)`, else `debhelper-compat (>= N)`, with `N`
/// non-empty.
pub open spec fn debhelper_line_s(t: Seq<char>) -> Option<InferenceV> {
    match after_first_s(t, "debhelper-compat"@) {
        Some(a) => match constraint_s(a, "(="@) {
            Some(v) if v.len() > 0 => Some(
                InferenceV::Inferred {
                    value: v,
                    source: constrained_source_s("debian/control"@, "debhelper-compat"@, "(="@, v),
                },
            ),
            _ => match constraint_s(a, "(>="@) {
                Some(v) if v.len() > 0 => Some(
                    InferenceV::Inferred {
                        value: v,
                        source: constrained_source_s(
                            "debian/control"@,
                            "debhelper-compat"@,
                            "(>="@,
                            v,
                        ),
                    },
                ),
                _ => None,
            },
        },
        None => None,
    }
}

pub open spec fn probe_line_s(c: CompatCheck, t: Seq<char>) -> Option<InferenceV> {
    match c {
        CompatCheck::Llvm => llvm_line_s(t),
        CompatCheck::Libgit2 => libgit2_line_s(t),
        CompatCheck::DhCargo => dh_cargo_line_s(t),
        CompatCheck::Pkgconf => pkgconf_line_s(t),
        CompatCheck::Cmake => cmake_line_s(t),
        CompatCheck::DebhelperCompat => debhelper_line_s(t),
    }
}

/// What the first uncommented line that says anything says.
pub open spec fn scan_lines_s(c: CompatCheck, ls: Seq<Seq<char>>) -> Option<InferenceV>
    decreases ls.len(),
{
    if ls.len() == 0 {
        None
    } else if !is_commented_s(ls[0]) && probe_line_s(c, trim_s(ls[0])) is Some {
        probe_line_s(c, trim_s(ls[0]))
    } else {
        scan_lines_s(c, ls.skip(1))
    }
}

pub open spec fn not_found_reason_s(c: CompatCheck) -> Seq<char> {
    match c {
        CompatCheck::Llvm => "no uncommented 'LLVM_VERSION = <N>' assignment found in debian/rules"@,
        CompatCheck::Libgit2 => "no libgit2-dev entry found in debian/control Build-Depends"@,
        CompatCheck::DhCargo => "no dh-cargo entry found in debian/control"@,
        CompatCheck::Pkgconf => "neither pkgconf nor pkg-config found in debian/control"@,
        CompatCheck::Cmake => "no cmake entry found in debian/control"@,
        CompatCheck::DebhelperCompat => "no debhelper-compat entry found in debian/control"@,
    }
}

/// What check `c` infers from the text of its packaging file
/// (`debian/rules` for LLVM, `debian/control` for the others).
pub open spec fn infer_s(c: CompatCheck, content: Seq<char>) -> InferenceV {
    match scan_lines_s(c, lines_s(content)) {
        Some(i) => i,
        None => InferenceV::CouldNotInfer(not_found_reason_s(c)),
    }
}

fn trim_assign(s: &Vec<char>) -> (r: Vec<char>)
    ensures
        r@ == trim_assign_s(s@),
{
    let mut i: usize = 0;
    assert(s@.skip(0) =~= s@);
    while i < s.len() && (s[i] == ' ' || s[i] == '=' || s[i] == ':' || s[i] == '\t')
        invariant
            i <= s.len(),
            trim_assign_s(s@) == trim_assign_s(s@.skip(i as int)),
        decreases s.len() - i,
    {
        assert(s@.skip(i as int).skip(1) =~= s@.skip(i + 1));
        i = i + 1;
    }
    let n = s.len();
    subvec(s, i, n)
}

fn is_version_number(s: &Vec<char>) -> (r: bool)
    ensures
        r == is_version_number_s(s@),
{
    if s.len() == 0 {
        return false;
    }
    let mut i: usize = 0;
    while i < s.len()
        invariant
            i <= s.len(),
            forall|j: int| 0 <= j < i ==> is_digit(#[trigger] s@[j]) || s@[j] == '.',
        decreases s.len() - i,
    {
        if !(is_digit_char(s[i]) || s[i] == '.') {
            return false;
        }
        i = i + 1;
    }
    true
}

fn constraint(a: &Vec<char>, op: &Vec<char>) -> (r: Option<Vec<char>>)
    ensures
        match r {
            Some(v) => constraint_s(a@, op@) == Some(v@),
            None => constraint_s(a@, op@) is None,
        },
{
    match after_first(a, op) {
        Some(rest) => {
            let close = str_chars(")");
            proof {
                reveal_strlit(")");
            }
            assert(close@ =~= seq![')']);
            match find(&rest, &close) {
                Some(e) => {
                    proof {
                        crate::text::lemma_find_from_found(rest@, seq![')'], 0);
                    }
                    let inner = subvec(&rest, 0, e);
                    assert(inner@ =~= rest@.take(e as int));
                    Some(trim_v(&inner))
                },
                None => None,
            }
        },
        None => None,
    }
}

fn inferred(value: Vec<char>, source: Vec<char>) -> (r: Inference)
    ensures
        r@ == (InferenceV::Inferred { value: value@, source: source@ }),
{
    Inference::Inferred { value: chars_to_string(&value), source: chars_to_string(&source) }
}

fn unconstrained(name: &str) -> (r: Inference)
    ensures
        r@ == unconstrained_s(name@),
{
    let mut src = str_chars("debian/control: ");
    push_all(&mut src, &str_chars(name));
    push_all(&mut src, &str_chars(" (no version constraint)"));
    inferred(Vec::new(), src)
}

fn constrained(name: &str, op: &str, v: &Vec<char>) -> (r: Inference)
    ensures
        r@ == (InferenceV::Inferred {
            value: v@,
            source: constrained_source_s("debian/control"@, name@, op@, v@),
        }),
{
    let mut src = str_chars("debian/control");
    push_all(&mut src, &str_chars(": "));
    push_all(&mut src, &str_chars(name));
    push_all(&mut src, &str_chars(" "));
    push_all(&mut src, &str_chars(op));
    push_all(&mut src, &str_chars(" "));
    push_all(&mut src, v);
    push_all(&mut src, &str_chars(")"));
    inferred(copy_chars(v), src)
}

fn dependency_line(after: &Vec<char>, name: &str, need_value: bool) -> (r: Inference)
    ensures
        r@ == dependency_line_s(after@, name@, need_value),
{
    match constraint(after, &str_chars("(>=")) {
        Some(v) => if need_value && v.len() == 0 {
            unconstrained(name)
        } else {
            constrained(name, "(>=", &v)
        },
        None => unconstrained(name),
    }
}

fn llvm_line(t: &Vec<char>) -> (r: Option<Inference>)
    ensures
        match r {
            Some(i) => llvm_line_s(t@) == Some(i@),
            None => llvm_line_s(t@) is None,
        },
{
    let key = str_chars("LLVM_VERSION");
    if !starts_with(t, &key) {
        return None;
    }
    let n = t.len();
    let rest = subvec(t, key.len(), n);
    assert(rest@ =~= t@.skip("LLVM_VERSION"@.len() as int));
    let r = trim_end_v(&trim_assign(&rest));
    if !is_version_number(&r) {
        return None;
    }
    let mut src = str_chars("debian/rules: LLVM_VERSION = ");
    push_all(&mut src, &r);
    Some(inferred(r, src))
}

fn libgit2_line(t: &Vec<char>) -> (r: Option<Inference>)
    ensures
        match r {
            Some(i) => libgit2_line_s(t@) == Some(i@),
            None => libgit2_line_s(t@) is None,
        },
{
    match after_first(t, &str_chars("libgit2-dev")) {
        Some(a) => Some(dependency_line(&a, "libgit2-dev", true)),
        None => None,
    }
}

fn dh_cargo_line(t: &Vec<char>) -> (r: Option<Inference>)
    ensures
        match r {
            Some(i) => dh_cargo_line_s(t@) == Some(i@),
            None => dh_cargo_line_s(t@) is None,
        },
{
    match after_first(t, &str_chars("dh-cargo")) {
        Some(a) => Some(dependency_line(&a, "dh-cargo", false)),
        None => None,
    }
}

fn cmake_line(t: &Vec<char>) -> (r: Option<Inference>)
    ensures
        match r {
            Some(i) => cmake_line_s(t@) == Some(i@),
            None => cmake_line_s(t@) is None,
        },
{
    let w = str_chars("cmake");
    proof {
        reveal_strlit("cmake");
    }
    match find_word_chars(t, &w) {
        Some(i) => {
            proof {
                lemma_find_word_at(t@, w@, 0);
            }
            let n = t.len();
            let a = subvec(t, i + w.len(), n);
            assert(a@ =~= t@.skip(i + "cmake"@.len()));
            if a.len() > 0 && (a[0] == '-' || a[0] == '3') {
                None
            } else {
                Some(dependency_line(&a, "cmake", false))
            }
        },
        None => None,
    }
}

fn pkgconf_line(t: &Vec<char>) -> (r: Option<Inference>)
    ensures
        match r {
            Some(i) => pkgconf_line_s(t@) == Some(i@),
            None => pkgconf_line_s(t@) is None,
        },
{
    let pkgconf = str_chars("pkgconf");
    let pkg_config = str_chars("pkg-config");
    proof {
        reveal_strlit("pkgconf");
        reveal_strlit("pkg-config");
    }
    let has_pkgconf = find_word_chars(t, &pkgconf).is_some();
    let has_pkg_config = find_word_chars(t, &pkg_config).is_some();
    if has_pkgconf && !has_pkg_config {
        Some(
            inferred(
                str_chars("present"),
                str_chars("debian/control: pkgconf in Build-Depends"),
            ),
        )
    } else if has_pkg_config {
        Some(
            inferred(
                str_chars("pkg-config"),
                str_chars("debian/control: pkg-config in Build-Depends"),
            ),
        )
    } else {
        None
    }
}

fn debhelper_line(t: &Vec<char>) -> (r: Option<Inference>)
    ensures
        match r {
            Some(i) => debhelper_line_s(t@) == Some(i@),
            None => debhelper_line_s(t@) is None,
        },
{
    match after_first(t, &str_chars("debhelper-compat")) {
        Some(a) => {
            match constraint(&a, &str_chars("(=")) {
                Some(v) => if v.len() > 0 {
                    return Some(constrained_debhelper("(=", &v));
                },
                None => {},
            }
            match constraint(&a, &str_chars("(>=")) {
                Some(v) => if v.len() > 0 {
                    return Some(constrained_debhelper("(>=", &v));
                },
                None => {},
            }
            None
        },
        None => None,
    }
}

fn constrained_debhelper(op: &str, v: &Vec<char>) -> (r: Inference)
    ensures
        r@ == (InferenceV::Inferred {
            value: v@,
            source: constrained_source_s("debian/control"@, "debhelper-compat"@, op@, v@),
        }),
{
    constrained("debhelper-compat", op, v)
}

fn probe_line(c: CompatCheck, t: &Vec<char>) -> (r: Option<Inference>)
    ensures
        match r {
            Some(i) => probe_line_s(c, t@) == Some(i@),
            None => probe_line_s(c, t@) is None,
        },
{
    match c {
        CompatCheck::Llvm => llvm_line(t),
        CompatCheck::Libgit2 => libgit2_line(t),
        CompatCheck::DhCargo => dh_cargo_line(t),
        CompatCheck::Pkgconf => pkgconf_line(t),
        CompatCheck::Cmake => cmake_line(t),
        CompatCheck::DebhelperCompat => debhelper_line(t),
    }
}

fn not_found_reason(c: CompatCheck) -> (r: String)
    ensures
        r@ == not_found_reason_s(c),
{
    let s = match c {
        CompatCheck::Llvm => "no uncommented 'LLVM_VERSION = <N>' assignment found in debian/rules",
        CompatCheck::Libgit2 => "no libgit2-dev entry found in debian/control Build-Depends",
        CompatCheck::DhCargo => "no dh-cargo entry found in debian/control",
        CompatCheck::Pkgconf => "neither pkgconf nor pkg-config found in debian/control",
        CompatCheck::Cmake => "no cmake entry found in debian/control",
        CompatCheck::DebhelperCompat => "no debhelper-compat entry found in debian/control",
    };
    chars_to_string(&str_chars(s))
}

fn is_commented(l: &Vec<char>) -> (r: bool)
    ensures
        r == is_commented_s(l@),
{
    let t = trim_start_v(l);
    let hash = str_chars("#");
    proof {
        reveal_strlit("#");
    }
    assert(hash@ =~= seq!['#']);
    starts_with(&t, &hash)
}

/// Run check `c`'s inference over the text of its packaging file.
pub fn infer(c: CompatCheck, content: &str) -> (r: Inference)
    ensures
        r@ == infer_s(c, content@),
{
    let ls = lines(&str_chars(content));
    let ghost d = dv(ls@);
    let mut i: usize = 0;
    assert(d.skip(0) =~= d);
    while i < ls.len()
        invariant
            i <= ls.len(),
            d == dv(ls@),
            d.len() == ls.len(),
            d == lines_s(content@),
            scan_lines_s(c, d) == scan_lines_s(c, d.skip(i as int)),
        decreases ls.len() - i,
    {
        let ghost rest = d.skip(i as int);
        assert(rest[0] == ls@[i as int]@);
        assert(rest.skip(1) =~= d.skip(i + 1));
        if !is_commented(&ls[i]) {
            match probe_line(c, &trim_v(&ls[i])) {
                Some(found) => {
                    return found;
                },
                None => {},
            }
        }
        i = i + 1;
    }
    Inference::CouldNotInfer(not_found_reason(c))
}

/// Infer the LLVM major version from the text of `debian/rules`: the first
/// uncommented `LLVM_VERSION = <N>` assignment.
pub fn infer_llvm_version(rules: &str) -> (r: Inference)
    ensures
        r@ == infer_s(CompatCheck::Llvm, rules@),
{
    infer(CompatCheck::Llvm, rules)
}

/// Infer the libgit2-dev minimum version from the text of `debian/control`
/// (`libgit2-dev (>= X.Y.Z)` in Build-Depends).
pub fn infer_libgit2_version(control: &str) -> (r: Inference)
    ensures
        r@ == infer_s(CompatCheck::Libgit2, control@),
{
    infer(CompatCheck::Libgit2, control)
}

/// Infer the dh-cargo minimum version (possibly empty when no constraint is
/// given) from the text of `debian/control`.
pub fn infer_dh_cargo(control: &str) -> (r: Inference)
    ensures
        r@ == infer_s(CompatCheck::DhCargo, control@),
{
    infer(CompatCheck::DhCargo, control)
}

/// Infer from the text of `debian/control` whether pkgconf (`"present"`) or
/// pkg-config (`"pkg-config"`) is a build dependency.
pub fn infer_pkgconf(control: &str) -> (r: Inference)
    ensures
        r@ == infer_s(CompatCheck::Pkgconf, control@),
{
    infer(CompatCheck::Pkgconf, control)
}

/// Infer the cmake minimum version from the text of `debian/control`.
pub fn infer_cmake(control: &str) -> (r: Inference)
    ensures
        r@ == infer_s(CompatCheck::Cmake, control@),
{
    infer(CompatCheck::Cmake, control)
}

/// Infer the debhelper-compat level from the text of `debian/control`.
pub fn infer_debhelper_compat(control: &str) -> (r: Inference)
    ensures
        r@ == infer_s(CompatCheck::DebhelperCompat, control@),
{
    infer(CompatCheck::DebhelperCompat, control)
}

// ── rmadison output ──────────────────────────────────────────────────────────

/// The suite field names `release`: it is `release`, or starts with
/// `release-` (a pocket) or `release/` (a component).
pub open spec fn suite_matches_s(suite: Seq<char>, release: Seq<char>) -> bool {
    suite == release || starts_with_s(suite, release + seq!['-']) || starts_with_s(
        suite,
        release + seq!['/'],
    )
}

/// The trimmed `|`-separated fields of an `rmadison` listing line, when it
/// is one: not blank, holding `|`, with at least four fields
/// (`package | version | suite | archs`).
pub open spec fn rmadison_fields_s(l: Seq<char>) -> Option<Seq<Seq<char>>> {
    let parts = split_s(l, '|');
    if trim_s(l).len() == 0 || find_s(l, seq!['|']) is None || parts.len() < 4 {
        None
    } else {
        Some(parts.map_values(|p: Seq<char>| trim_s(p)))
    }
}

/// The version on an `rmadison` listing line when its suite names `release`.
pub open spec fn rmadison_line_s(l: Seq<char>, release: Seq<char>) -> Option<Seq<char>> {
    match rmadison_fields_s(l) {
        Some(f) => if suite_matches_s(f[2], release) {
            Some(f[1])
        } else {
            None
        },
        None => None,
    }
}

pub open spec fn rmadison_scan_s(ls: Seq<Seq<char>>, release: Seq<char>) -> Option<Seq<char>>
    decreases ls.len(),
{
    if ls.len() == 0 {
        None
    } else if rmadison_line_s(ls[0], release) is Some {
        rmadison_line_s(ls[0], release)
    } else {
        rmadison_scan_s(ls.skip(1), release)
    }
}

/// The version of the first line of `rmadison -u ubuntu <package>` output
/// whose suite names `release`.
pub open spec fn parse_rmadison_version_s(stdout: Seq<char>, release: Seq<char>) -> Option<
    Seq<char>,
> {
    rmadison_scan_s(lines_s(stdout), release)
}

/// The trimmed fields of an `rmadison` listing line (see
/// [`rmadison_fields_s`]).
pub fn rmadison_fields(l: &Vec<char>) -> (r: Option<Vec<Vec<char>>>)
    ensures
        match r {
            Some(f) => rmadison_fields_s(l@) == Some(dv(f@)) && f.len() >= 4,
            None => rmadison_fields_s(l@) is None,
        },
{
    let bar = str_chars("|");
    proof {
        reveal_strlit("|");
    }
    assert(bar@ =~= seq!['|']);
    if crate::text::is_blank(l) || find(l, &bar).is_none() {
        return None;
    }
    let parts = split_char(l, '|');
    if parts.len() < 4 {
        return None;
    }
    let ghost want = dv(parts@).map_values(|p: Seq<char>| trim_s(p));
    let mut out: Vec<Vec<char>> = Vec::new();
    let mut i: usize = 0;
    while i < parts.len()
        invariant
            i <= parts.len(),
            want == dv(parts@).map_values(|p: Seq<char>| trim_s(p)),
            want.len() == parts.len(),
            dv(out@) == want.take(i as int),
        decreases parts.len() - i,
    {
        let t = trim_v(&parts[i]);
        let ghost tv = t@;
        let ghost o = dv(out@);
        assert(dv(parts@)[i as int] == parts@[i as int]@);
        out.push(t);
        assert(dv(out@) =~= o.push(tv));
        assert(want.take(i + 1) =~= want.take(i as int).push(want[i as int]));
        i = i + 1;
    }
    assert(want.take(i as int) =~= want);
    assert(dv(out@).len() == out.len());
    Some(out)
}

fn rmadison_line(l: &Vec<char>, release: &Vec<char>) -> (r: Option<Vec<char>>)
    ensures
        match r {
            Some(v) => rmadison_line_s(l@, release@) == Some(v@),
            None => rmadison_line_s(l@, release@) is None,
        },
{
    match rmadison_fields(l) {
        Some(f) => {
            assert(dv(f@)[1] == f@[1]@);
            assert(dv(f@)[2] == f@[2]@);
            let mut hyphen = copy_chars(release);
            hyphen.push('-');
            let mut slash = copy_chars(release);
            slash.push('/');
            assert(hyphen@ =~= release@ + seq!['-']);
            assert(slash@ =~= release@ + seq!['/']);
            let suite = &f[2];
            if crate::text::chars_eq(suite, release) || starts_with(suite, &hyphen) || starts_with(
                suite,
                &slash,
            ) {
                Some(copy_chars(&f[1]))
            } else {
                None
            }
        },
        None => None,
    }
}

/// Parse `rmadison -u ubuntu <package>` output and return the version string
/// of the first entry whose suite matches `release` (see
/// [`suite_matches_s`]); rmadison's output order is kept, so the first
/// matching line wins.
pub fn parse_rmadison_version(stdout: &str, release: &str) -> (r: Option<String>)
    ensures
        crate::types::package_version::opt_view(r) == parse_rmadison_version_s(stdout@, release@),
{
    let ls = lines(&str_chars(stdout));
    let rel = str_chars(release);
    let ghost d = dv(ls@);
    let mut i: usize = 0;
    assert(d.skip(0) =~= d);
    while i < ls.len()
        invariant
            i <= ls.len(),
            d == dv(ls@),
            d.len() == ls.len(),
            d == lines_s(stdout@),
            rel@ == release@,
            rmadison_scan_s(d, release@) == rmadison_scan_s(d.skip(i as int), release@),
        decreases ls.len() - i,
    {
        let ghost rest = d.skip(i as int);
        assert(rest[0] == ls@[i as int]@);
        assert(rest.skip(1) =~= d.skip(i + 1));
        match rmadison_line(&ls[i], &rel) {
            Some(v) => {
                return Some(chars_to_string(&v));
            },
            None => {},
        }
        i = i + 1;
    }
    None
}

/// The archive status that an `rmadison` listing shows for `release`.
pub fn archive_status_from_listing(stdout: &str, release: &str) -> (r: ArchiveStatus)
    ensures
        r@ == match parse_rmadison_version_s(stdout@, release@) {
            Some(v) => ArchiveStatusV::Available(v),
            None => ArchiveStatusV::NotPublished,
        },
{
    match parse_rmadison_version(stdout, release) {
        Some(v) => ArchiveStatus::Available(v),
        None => ArchiveStatus::NotPublished,
    }
}

/// What to report when `rmadison` exits non-zero: its trimmed stderr, else
/// its trimmed stdout, else a generic note.
pub open spec fn rmadison_failure_s(stdout: Seq<char>, stderr: Seq<char>) -> Seq<char> {
    if trim_s(stderr).len() > 0 {
        trim_s(stderr)
    } else if trim_s(stdout).len() > 0 {
        trim_s(stdout)
    } else {
        "rmadison exited non-zero"@
    }
}

/// The archive status after `rmadison` failed with the given output.
pub fn archive_status_from_failure(stdout: &str, stderr: &str) -> (r: ArchiveStatus)
    ensures
        r@ == ArchiveStatusV::CheckFailed(rmadison_failure_s(stdout@, stderr@)),
{
    let e = trim_v(&str_chars(stderr));
    if e.len() > 0 {
        return ArchiveStatus::CheckFailed(chars_to_string(&e));
    }
    let o = trim_v(&str_chars(stdout));
    if o.len() > 0 {
        return ArchiveStatus::CheckFailed(chars_to_string(&o));
    }
    ArchiveStatus::CheckFailed(chars_to_string(&str_chars("rmadison exited non-zero")))
}

// ── Check results ────────────────────────────────────────────────────────────

pub open spec fn check_name_s(c: CompatCheck) -> Seq<char> {
    match c {
        CompatCheck::Llvm => "LLVM"@,
        CompatCheck::Libgit2 => "libgit2"@,
        CompatCheck::DhCargo => "dh-cargo"@,
        CompatCheck::Pkgconf => "pkgconf"@,
        CompatCheck::Cmake => "cmake"@,
        CompatCheck::DebhelperCompat => "debhelper-compat"@,
    }
}

/// Short human-readable name of a check.
pub fn check_name(c: CompatCheck) -> (r: &'static str)
    ensures
        r@ == check_name_s(c),
{
    match c {
        CompatCheck::Llvm => "LLVM",
        CompatCheck::Libgit2 => "libgit2",
        CompatCheck::DhCargo => "dh-cargo",
        CompatCheck::Pkgconf => "pkgconf",
        CompatCheck::Cmake => "cmake",
        CompatCheck::DebhelperCompat => "debhelper-compat",
    }
}

pub open spec fn check_guidance_s(c: CompatCheck) -> Seq<char> {
    match c {
        CompatCheck::Llvm => "Vendor LLVM: remove src/llvm-project from Files-Excluded in debian/copyright, regenerate the orig tarball, update debian/control and debian/config.toml.in per the backporting guide."@,
        CompatCheck::Libgit2 => "Either downgrade the libgit2-dev version constraint in debian/control and debian/control.in (when the archive version is API-compatible), or vendor libgit2 (comment out the libgit2 exclusion in debian/copyright, regenerate the orig tarball, remove libgit2-dev from Build-Depends)."@,
        CompatCheck::DhCargo => "Comment out dh-cargo from Build-Depends in debian/control and debian/control.in; remove the dh-cargo-vendored-sources check from debian/rules."@,
        CompatCheck::Pkgconf => "Replace pkgconf with pkg-config in debian/control and debian/control.in; add 'export PKG_CONFIG=pkg-config' to debian/rules."@,
        CompatCheck::Cmake => "Add cmake-mozilla (>= 3.0) as a fallback cmake provider in debian/control and debian/control.in."@,
        CompatCheck::DebhelperCompat => "Downgrade the debhelper-compat level in debian/control and debian/control.in, and update .install.in substitution variables to match the lower compat level."@,
    }
}

/// One-line summary of the fix that a failed check calls for.
pub fn check_guidance(c: CompatCheck) -> (r: &'static str)
    ensures
        r@ == check_guidance_s(c),
{
    match c {
        CompatCheck::Llvm => "Vendor LLVM: remove src/llvm-project from Files-Excluded in debian/copyright, regenerate the orig tarball, update debian/control and debian/config.toml.in per the backporting guide.",
        CompatCheck::Libgit2 => "Either downgrade the libgit2-dev version constraint in debian/control and debian/control.in (when the archive version is API-compatible), or vendor libgit2 (comment out the libgit2 exclusion in debian/copyright, regenerate the orig tarball, remove libgit2-dev from Build-Depends).",
        CompatCheck::DhCargo => "Comment out dh-cargo from Build-Depends in debian/control and debian/control.in; remove the dh-cargo-vendored-sources check from debian/rules.",
        CompatCheck::Pkgconf => "Replace pkgconf with pkg-config in debian/control and debian/control.in; add 'export PKG_CONFIG=pkg-config' to debian/rules.",
        CompatCheck::Cmake => "Add cmake-mozilla (>= 3.0) as a fallback cmake provider in debian/control and debian/control.in.",
        CompatCheck::DebhelperCompat => "Downgrade the debhelper-compat level in debian/control and debian/control.in, and update .install.in substitution variables to match the lower compat level.",
    }
}

pub open spec fn lp_source_url_s(release: Seq<char>, package: Seq<char>) -> Seq<char> {
    "https://launchpad.net/ubuntu/"@ + release + "/+source/"@ + package
}

/// Construct a Launchpad source package URL for `package` in `release`.
pub fn lp_source_url(release: &str, package: &str) -> (r: String)
    ensures
        r@ == lp_source_url_s(release@, package@),
{
    let mut u = str_chars("https://launchpad.net/ubuntu/");
    push_all(&mut u, &str_chars(release));
    push_all(&mut u, &str_chars("/+source/"));
    push_all(&mut u, &str_chars(package));
    chars_to_string(&u)
}

/// The source package that check `c` looks up: `llvm-toolchain-<N>` for
/// LLVM (`<N>` literally when the version is unknown), else a fixed name.
pub open spec fn source_package_s(c: CompatCheck, inference: InferenceV) -> Seq<char> {
    match c {
        CompatCheck::Llvm => match inference {
            InferenceV::Inferred { value, .. } => "llvm-toolchain-"@ + value,
            InferenceV::CouldNotInfer(_) => "llvm-toolchain-<N>"@,
        },
        CompatCheck::Libgit2 => "libgit2"@,
        CompatCheck::DhCargo => "dh-cargo"@,
        CompatCheck::Pkgconf => "pkgconf"@,
        CompatCheck::Cmake => "cmake"@,
        CompatCheck::DebhelperCompat => "debhelper"@,
    }
}

/// pkgconf is not needed because pkg-config is already in use.
pub open spec fn pkg_config_in_use_s(c: CompatCheck, inference: InferenceV) -> bool {
    &&& c == CompatCheck::Pkgconf
    &&& (inference matches InferenceV::Inferred { value, .. } && value == "pkg-config"@)
}

/// The package to look up in the archive, if any: none when nothing was
/// inferred, or when pkg-config is already in use.
pub open spec fn archive_query_s(c: CompatCheck, inference: InferenceV) -> Option<Seq<char>> {
    if inference is CouldNotInfer || pkg_config_in_use_s(c, inference) {
        None
    } else {
        Some(source_package_s(c, inference))
    }
}

/// `s` without trailing `c` characters (`str::trim_end_matches(c)`).
pub open spec fn trim_end_char_s(s: Seq<char>, c: char) -> Seq<char>
    decreases s.len(),
{
    if s.len() > 0 && s.last() == c {
        trim_end_char_s(s.drop_last(), c)
    } else {
        s
    }
}

/// The version the archive's version must reach (`dpkg --compare-versions
/// <available> ge <floor>`), if the check compares versions: libgit2 (with
/// trailing `~` removed), dh-cargo and cmake when a constraint was given,
/// debhelper-compat always.
pub open spec fn version_floor_s(c: CompatCheck, inference: InferenceV) -> Option<Seq<char>> {
    match inference {
        InferenceV::Inferred { value, .. } => match c {
            CompatCheck::Libgit2 => if value.len() > 0 {
                Some(trim_end_char_s(value, '~'))
            } else {
                None
            },
            CompatCheck::DhCargo | CompatCheck::Cmake => if value.len() > 0 {
                Some(value)
            } else {
                None
            },
            CompatCheck::DebhelperCompat => Some(value),
            _ => None,
        },
        InferenceV::CouldNotInfer(_) => None,
    }
}

/// The archive status a check reports, from what was inferred, what the
/// archive lookup gave and whether the available version reaches the floor.
pub open spec fn final_status_s(
    c: CompatCheck,
    inference: InferenceV,
    status: ArchiveStatusV,
    floor_met: bool,
) -> ArchiveStatusV {
    match inference {
        InferenceV::CouldNotInfer(reason) => ArchiveStatusV::CheckFailed(reason),
        InferenceV::Inferred { value, .. } => if pkg_config_in_use_s(c, inference) {
            ArchiveStatusV::Available("pkg-config (already in use)"@)
        } else if version_floor_s(c, inference) is Some {
            match status {
                ArchiveStatusV::Available(a) => if floor_met {
                    ArchiveStatusV::Available(a)
                } else {
                    ArchiveStatusV::TooOld { available: a, required: value }
                },
                other => other,
            }
        } else {
            status
        },
    }
}

/// The package to look up in the archive for check `c`, if any.
pub fn archive_query(c: CompatCheck, inference: &Inference) -> (r: Option<String>)
    ensures
        crate::types::package_version::opt_view(r) == archive_query_s(c, inference@),
{
    if pkg_config_in_use(c, inference) {
        return None;
    }
    match inference {
        Inference::CouldNotInfer(_) => None,
        Inference::Inferred { .. } => Some(source_package(c, inference)),
    }
}

fn pkg_config_in_use(c: CompatCheck, inference: &Inference) -> (r: bool)
    ensures
        r == pkg_config_in_use_s(c, inference@),
{
    match (c, inference) {
        (CompatCheck::Pkgconf, Inference::Inferred { value, .. }) => crate::text::chars_eq(
            &str_chars(value.as_str()),
            &str_chars("pkg-config"),
        ),
        _ => false,
    }
}

fn source_package(c: CompatCheck, inference: &Inference) -> (r: String)
    ensures
        r@ == source_package_s(c, inference@),
{
    let s = match c {
        CompatCheck::Llvm => {
            let mut p = str_chars("llvm-toolchain-");
            match inference {
                Inference::Inferred { value, .. } => push_all(&mut p, &str_chars(value.as_str())),
                Inference::CouldNotInfer(_) => push_all(&mut p, &str_chars("<N>")),
            }
            proof {
                reveal_strlit("llvm-toolchain-");
                reveal_strlit("<N>");
                reveal_strlit("llvm-toolchain-<N>");
            }
            assert(p@ =~= source_package_s(c, inference@));
            return chars_to_string(&p);
        },
        CompatCheck::Libgit2 => "libgit2",
        CompatCheck::DhCargo => "dh-cargo",
        CompatCheck::Pkgconf => "pkgconf",
        CompatCheck::Cmake => "cmake",
        CompatCheck::DebhelperCompat => "debhelper",
    };
    chars_to_string(&str_chars(s))
}

fn trim_end_char(s: &Vec<char>, c: char) -> (r: Vec<char>)
    ensures
        r@ == trim_end_char_s(s@, c),
{
    let mut i: usize = s.len();
    assert(s@.take(i as int) =~= s@);
    while i > 0 && s[i - 1] == c
        invariant
            i <= s.len(),
            trim_end_char_s(s@, c) == trim_end_char_s(s@.take(i as int), c),
        decreases i,
    {
        assert(s@.take(i as int).drop_last() =~= s@.take(i - 1));
        i = i - 1;
    }
    let r = subvec(s, 0, i);
    assert(r@ =~= s@.take(i as int));
    r
}

/// The version that `dpkg --compare-versions <available> ge <floor>` is to
/// check for check `c`, if any.
pub fn version_floor(c: CompatCheck, inference: &Inference) -> (r: Option<String>)
    ensures
        crate::types::package_version::opt_view(r) == version_floor_s(c, inference@),
{
    match inference {
        Inference::Inferred { value, .. } => {
            let v = str_chars(value.as_str());
            match c {
                CompatCheck::Libgit2 => if v.len() > 0 {
                    Some(chars_to_string(&trim_end_char(&v, '~')))
                } else {
                    None
                },
                CompatCheck::DhCargo | CompatCheck::Cmake => if v.len() > 0 {
                    Some(chars_to_string(&v))
                } else {
                    None
                },
                CompatCheck::DebhelperCompat => Some(chars_to_string(&v)),
                _ => None,
            }
        },
        Inference::CouldNotInfer(_) => None,
    }
}

fn copy_string(s: &String) -> (r: String)
    ensures
        r@ == s@,
{
    chars_to_string(&str_chars(s.as_str()))
}

fn final_status(c: CompatCheck, inference: &Inference, status: ArchiveStatus, floor_met: bool) -> (r:
    ArchiveStatus)
    ensures
        r@ == final_status_s(c, inference@, status@, floor_met),
{
    match inference {
        Inference::CouldNotInfer(reason) => ArchiveStatus::CheckFailed(copy_string(reason)),
        Inference::Inferred { value, .. } => {
            if pkg_config_in_use(c, inference) {
                ArchiveStatus::Available(chars_to_string(&str_chars("pkg-config (already in use)")))
            } else if version_floor(c, inference).is_some() {
                match status {
                    ArchiveStatus::Available(a) => if floor_met {
                        ArchiveStatus::Available(a)
                    } else {
                        ArchiveStatus::TooOld { available: a, required: copy_string(value) }
                    },
                    other => other,
                }
            } else {
                status
            }
        },
    }
}

/// Assemble the result of check `c` from what was inferred, the archive
/// status its lookup gave (ignored when [`archive_query_s`] asks for no
/// lookup) and whether the available version reaches the floor (ignored
/// when [`version_floor_s`] asks for no comparison).
pub fn check_result(
    c: CompatCheck,
    inference: Inference,
    release: &str,
    status: ArchiveStatus,
    floor_met: bool,
) -> (r: CheckResult)
    ensures
        r.name@ == check_name_s(c),
        r.inference@ == inference@,
        r.archive_status@ == final_status_s(c, inference@, status@, floor_met),
        r.guidance@ == if pkg_config_in_use_s(c, inference@) {
            seq![]
        } else {
            check_guidance_s(c)
        },
        r.url@ == lp_source_url_s(release@, source_package_s(c, inference@)),
{
    let archive_status = final_status(c, &inference, status, floor_met);
    let url = lp_source_url(release, source_package(c, &inference).as_str());
    let guidance = if pkg_config_in_use(c, &inference) {
        ""
    } else {
        check_guidance(c)
    };
    proof {
        reveal_strlit("");
    }
    CheckResult { name: check_name(c), inference, archive_status, guidance, url }
}

/// The checks that compare the archive's version with a floor taken from
/// the packaging: libgit2, dh-cargo and cmake when their constraint is not
/// empty, debhelper-compat always.
pub open spec fn compares_versions(c: CompatCheck, value: Seq<char>) -> bool {
    ||| c == CompatCheck::DebhelperCompat
    ||| ((c == CompatCheck::Libgit2 || c == CompatCheck::DhCargo || c == CompatCheck::Cmake)
        && value.len() > 0)
}

/// What each compatibility check reports.
///
/// - When nothing could be inferred, the check fails with the reason, and
///   nothing is looked up or compared.
/// - pkgconf with `pkg-config` already in use passes without a lookup.
/// - A check with a version constraint `V` (see [`compares_versions`])
///   compares against `V` (libgit2 without trailing `~`): an available
///   version that reaches it passes, one that does not is `TooOld` with
///   `required: V`, never `Available`; other lookup outcomes pass through.
/// - Every other check reports the lookup outcome as it is.
pub proof fn lemma_check_verdicts(
    c: CompatCheck,
    inference: InferenceV,
    status: ArchiveStatusV,
    floor_met: bool,
)
    ensures
        inference matches InferenceV::CouldNotInfer(reason) ==> final_status_s(
            c,
            inference,
            status,
            floor_met,
        ) == ArchiveStatusV::CheckFailed(reason) && archive_query_s(c, inference) is None
            && version_floor_s(c, inference) is None,
        inference matches InferenceV::Inferred { value, .. } ==> {
            if c == CompatCheck::Pkgconf && value == "pkg-config"@ {
                &&& final_status_s(c, inference, status, floor_met) == ArchiveStatusV::Available(
                    "pkg-config (already in use)"@,
                )
                &&& archive_query_s(c, inference) is None
            } else if compares_versions(c, value) {
                &&& version_floor_s(c, inference) == Some(
                    if c == CompatCheck::Libgit2 {
                        trim_end_char_s(value, '~')
                    } else {
                        value
                    },
                )
                &&& archive_query_s(c, inference) is Some
                &&& (status matches ArchiveStatusV::Available(a) ==> final_status_s(
                    c,
                    inference,
                    status,
                    floor_met,
                ) == if floor_met {
                    ArchiveStatusV::Available(a)
                } else {
                    ArchiveStatusV::TooOld { available: a, required: value }
                })
                &&& (!(status is Available) ==> final_status_s(c, inference, status, floor_met)
                    == status)
            } else {
                &&& version_floor_s(c, inference) is None
                &&& archive_query_s(c, inference) is Some
                &&& final_status_s(c, inference, status, floor_met) == status
            }
        },
{
}

/// The package each check looks up in the archive: `llvm-toolchain-<N>`
/// for the inferred LLVM major version, and `libgit2`, `dh-cargo`,
/// `pkgconf`, `cmake`, `debhelper` for the others.
pub proof fn lemma_check_packages(value: Seq<char>, source: Seq<char>)
    ensures
        archive_query_s(CompatCheck::Llvm, InferenceV::Inferred { value, source }) == Some(
            "llvm-toolchain-"@ + value,
        ),
        archive_query_s(CompatCheck::Libgit2, InferenceV::Inferred { value, source }) == Some(
            "libgit2"@,
        ),
        archive_query_s(CompatCheck::DhCargo, InferenceV::Inferred { value, source }) == Some(
            "dh-cargo"@,
        ),
        value != "pkg-config"@ ==> archive_query_s(
            CompatCheck::Pkgconf,
            InferenceV::Inferred { value, source },
        ) == Some("pkgconf"@),
        archive_query_s(CompatCheck::Cmake, InferenceV::Inferred { value, source }) == Some(
            "cmake"@,
        ),
        archive_query_s(CompatCheck::DebhelperCompat, InferenceV::Inferred { value, source })
            == Some("debhelper"@),
{
}

/// The six checks have distinct names.
pub proof fn lemma_check_names_distinct(a: CompatCheck, b: CompatCheck)
    requires
        a != b,
    ensures
        check_name_s(a) != check_name_s(b),
{
    reveal_strlit("LLVM");
    reveal_strlit("libgit2");
    reveal_strlit("dh-cargo");
    reveal_strlit("pkgconf");
    reveal_strlit("cmake");
    reveal_strlit("debhelper-compat");
    assert(check_name_s(a).len() != check_name_s(b).len() || check_name_s(a)[0] != check_name_s(
        b,
    )[0] || check_name_s(a)[1] != check_name_s(b)[1]);
}

/// The Build-Depends package whose constraint a check reads.
pub open spec fn constrained_package_s(c: CompatCheck) -> Seq<char> {
    match c {
        CompatCheck::Libgit2 => "libgit2-dev"@,
        CompatCheck::DhCargo => "dh-cargo"@,
        _ => "cmake"@,
    }
}

/// A Build-Depends line `<package> (>= V)…` gives the floor `V`: for the
/// libgit2, dh-cargo and cmake checks, such a line (trimmed) is read as
/// the inferred value `V`, with the line's own text as its source.
pub proof fn lemma_constraint_line_read(c: CompatCheck, v: Seq<char>, rest: Seq<char>)
    requires
        c == CompatCheck::Libgit2 || c == CompatCheck::DhCargo || c == CompatCheck::Cmake,
        v.len() > 0,
        !is_ws(v[0]),
        !is_ws(v.last()),
        crate::text::lacks(v, ')'),
    ensures
        probe_line_s(c, constrained_package_s(c) + " (>= "@ + v + ")"@ + rest) == Some(
            InferenceV::Inferred {
                value: v,
                source: "debian/control: "@ + constrained_package_s(c) + " (>= "@ + v + ")"@,
            },
        ),
{
    reveal_strlit("libgit2-dev");
    reveal_strlit("dh-cargo");
    reveal_strlit("cmake");
    reveal_strlit(" (>= ");
    reveal_strlit("(>=");
    reveal_strlit(")");
    reveal_strlit(": ");
    reveal_strlit(" ");
    reveal_strlit("debian/control");
    reveal_strlit("debian/control: ");
    let name = constrained_package_s(c);
    let t = name + " (>= "@ + v + ")"@ + rest;
    let n = name.len() as int;
    assert(t.subrange(0, n) =~= name);
    assert(is_at(t, name, 0));
    assert(find_s(t, name) == Some(0int));
    let a = t.skip(n);
    let b = seq![' '] + v + seq![')'] + rest;
    let ge = "(>="@;
    assert(a =~= seq![' '] + ge + b);
    assert(a[0] == ' ');
    assert(ge[0] == '(');
    if is_at(a, ge, 0) {
        assert(a.subrange(0, 3)[0] == a[0]);
    }
    assert(!is_at(a, "(>="@, 0));
    assert(a.subrange(1, 4) =~= "(>="@);
    crate::text::lemma_find_from_unique(a, "(>="@, 0, 1);
    assert(a.skip(4) =~= b);
    assert(after_first_s(a, "(>="@) == Some(b));
    let x = seq![' '] + v;
    assert(crate::text::lacks(x, ')')) by {
        assert forall|j: int| 0 <= j < x.len() implies x[j] != ')' by {
            if j > 0 {
                assert(x[j] == v[j - 1]);
            }
        }
    }
    assert(b =~= x + seq![')'] + rest);
    crate::text::lemma_find_after_prefix(x, seq![')'], rest);
    assert(b.take(x.len() as int) =~= x);
    assert(is_ws(x[0]));
    assert(x.skip(1) =~= v);
    assert(trim_start_s(x) == trim_start_s(v));
    assert(trim_start_s(v) == v);
    assert(trim_end_s(v) == v);
    assert(constraint_s(a, "(>="@) == Some(v));
    assert(constrained_source_s("debian/control"@, name, "(>="@, v) =~= "debian/control: "@ + name
        + " (>= "@ + v + ")"@);
    if c == CompatCheck::Cmake {
        assert(t[5] == ' ');
        assert(whole_word_at(t, "cmake"@, 0));
        assert(find_word_s(t, "cmake"@) == Some(0int));
        assert(t.skip(5) == a);
    }
}

} // verus!
