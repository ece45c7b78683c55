//! Validated Ubuntu release names and their series numbers.
use vstd::prelude::*;

use crate::error::ThermiteError;
use crate::text::{chars_eq, chars_to_string, dec_s, str_chars};

verus! {

/// How many Ubuntu releases the library knows (Focal onwards).
pub const KNOWN_RELEASE_COUNT: usize = 14;

/// Release adjective of the `i`-th known release, oldest first.
pub open spec fn release_name_s(i: int) -> Seq<char> {
    if i == 0 {
        "focal"@
    } else if i == 1 {
        "groovy"@
    } else if i == 2 {
        "hirsute"@
    } else if i == 3 {
        "impish"@
    } else if i == 4 {
        "jammy"@
    } else if i == 5 {
        "kinetic"@
    } else if i == 6 {
        "lunar"@
    } else if i == 7 {
        "mantic"@
    } else if i == 8 {
        "noble"@
    } else if i == 9 {
        "oracular"@
    } else if i == 10 {
        "plucky"@
    } else if i == 11 {
        "questing"@
    } else if i == 12 {
        "resolute"@
    } else {
        "stonking"@
    }
}

/// Series number of the `i`-th known release.
pub open spec fn release_series_s(i: int) -> Seq<char> {
    if i == 0 {
        "20.04"@
    } else if i == 1 {
        "20.10"@
    } else if i == 2 {
        "21.04"@
    } else if i == 3 {
        "21.10"@
    } else if i == 4 {
        "22.04"@
    } else if i == 5 {
        "22.10"@
    } else if i == 6 {
        "23.04"@
    } else if i == 7 {
        "23.10"@
    } else if i == 8 {
        "24.04"@
    } else if i == 9 {
        "24.10"@
    } else if i == 10 {
        "25.04"@
    } else if i == 11 {
        "25.10"@
    } else if i == 12 {
        "26.04"@
    } else {
        "26.10"@
    }
}

proof fn lemma_year_digits(y: nat)
    requires
        20 <= y < 30,
    ensures
        dec_s(y) == seq!['2', crate::text::digit_char(y % 10)],
{
    assert(dec_s(y) == dec_s(y / 10).push(crate::text::digit_char(y % 10)));
    assert(dec_s(y / 10) == seq![crate::text::digit_char(2)]);
    assert(crate::text::digit_char(2) == '2');
    assert(dec_s(y) =~= seq!['2', crate::text::digit_char(y % 10)]);
}

/// Ubuntu's release schedule: from Focal (20.04) on, a release every April
/// and October, so the `i`-th known release has series `YY.04` or `YY.10`
/// with `YY = 20 + i / 2`.
pub proof fn lemma_release_schedule(i: int)
    requires
        0 <= i < KNOWN_RELEASE_COUNT,
    ensures
        release_series_s(i) == dec_s((20 + i / 2) as nat) + if i % 2 == 0 {
            ".04"@
        } else {
            ".10"@
        },
{
    reveal_strlit(".04");
    reveal_strlit(".10");
    let y = (20 + i / 2) as nat;
    lemma_year_digits(y);
    if i == 0 {
        reveal_strlit("20.04");
    } else if i == 1 {
        reveal_strlit("20.10");
    } else if i == 2 {
        reveal_strlit("21.04");
    } else if i == 3 {
        reveal_strlit("21.10");
    } else if i == 4 {
        reveal_strlit("22.04");
    } else if i == 5 {
        reveal_strlit("22.10");
    } else if i == 6 {
        reveal_strlit("23.04");
    } else if i == 7 {
        reveal_strlit("23.10");
    } else if i == 8 {
        reveal_strlit("24.04");
    } else if i == 9 {
        reveal_strlit("24.10");
    } else if i == 10 {
        reveal_strlit("25.04");
    } else if i == 11 {
        reveal_strlit("25.10");
    } else if i == 12 {
        reveal_strlit("26.04");
    } else {
        reveal_strlit("26.10");
    }
    let want = dec_s(y) + if i % 2 == 0 {
        ".04"@
    } else {
        ".10"@
    };
    assert(release_series_s(i) =~= want);
}

/// Distinct known releases have distinct adjectives and distinct series
/// numbers.
pub proof fn lemma_releases_distinct(i: int, j: int)
    requires
        0 <= i < KNOWN_RELEASE_COUNT,
        0 <= j < KNOWN_RELEASE_COUNT,
        i != j,
    ensures
        release_series_s(i) != release_series_s(j),
        release_name_s(i) != release_name_s(j),
{
    lemma_release_schedule(i);
    lemma_release_schedule(j);
    reveal_strlit(".04");
    reveal_strlit(".10");
    let y = (20 + i / 2) as nat;
    let z = (20 + j / 2) as nat;
    lemma_year_digits(y);
    lemma_year_digits(z);
    assert(release_series_s(i)[1] == crate::text::digit_char(y % 10));
    assert(release_series_s(j)[1] == crate::text::digit_char(z % 10));
    assert(release_series_s(i)[3] == if i % 2 == 0 { '0' } else { '1' });
    assert(release_series_s(j)[3] == if j % 2 == 0 { '0' } else { '1' });
    reveal_strlit("focal");
    reveal_strlit("groovy");
    reveal_strlit("hirsute");
    reveal_strlit("impish");
    reveal_strlit("jammy");
    reveal_strlit("kinetic");
    reveal_strlit("lunar");
    reveal_strlit("mantic");
    reveal_strlit("noble");
    reveal_strlit("oracular");
    reveal_strlit("plucky");
    reveal_strlit("questing");
    reveal_strlit("resolute");
    reveal_strlit("stonking");
    assert(release_name_s(i)[0] != release_name_s(j)[0] || release_name_s(i).len()
        != release_name_s(j).len() || release_name_s(i)[1] != release_name_s(j)[1]);
}

/// The `i`-th known release as `(adjective, series number)`, oldest first.
pub fn known_release(i: usize) -> (r: (&'static str, &'static str))
    requires
        i < KNOWN_RELEASE_COUNT,
    ensures
        r.0@ == release_name_s(i as int),
        r.1@ == release_series_s(i as int),
{
    match i {
        0 => ("focal", "20.04"),
        1 => ("groovy", "20.10"),
        2 => ("hirsute", "21.04"),
        3 => ("impish", "21.10"),
        4 => ("jammy", "22.04"),
        5 => ("kinetic", "22.10"),
        6 => ("lunar", "23.04"),
        7 => ("mantic", "23.10"),
        8 => ("noble", "24.04"),
        9 => ("oracular", "24.10"),
        10 => ("plucky", "25.04"),
        11 => ("questing", "25.10"),
        12 => ("resolute", "26.04"),
        _ => ("stonking", "26.10"),
    }
}

/// Index of the first known release named `name` at or after `i`, or `-1`.
pub open spec fn release_index_from(name: Seq<char>, i: int) -> int
    decreases KNOWN_RELEASE_COUNT - i,
{
    if i < 0 || i >= KNOWN_RELEASE_COUNT {
        -1
    } else if name == release_name_s(i) {
        i
    } else {
        release_index_from(name, i + 1)
    }
}

/// Index of the known release named `name`, or `-1` when it is unknown.
pub open spec fn release_index(name: Seq<char>) -> int {
    release_index_from(name, 0)
}

pub open spec fn is_known_release(name: Seq<char>) -> bool {
    release_index(name) >= 0
}

/// The series number of a known release.
pub open spec fn series_of(name: Seq<char>) -> Seq<char> {
    release_series_s(release_index(name))
}

/// The current development release: the last known release.
pub open spec fn devel_name() -> Seq<char> {
    release_name_s(KNOWN_RELEASE_COUNT - 1)
}

pub proof fn lemma_release_index_from(name: Seq<char>, i: int)
    requires
        0 <= i,
    ensures
        release_index_from(name, i) == -1 || (i <= release_index_from(name, i)
            < KNOWN_RELEASE_COUNT && release_name_s(release_index_from(name, i)) == name),
        release_index_from(name, i) == -1 ==> forall|j: int|
            i <= j < KNOWN_RELEASE_COUNT ==> release_name_s(j) != name,
    decreases KNOWN_RELEASE_COUNT - i,
{
    if i < KNOWN_RELEASE_COUNT && name != release_name_s(i) {
        lemma_release_index_from(name, i + 1);
    }
}

/// Position of `name` in the table when searching from 0 returns the first
/// match: the same as `i` when `name` is the `i`-th name and none before.
pub proof fn lemma_release_index_first(name: Seq<char>, i: int, k: int)
    requires
        0 <= i <= k < KNOWN_RELEASE_COUNT,
        release_name_s(k) == name,
        forall|j: int| i <= j < k ==> release_name_s(j) != name,
    ensures
        release_index_from(name, i) == k,
    decreases k - i,
{
    if i < k {
        lemma_release_index_first(name, i + 1, k);
    }
}

/// Two known releases with the same series number are the same release:
/// the series number names a release.
pub proof fn lemma_series_names_release(a: Seq<char>, b: Seq<char>)
    requires
        is_known_release(a),
        is_known_release(b),
        series_of(a) == series_of(b),
    ensures
        a == b,
{
    lemma_release_index_from(a, 0);
    lemma_release_index_from(b, 0);
    if release_index(a) != release_index(b) {
        lemma_releases_distinct(release_index(a), release_index(b));
    }
}

// ── The backport chain ──────────────────────────────────────────────────────

/// How many releases the LTS+devel backport chain holds.
pub const BACKPORT_CHAIN_LEN: usize = 5;

/// Table index of the `k`-th release of the backport chain, oldest first:
/// the LTS releases, then the development release.
pub open spec fn chain_table_index(k: int) -> int {
    if k == 0 {
        0
    } else if k == 1 {
        4
    } else if k == 2 {
        8
    } else if k == 3 {
        12
    } else {
        KNOWN_RELEASE_COUNT - 1
    }
}

/// The `k`-th release of the backport chain.
pub open spec fn chain_name_s(k: int) -> Seq<char> {
    release_name_s(chain_table_index(k))
}

/// Position of `name` on the backport chain at or after `k`.
pub open spec fn chain_position_from(name: Seq<char>, k: int) -> Option<int>
    decreases BACKPORT_CHAIN_LEN - k,
{
    if k < 0 || k >= BACKPORT_CHAIN_LEN {
        None
    } else if chain_name_s(k) == name {
        Some(k)
    } else {
        chain_position_from(name, k + 1)
    }
}

pub open spec fn chain_position_s(name: Seq<char>) -> Option<int> {
    chain_position_from(name, 0)
}

/// An LTS release: released in April of an even year.
pub open spec fn is_lts_index(i: int) -> bool {
    0 <= i < KNOWN_RELEASE_COUNT && i % 2 == 0 && (20 + i / 2) % 2 == 0
}

/// The backport chain is every LTS release, oldest first, followed by the
/// development release (the last known one): no other release is on it.
pub proof fn lemma_chain_is_lts_then_devel()
    ensures
        forall|k: int| 0 <= k < BACKPORT_CHAIN_LEN - 1 ==> is_lts_index(#[trigger] chain_table_index(k)),
        forall|k: int, m: int|
            0 <= k < m < BACKPORT_CHAIN_LEN ==> chain_table_index(k) < chain_table_index(m),
        forall|i: int|
            is_lts_index(i) ==> exists|k: int| 0 <= k < BACKPORT_CHAIN_LEN - 1 && #[trigger] chain_table_index(k) == i,
        chain_table_index(BACKPORT_CHAIN_LEN - 1) == KNOWN_RELEASE_COUNT - 1,
        !is_lts_index(KNOWN_RELEASE_COUNT - 1),
{
    assert forall|i: int| is_lts_index(i) implies exists|k: int|
        0 <= k < BACKPORT_CHAIN_LEN - 1 && #[trigger] chain_table_index(k) == i by {
        assert(i == 0 || i == 4 || i == 8 || i == 12);
        assert(chain_table_index(i / 4) == i);
    }
}

/// A release found on the chain is at a chain position and is the release
/// there.
pub proof fn lemma_chain_position(name: Seq<char>, k: int)
    requires
        0 <= k,
    ensures
        chain_position_from(name, k) matches Some(p) ==> k <= p < BACKPORT_CHAIN_LEN && chain_name_s(p)
            == name,
    decreases BACKPORT_CHAIN_LEN - k,
{
    if k < BACKPORT_CHAIN_LEN && chain_name_s(k) != name {
        lemma_chain_position(name, k + 1);
    }
}

/// The `k`-th release of the LTS+devel backport chain, oldest first
/// (backports go one step down this chain at a time).
pub fn backport_chain(k: usize) -> (r: &'static str)
    requires
        k < BACKPORT_CHAIN_LEN,
    ensures
        r@ == chain_name_s(k as int),
{
    match k {
        0 => known_release(0).0,
        1 => known_release(4).0,
        2 => known_release(8).0,
        3 => known_release(12).0,
        _ => known_release(KNOWN_RELEASE_COUNT - 1).0,
    }
}

/// A validated Ubuntu release adjective (e.g. `"noble"`).
#[derive(Debug)]
pub struct UbuntuRelease(String);

impl View for UbuntuRelease {
    type V = Seq<char>;

    closed spec fn view(&self) -> Seq<char> {
        self.0@
    }
}

impl Clone for UbuntuRelease {
    fn clone(&self) -> (r: Self)
        ensures
            r@ == self@,
    {
        self.duplicate()
    }
}

impl UbuntuRelease {
    #[verifier::type_invariant]
    spec fn inv(self) -> bool {
        is_known_release(self.0@)
    }

    /// Every release value names a known release.
    pub fn check_known(&self)
        ensures
            is_known_release(self@),
    {
        proof {
            use_type_invariant(self);
        }
    }

    /// Position of `s` in the table of known releases.
    fn find_index(s: &Vec<char>) -> (r: Option<usize>)
        ensures
            r matches Some(i) ==> i == release_index(s@) && i < KNOWN_RELEASE_COUNT,
            r is None ==> release_index(s@) == -1,
    {
        let mut i: usize = 0;
        while i < KNOWN_RELEASE_COUNT
            invariant
                i <= KNOWN_RELEASE_COUNT,
                forall|j: int| 0 <= j < i ==> release_name_s(j) != s@,
            decreases KNOWN_RELEASE_COUNT - i,
        {
            let (name, _) = known_release(i);
            if chars_eq(s, &str_chars(name)) {
                proof {
                    lemma_release_index_first(s@, 0, i as int);
                }
                return Some(i);
            }
            i = i + 1;
        }
        proof {
            lemma_release_index_from(s@, 0);
        }
        None
    }

    /// Parse and validate a release adjective string; an unknown name is
    /// rejected with `UnknownRelease` carrying the input.
    pub fn parse(s: &str) -> (r: Result<Self, ThermiteError>)
        ensures
            is_known_release(s@) ==> (r matches Ok(rel) && rel@ == s@),
            !is_known_release(s@) ==> (r matches Err(ThermiteError::UnknownRelease(m))
                && m@ == s@),
    {
        let cs = str_chars(s);
        match Self::find_index(&cs) {
            Some(_) => Ok(UbuntuRelease(chars_to_string(&cs))),
            None => Err(ThermiteError::UnknownRelease(chars_to_string(&cs))),
        }
    }

    /// Return the release adjective as a string slice.
    pub fn as_str(&self) -> (r: &str)
        ensures
            r@ == self@,
    {
        self.0.as_str()
    }

    /// A copy of this release.
    pub fn duplicate(&self) -> (r: Self)
        ensures
            r@ == self@,
    {
        proof {
            use_type_invariant(self);
        }
        UbuntuRelease(chars_to_string(&str_chars(self.0.as_str())))
    }

    /// Return the numeric series identifier for this release (e.g. `"22.04"`).
    pub fn series_number(&self) -> (r: &'static str)
        ensures
            r@ == series_of(self@),
            is_known_release(self@),
    {
        proof {
            use_type_invariant(self);
        }
        let cs = str_chars(self.0.as_str());
        match Self::find_index(&cs) {
            Some(i) => known_release(i).1,
            None => {
                assert(false);
                ""
            },
        }
    }

    /// Return the adjective of the current Ubuntu development release: the
    /// last entry of the table of known releases.
    pub fn devel() -> (r: &'static str)
        ensures
            r@ == devel_name(),
    {
        known_release(KNOWN_RELEASE_COUNT - 1).0
    }

    /// The current Ubuntu development release.
    pub fn devel_release() -> (r: Self)
        ensures
            r@ == devel_name(),
    {
        let name = Self::devel();
        let cs = str_chars(name);
        proof {
            lemma_release_index_from(cs@, 0);
            if release_index(cs@) == -1 {
                assert(release_name_s(KNOWN_RELEASE_COUNT - 1) != cs@);
            }
        }
        UbuntuRelease(chars_to_string(&cs))
    }

    /// `true` when this release is the current Ubuntu development release.
    pub fn is_devel(&self) -> (r: bool)
        ensures
            r == (self@ == devel_name()),
    {
        chars_eq(&str_chars(self.0.as_str()), &str_chars(Self::devel()))
    }

    /// Position of this release on the LTS+devel backport chain, if it is on
    /// it.
    pub fn chain_position(&self) -> (r: Option<usize>)
        ensures
            match r {
                Some(k) => chain_position_s(self@) == Some(k as int) && k < BACKPORT_CHAIN_LEN,
                None => chain_position_s(self@) is None,
            },
    {
        let cs = str_chars(self.0.as_str());
        let mut k: usize = 0;
        while k < BACKPORT_CHAIN_LEN
            invariant
                k <= BACKPORT_CHAIN_LEN,
                cs@ == self@,
                chain_position_s(self@) == chain_position_from(self@, k as int),
            decreases BACKPORT_CHAIN_LEN - k,
        {
            if chars_eq(&cs, &str_chars(backport_chain(k))) {
                return Some(k);
            }
            k = k + 1;
        }
        None
    }

    /// Whether two values name the same release.
    pub fn same_as(&self, other: &Self) -> (r: bool)
        ensures
            r == (self@ == other@),
    {
        chars_eq(&str_chars(self.0.as_str()), &str_chars(other.0.as_str()))
    }
}

} // verus!
