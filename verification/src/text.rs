//! Character-sequence model of the string operations the library relies on,
//! with verified executable counterparts working on `Vec<char>`.
//!
//! Every spec function here mirrors the documented behaviour of the `str`
//! method it is named after (`trim`, `lines`, `find`, `split`, `replace`,
//! `parse::<u32>`, ...), stated over `Seq<char>`.
use vstd::prelude::*;

verus! {

// ── Characters ───────────────────────────────────────────────────────────────

/// Unicode `White_Space` property, as used by `char::is_whitespace`.
pub open spec fn is_ws(c: char) -> bool {
    let u = c as u32;
    (0x9 <= u && u <= 0xd) || u == 0x20 || u == 0x85 || u == 0xa0 || u == 0x1680 || (0x2000 <= u
        && u <= 0x200a) || u == 0x2028 || u == 0x2029 || u == 0x202f || u == 0x205f || u == 0x3000
}

pub fn is_whitespace_char(c: char) -> (r: bool)
    ensures
        r == is_ws(c),
{
    let u = c as u32;
    (0x9 <= u && u <= 0xd) || u == 0x20 || u == 0x85 || u == 0xa0 || u == 0x1680 || (0x2000 <= u
        && u <= 0x200a) || u == 0x2028 || u == 0x2029 || u == 0x202f || u == 0x205f || u == 0x3000
}

pub open spec fn is_digit(c: char) -> bool {
    '0' <= c && c <= '9'
}

pub fn is_digit_char(c: char) -> (r: bool)
    ensures
        r == is_digit(c),
{
    '0' <= c && c <= '9'
}

/// ASCII lower-casing of a single character (`char::to_ascii_lowercase`).
pub open spec fn ascii_lower(c: char) -> char {
    if 'A' <= c && c <= 'Z' {
        ((c as u32) + 32) as char
    } else {
        c
    }
}

pub fn ascii_lower_char(c: char) -> (r: char)
    ensures
        r == ascii_lower(c),
{
    if 'A' <= c && c <= 'Z' {
        let u = (c as u32) + 32;
        assert(0x61 <= u <= 0x7a);
        char_from_ascii(u)
    } else {
        c
    }
}

/// Converts a code point of the ASCII lower-case letter range back to `char`.
fn char_from_ascii(u: u32) -> (c: char)
    requires
        0x61 <= u <= 0x7a,
    ensures
        c == u as char,
{
    let b = u as u8;
    b as char
}

pub open spec fn lower_seq(s: Seq<char>) -> Seq<char> {
    s.map_values(|c: char| ascii_lower(c))
}

/// `s` with ASCII letters lower-cased (`str::to_ascii_lowercase`).
pub fn ascii_lowercase(s: &Vec<char>) -> (r: Vec<char>)
    ensures
        r@ == lower_seq(s@),
{
    let mut r: Vec<char> = Vec::new();
    let mut i: usize = 0;
    while i < s.len()
        invariant
            i <= s.len(),
            r@ == lower_seq(s@.take(i as int)),
        decreases s.len() - i,
    {
        r.push(ascii_lower_char(s[i]));
        i = i + 1;
        assert(r@ =~= lower_seq(s@.take(i as int)));
    }
    assert(s@.take(i as int) =~= s@);
    r
}

/// `ls` with `line` inserted at `k`.
pub fn insert_line(ls: &Vec<Vec<char>>, k: usize, line: Vec<char>) -> (r: Vec<Vec<char>>)
    requires
        k <= ls.len(),
    ensures
        dv(r@) == dv(ls@).insert(k as int, line@),
{
    let ghost want = dv(ls@).insert(k as int, line@);
    proof {
        dv(ls@).insert_ensures(k as int, line@);
    }
    let mut out: Vec<Vec<char>> = Vec::new();
    let mut i: usize = 0;
    while i < k
        invariant
            i <= k <= ls.len(),
            want == dv(ls@).insert(k as int, line@),
            want.len() == ls.len() + 1,
            forall|j: int| 0 <= j < k ==> want[j] == ls@[j]@,
            dv(out@) == want.take(i as int),
        decreases k - i,
    {
        let ghost o = dv(out@);
        let l = copy_chars(&ls[i]);
        let ghost lv = l@;
        out.push(l);
        assert(dv(out@) =~= o.push(lv));
        assert(want.take(i + 1) =~= want.take(i as int).push(want[i as int]));
        i = i + 1;
    }
    let ghost o = dv(out@);
    let ghost lv = line@;
    out.push(line);
    assert(dv(out@) =~= o.push(lv));
    assert(want.take(k + 1) =~= want.take(k as int).push(want[k as int]));
    while i < ls.len()
        invariant
            k <= i <= ls.len(),
            want == dv(ls@).insert(k as int, line@),
            want.len() == ls.len() + 1,
            forall|j: int| k < j <= ls.len() ==> want[j] == ls@[j - 1]@,
            dv(out@) == want.take(i + 1),
        decreases ls.len() - i,
    {
        let ghost o = dv(out@);
        let l = copy_chars(&ls[i]);
        let ghost lv = l@;
        out.push(l);
        assert(dv(out@) =~= o.push(lv));
        assert(want.take(i + 2) =~= want.take(i + 1).push(want[i + 1]));
        i = i + 1;
    }
    assert(want.take(i + 1) =~= want);
    out
}

/// `ls` with `line` appended.
pub fn push_line(ls: &Vec<Vec<char>>, line: Vec<char>) -> (r: Vec<Vec<char>>)
    ensures
        dv(r@) == dv(ls@).push(line@),
{
    let r = insert_line(ls, ls.len(), line);
    assert(dv(ls@).insert(ls.len() as int, line@) =~= dv(ls@).push(line@));
    r
}

// ── Conversions between `str`/`String` and `Vec<char>` ──────────────────────

pub fn str_chars(s: &str) -> (v: Vec<char>)
    ensures
        v@ == s@,
{
    let mut v: Vec<char> = Vec::new();
    for c in it: s.chars()
        invariant
            v@ == it.seq().take(it.index() as int),
    {
        v.push(c);
    }
    v
}

/// Appends `c` to `s` with std's `String::push`. Trusted, not proved: the
/// contract claims what that method's documentation says, that the text of
/// `s` afterwards is its old text followed by `c` (vstd gives the method no
/// specification of its own).
#[verifier::external_body]
fn string_push(s: &mut String, c: char)
    ensures
        final(s)@ == old(s)@.push(c),
{
    s.push(c);
}

/// Views of a vector of strings.
pub open spec fn string_views(v: Seq<String>) -> Seq<Seq<char>> {
    v.map_values(|s: String| s@)
}

/// An owned copy of a string slice.
pub fn owned(s: &str) -> (r: String)
    ensures
        r@ == s@,
{
    chars_to_string(&str_chars(s))
}

pub fn chars_to_string(v: &Vec<char>) -> (s: String)
    ensures
        s@ == v@,
{
    let mut s = String::new();
    let mut i: usize = 0;
    while i < v.len()
        invariant
            i <= v.len(),
            s@ == v@.take(i as int),
        decreases v.len() - i,
    {
        string_push(&mut s, v[i]);
        i = i + 1;
        assert(s@ =~= v@.take(i as int));
    }
    assert(v@.take(i as int) =~= v@);
    s
}

// ── Sub-sequences and concatenation ─────────────────────────────────────────

pub fn subvec(s: &Vec<char>, lo: usize, hi: usize) -> (r: Vec<char>)
    requires
        lo <= hi <= s.len(),
    ensures
        r@ == s@.subrange(lo as int, hi as int),
{
    let mut r: Vec<char> = Vec::new();
    let mut i = lo;
    while i < hi
        invariant
            lo <= i <= hi <= s.len(),
            r@ == s@.subrange(lo as int, i as int),
        decreases hi - i,
    {
        r.push(s[i]);
        i = i + 1;
        assert(r@ =~= s@.subrange(lo as int, i as int));
    }
    r
}

pub fn push_all(out: &mut Vec<char>, s: &Vec<char>)
    ensures
        final(out)@ == old(out)@ + s@,
{
    let mut i: usize = 0;
    while i < s.len()
        invariant
            i <= s.len(),
            out@ == old(out)@ + s@.take(i as int),
        decreases s.len() - i,
    {
        out.push(s[i]);
        i = i + 1;
        assert(out@ =~= old(out)@ + s@.take(i as int));
    }
    assert(s@.take(i as int) =~= s@);
}

pub fn concat(a: &Vec<char>, b: &Vec<char>) -> (r: Vec<char>)
    ensures
        r@ == a@ + b@,
{
    let mut r: Vec<char> = Vec::new();
    push_all(&mut r, a);
    push_all(&mut r, b);
    assert(r@ =~= a@ + b@);
    r
}

pub fn copy_chars(a: &Vec<char>) -> (r: Vec<char>)
    ensures
        r@ == a@,
{
    let mut r: Vec<char> = Vec::new();
    push_all(&mut r, a);
    assert(r@ =~= a@);
    r
}

pub fn chars_eq(a: &Vec<char>, b: &Vec<char>) -> (r: bool)
    ensures
        r == (a@ == b@),
{
    if a.len() != b.len() {
        return false;
    }
    let mut i: usize = 0;
    while i < a.len()
        invariant
            i <= a.len() == b.len(),
            forall|j: int| 0 <= j < i ==> a@[j] == b@[j],
        decreases a.len() - i,
    {
        if a[i] != b[i] {
            return false;
        }
        i = i + 1;
    }
    assert(a@ =~= b@);
    true
}

// ── Trimming ─────────────────────────────────────────────────────────────────

pub open spec fn trim_start_s(s: Seq<char>) -> Seq<char>
    decreases s.len(),
{
    if s.len() > 0 && is_ws(s[0]) {
        trim_start_s(s.skip(1))
    } else {
        s
    }
}

pub open spec fn trim_end_s(s: Seq<char>) -> Seq<char>
    decreases s.len(),
{
    if s.len() > 0 && is_ws(s.last()) {
        trim_end_s(s.drop_last())
    } else {
        s
    }
}

/// `str::trim`.
pub open spec fn trim_s(s: Seq<char>) -> Seq<char> {
    trim_end_s(trim_start_s(s))
}

/// Number of leading whitespace characters: `trim_start_s(s) == s.skip(result)`.
pub fn leading_ws(s: &Vec<char>) -> (n: usize)
    ensures
        n <= s.len(),
        trim_start_s(s@) == s@.skip(n as int),
        forall|j: int| 0 <= j < n ==> is_ws(#[trigger] s@[j]),
{
    let mut i: usize = 0;
    assert(s@.skip(0) =~= s@);
    while i < s.len() && is_whitespace_char(s[i])
        invariant
            i <= s.len(),
            trim_start_s(s@) == trim_start_s(s@.skip(i as int)),
            forall|j: int| 0 <= j < i ==> is_ws(#[trigger] s@[j]),
        decreases s.len() - i,
    {
        assert(s@.skip(i as int).skip(1) =~= s@.skip(i + 1));
        i = i + 1;
    }
    i
}

/// End of the text once trailing whitespace is removed:
/// `trim_end_s(s) == s.take(result)`.
pub fn trailing_ws_end(s: &Vec<char>) -> (n: usize)
    ensures
        n <= s.len(),
        trim_end_s(s@) == s@.take(n as int),
{
    let mut i: usize = s.len();
    assert(s@.take(i as int) =~= s@);
    while i > 0 && is_whitespace_char(s[i - 1])
        invariant
            i <= s.len(),
            trim_end_s(s@) == trim_end_s(s@.take(i as int)),
        decreases i,
    {
        assert(s@.take(i as int).drop_last() =~= s@.take(i - 1));
        i = i - 1;
    }
    i
}

pub fn trim_start_v(s: &Vec<char>) -> (r: Vec<char>)
    ensures
        r@ == trim_start_s(s@),
{
    let n = leading_ws(s);
    subvec(s, n, s.len())
}

pub fn trim_end_v(s: &Vec<char>) -> (r: Vec<char>)
    ensures
        r@ == trim_end_s(s@),
{
    let n = trailing_ws_end(s);
    subvec(s, 0, n)
}

pub fn trim_v(s: &Vec<char>) -> (r: Vec<char>)
    ensures
        r@ == trim_s(s@),
{
    let t = trim_start_v(s);
    trim_end_v(&t)
}

pub fn is_blank(s: &Vec<char>) -> (r: bool)
    ensures
        r == (trim_s(s@).len() == 0),
{
    let t = trim_v(s);
    t.len() == 0
}

// ── Prefixes, suffixes and searching ────────────────────────────────────────

/// `p` occurs in `s` at position `i`.
pub open spec fn is_at(s: Seq<char>, p: Seq<char>, i: int) -> bool {
    0 <= i && i + p.len() <= s.len() && s.subrange(i, i + p.len()) == p
}

pub open spec fn starts_with_s(s: Seq<char>, p: Seq<char>) -> bool {
    is_at(s, p, 0)
}

pub open spec fn ends_with_s(s: Seq<char>, p: Seq<char>) -> bool {
    p.len() <= s.len() && is_at(s, p, s.len() - p.len())
}

/// First occurrence of `p` in `s` at or after `i` (`str::find` when `i == 0`).
pub open spec fn find_from_s(s: Seq<char>, p: Seq<char>, i: int) -> Option<int>
    decreases s.len() + 1 - i,
{
    if i < 0 || i + p.len() > s.len() {
        None
    } else if is_at(s, p, i) {
        Some(i)
    } else {
        find_from_s(s, p, i + 1)
    }
}

pub open spec fn find_s(s: Seq<char>, p: Seq<char>) -> Option<int> {
    find_from_s(s, p, 0)
}

pub open spec fn contains_s(s: Seq<char>, p: Seq<char>) -> bool {
    find_s(s, p) is Some
}

/// Last occurrence of `p` in `s` starting at or before `i` (`str::rfind`).
pub open spec fn rfind_upto_s(s: Seq<char>, p: Seq<char>, i: int) -> Option<int>
    decreases i + 1,
{
    if i < 0 {
        None
    } else if is_at(s, p, i) {
        Some(i)
    } else {
        rfind_upto_s(s, p, i - 1)
    }
}

pub open spec fn rfind_s(s: Seq<char>, p: Seq<char>) -> Option<int> {
    rfind_upto_s(s, p, s.len() - p.len())
}

pub fn matches_at(s: &Vec<char>, p: &Vec<char>, i: usize) -> (r: bool)
    ensures
        r == is_at(s@, p@, i as int),
{
    if i > s.len() || p.len() > s.len() - i {
        return false;
    }
    let mut k: usize = 0;
    while k < p.len()
        invariant
            i + p.len() <= s.len(),
            k <= p.len(),
            forall|j: int| 0 <= j < k ==> s@[i + j] == p@[j],
        decreases p.len() - k,
    {
        if s[i + k] != p[k] {
            assert(s@.subrange(i as int, i + p.len())[k as int] != p@[k as int]);
            return false;
        }
        k = k + 1;
    }
    assert(s@.subrange(i as int, i + p.len()) =~= p@);
    true
}

pub fn starts_with(s: &Vec<char>, p: &Vec<char>) -> (r: bool)
    ensures
        r == starts_with_s(s@, p@),
{
    matches_at(s, p, 0)
}

pub fn ends_with(s: &Vec<char>, p: &Vec<char>) -> (r: bool)
    ensures
        r == ends_with_s(s@, p@),
{
    if p.len() > s.len() {
        false
    } else {
        matches_at(s, p, s.len() - p.len())
    }
}

pub fn find_from(s: &Vec<char>, p: &Vec<char>, from: usize) -> (r: Option<usize>)
    ensures
        r matches Some(i) ==> find_from_s(s@, p@, from as int) == Some(i as int),
        r is None ==> find_from_s(s@, p@, from as int) is None,
{
    if from > s.len() || p.len() > s.len() - from {
        return None;
    }
    let mut i = from;
    while i <= s.len() - p.len()
        invariant
            from <= i,
            p.len() <= s.len(),
            find_from_s(s@, p@, from as int) == find_from_s(s@, p@, i as int),
        decreases s.len() + 1 - i,
    {
        if matches_at(s, p, i) {
            return Some(i);
        }
        if i == s.len() - p.len() {
            assert(find_from_s(s@, p@, i + 1) is None);
            return None;
        }
        i = i + 1;
    }
    None
}

pub fn find(s: &Vec<char>, p: &Vec<char>) -> (r: Option<usize>)
    ensures
        r matches Some(i) ==> find_s(s@, p@) == Some(i as int),
        r is None ==> find_s(s@, p@) is None,
{
    find_from(s, p, 0)
}

pub fn contains(s: &Vec<char>, p: &Vec<char>) -> (r: bool)
    ensures
        r == contains_s(s@, p@),
{
    find(s, p).is_some()
}

pub fn rfind(s: &Vec<char>, p: &Vec<char>) -> (r: Option<usize>)
    ensures
        r matches Some(i) ==> rfind_s(s@, p@) == Some(i as int),
        r is None ==> rfind_s(s@, p@) is None,
{
    if p.len() > s.len() {
        return None;
    }
    let mut i: usize = s.len() - p.len();
    loop
        invariant
            i <= s.len() - p.len(),
            rfind_s(s@, p@) == rfind_upto_s(s@, p@, i as int),
        decreases i,
    {
        if matches_at(s, p, i) {
            return Some(i);
        }
        if i == 0 {
            assert(rfind_upto_s(s@, p@, -1) is None);
            return None;
        }
        i = i - 1;
    }
}

/// Facts about a successful search.
pub proof fn lemma_find_from_found(s: Seq<char>, p: Seq<char>, i: int)
    requires
        find_from_s(s, p, i) is Some,
    ensures
        i <= find_from_s(s, p, i)->0,
        is_at(s, p, find_from_s(s, p, i)->0),
        forall|j: int| i <= j < find_from_s(s, p, i)->0 ==> !is_at(s, p, j),
    decreases s.len() + 1 - i,
{
    if i < 0 || i + p.len() > s.len() {
    } else if is_at(s, p, i) {
    } else {
        lemma_find_from_found(s, p, i + 1);
    }
}

/// A failed search finds no occurrence.
pub proof fn lemma_find_from_none(s: Seq<char>, p: Seq<char>, i: int)
    requires
        i >= 0,
        find_from_s(s, p, i) is None,
    ensures
        forall|j: int| i <= j ==> !is_at(s, p, j),
    decreases s.len() + 1 - i,
{
    if i + p.len() > s.len() {
    } else {
        lemma_find_from_none(s, p, i + 1);
    }
}

/// The first occurrence is characterised by position and absence before it.
pub proof fn lemma_find_from_unique(s: Seq<char>, p: Seq<char>, i: int, k: int)
    requires
        0 <= i <= k,
        is_at(s, p, k),
        forall|j: int| i <= j < k ==> !is_at(s, p, j),
    ensures
        find_from_s(s, p, i) == Some(k),
    decreases k - i,
{
    if i < k {
        lemma_find_from_unique(s, p, i + 1, k);
    }
}

/// No occurrence from `i` on means the search fails.
pub proof fn lemma_find_from_absent(s: Seq<char>, p: Seq<char>, i: int)
    requires
        0 <= i,
        forall|j: int| i <= j ==> !is_at(s, p, j),
    ensures
        find_from_s(s, p, i) is None,
    decreases s.len() + 1 - i,
{
    if i + p.len() > s.len() {
    } else {
        lemma_find_from_absent(s, p, i + 1);
    }
}

/// Facts about a successful backward search.
pub proof fn lemma_rfind_upto_found(s: Seq<char>, p: Seq<char>, i: int)
    requires
        rfind_upto_s(s, p, i) is Some,
    ensures
        rfind_upto_s(s, p, i)->0 <= i,
        is_at(s, p, rfind_upto_s(s, p, i)->0),
        forall|j: int| rfind_upto_s(s, p, i)->0 < j <= i ==> !is_at(s, p, j),
    decreases i + 1,
{
    if i < 0 {
    } else if is_at(s, p, i) {
    } else {
        lemma_rfind_upto_found(s, p, i - 1);
    }
}

/// A failed backward search finds no occurrence up to `i`.
pub proof fn lemma_rfind_upto_none(s: Seq<char>, p: Seq<char>, i: int)
    requires
        rfind_upto_s(s, p, i) is None,
    ensures
        forall|j: int| j <= i ==> !is_at(s, p, j),
    decreases i + 1,
{
    if i < 0 {
    } else {
        lemma_rfind_upto_none(s, p, i - 1);
    }
}

/// The last occurrence up to `i` is characterised by position and absence after it.
pub proof fn lemma_rfind_upto_unique(s: Seq<char>, p: Seq<char>, i: int, k: int)
    requires
        0 <= k <= i,
        is_at(s, p, k),
        forall|j: int| k < j <= i ==> !is_at(s, p, j),
    ensures
        rfind_upto_s(s, p, i) == Some(k),
    decreases i - k,
{
    if k < i {
        lemma_rfind_upto_unique(s, p, i - 1, k);
    }
}

/// The text after the first occurrence of `p`
/// (`s.split_once(p).map(|(_, after)| after)`).
pub open spec fn after_first_s(s: Seq<char>, p: Seq<char>) -> Option<Seq<char>> {
    match find_s(s, p) {
        Some(i) => Some(s.skip(i + p.len())),
        None => None,
    }
}

pub fn after_first(s: &Vec<char>, p: &Vec<char>) -> (r: Option<Vec<char>>)
    ensures
        match r {
            Some(v) => after_first_s(s@, p@) == Some(v@),
            None => after_first_s(s@, p@) is None,
        },
{
    match find(s, p) {
        Some(i) => {
            proof {
                lemma_find_from_found(s@, p@, 0);
            }
            let n = s.len();
            let v = subvec(s, i + p.len(), n);
            assert(v@ =~= s@.skip(i + p@.len()));
            Some(v)
        },
        None => None,
    }
}

// ── Single-character searches ───────────────────────────────────────────────

pub open spec fn find_char_s(s: Seq<char>, c: char) -> Option<int> {
    find_s(s, seq![c])
}

/// A one-character pattern occurs exactly where that character stands.
pub proof fn lemma_is_at_char(s: Seq<char>, c: char, i: int)
    ensures
        is_at(s, seq![c], i) <==> (0 <= i < s.len() && s[i] == c),
{
    if 0 <= i < s.len() && s[i] == c {
        assert(s.subrange(i, i + 1) =~= seq![c]);
    }
    if is_at(s, seq![c], i) {
        assert(s.subrange(i, i + 1)[0] == s[i]);
    }
}

pub fn char_vec(c: char) -> (r: Vec<char>)
    ensures
        r@ == seq![c],
{
    let mut r: Vec<char> = Vec::new();
    r.push(c);
    assert(r@ =~= seq![c]);
    r
}

// ── Lines, joining, splitting ───────────────────────────────────────────────

/// Views of a vector of character vectors.
pub open spec fn dv(v: Seq<Vec<char>>) -> Seq<Seq<char>> {
    v.map_values(|x: Vec<char>| x@)
}

pub open spec fn strip_cr(l: Seq<char>) -> Seq<char> {
    if l.len() > 0 && l.last() == '\r' {
        l.drop_last()
    } else {
        l
    }
}

/// `str::lines` from a position where `cur` holds the characters of the
/// current, unfinished line.
pub open spec fn lines_acc(s: Seq<char>, cur: Seq<char>) -> Seq<Seq<char>>
    decreases s.len(),
{
    if s.len() == 0 {
        if cur.len() == 0 {
            seq![]
        } else {
            seq![cur]
        }
    } else if s[0] == '\n' {
        seq![strip_cr(cur)] + lines_acc(s.skip(1), seq![])
    } else {
        lines_acc(s.skip(1), cur.push(s[0]))
    }
}

/// `str::lines`: lines end at `\n` (a `\r` just before it is dropped too);
/// a final line ending is optional.
pub open spec fn lines_s(s: Seq<char>) -> Seq<Seq<char>> {
    lines_acc(s, seq![])
}

pub fn lines(s: &Vec<char>) -> (r: Vec<Vec<char>>)
    ensures
        dv(r@) == lines_s(s@),
{
    let mut out: Vec<Vec<char>> = Vec::new();
    let mut cur: Vec<char> = Vec::new();
    let mut i: usize = 0;
    assert(s@.skip(0) =~= s@);
    assert(dv(out@) =~= seq![]);
    while i < s.len()
        invariant
            i <= s.len(),
            dv(out@) + lines_acc(s@.skip(i as int), cur@) == lines_s(s@),
        decreases s.len() - i,
    {
        let ghost rest = s@.skip(i as int);
        assert(rest[0] == s@[i as int]);
        assert(rest.skip(1) =~= s@.skip(i + 1));
        if s[i] == '\n' {
            let ghost old_out = dv(out@);
            let line = if cur.len() > 0 && cur[cur.len() - 1] == '\r' {
                subvec(&cur, 0, cur.len() - 1)
            } else {
                copy_chars(&cur)
            };
            assert(line@ =~= strip_cr(cur@));
            out.push(line);
            assert(dv(out@) =~= old_out.push(strip_cr(cur@)));
            assert(old_out + (seq![strip_cr(cur@)] + lines_acc(s@.skip(i + 1), seq![])) =~= dv(
                out@,
            ) + lines_acc(s@.skip(i + 1), seq![]));
            cur = Vec::new();
            assert(cur@ =~= seq![]);
        } else {
            cur.push(s[i]);
        }
        i = i + 1;
    }
    assert(s@.skip(i as int) =~= seq![]);
    if cur.len() > 0 {
        let ghost old_out = dv(out@);
        out.push(cur);
        assert(dv(out@) =~= old_out + seq![cur@]);
    } else {
        assert(dv(out@) + seq![] =~= dv(out@));
    }
    out
}

/// `[&str]::join(sep)`.
pub open spec fn join_s(ls: Seq<Seq<char>>, sep: Seq<char>) -> Seq<char>
    decreases ls.len(),
{
    if ls.len() == 0 {
        seq![]
    } else if ls.len() == 1 {
        ls[0]
    } else {
        join_s(ls.drop_last(), sep) + sep + ls.last()
    }
}

/// The text of a file written as `lines.join("\n") + "\n"`.
pub open spec fn text_file_s(ls: Seq<Seq<char>>) -> Seq<char> {
    join_s(ls, seq!['\n']) + seq!['\n']
}

pub fn join(ls: &Vec<Vec<char>>, sep: &Vec<char>) -> (r: Vec<char>)
    ensures
        r@ == join_s(dv(ls@), sep@),
{
    let mut out: Vec<char> = Vec::new();
    let ghost all = dv(ls@);
    let mut i: usize = 0;
    assert(all.take(0) =~= seq![]);
    while i < ls.len()
        invariant
            i <= ls.len(),
            all == dv(ls@),
            out@ == join_s(all.take(i as int), sep@),
        decreases ls.len() - i,
    {
        assert(all.take(i + 1).drop_last() =~= all.take(i as int));
        assert(all.take(i + 1).last() == ls@[i as int]@);
        if i > 0 {
            push_all(&mut out, sep);
        } else {
            assert(all.take(1) =~= seq![ls@[0]@]);
        }
        push_all(&mut out, &ls[i]);
        i = i + 1;
    }
    assert(all.take(i as int) =~= all);
    out
}

pub fn text_file(ls: &Vec<Vec<char>>) -> (r: Vec<char>)
    ensures
        r@ == text_file_s(dv(ls@)),
{
    let nl = char_vec('\n');
    let mut r = join(ls, &nl);
    r.push('\n');
    r
}

/// `str::split(c)` from a position where `cur` holds the unfinished piece.
pub open spec fn split_acc(s: Seq<char>, c: char, cur: Seq<char>) -> Seq<Seq<char>>
    decreases s.len(),
{
    if s.len() == 0 {
        seq![cur]
    } else if s[0] == c {
        seq![cur] + split_acc(s.skip(1), c, seq![])
    } else {
        split_acc(s.skip(1), c, cur.push(s[0]))
    }
}

/// `str::split(c)` for a character separator.
pub open spec fn split_s(s: Seq<char>, c: char) -> Seq<Seq<char>> {
    split_acc(s, c, seq![])
}

pub fn split_char(s: &Vec<char>, c: char) -> (r: Vec<Vec<char>>)
    ensures
        dv(r@) == split_s(s@, c),
{
    let mut out: Vec<Vec<char>> = Vec::new();
    let mut cur: Vec<char> = Vec::new();
    let mut i: usize = 0;
    assert(s@.skip(0) =~= s@);
    assert(dv(out@) =~= seq![]);
    while i < s.len()
        invariant
            i <= s.len(),
            dv(out@) + split_acc(s@.skip(i as int), c, cur@) == split_s(s@, c),
        decreases s.len() - i,
    {
        let ghost rest = s@.skip(i as int);
        assert(rest[0] == s@[i as int]);
        assert(rest.skip(1) =~= s@.skip(i + 1));
        if s[i] == c {
            let ghost old_out = dv(out@);
            let piece = copy_chars(&cur);
            out.push(piece);
            assert(dv(out@) =~= old_out.push(cur@));
            assert(old_out + (seq![cur@] + split_acc(s@.skip(i + 1), c, seq![])) =~= dv(out@)
                + split_acc(s@.skip(i + 1), c, seq![]));
            cur = Vec::new();
            assert(cur@ =~= seq![]);
        } else {
            cur.push(s[i]);
        }
        i = i + 1;
    }
    assert(s@.skip(i as int) =~= seq![]);
    let ghost old_out = dv(out@);
    out.push(cur);
    assert(dv(out@) =~= old_out + seq![cur@]);
    out
}

/// `str::split_whitespace` from a position where `cur` holds the unfinished word.
pub open spec fn words_acc(s: Seq<char>, cur: Seq<char>) -> Seq<Seq<char>>
    decreases s.len(),
{
    if s.len() == 0 {
        if cur.len() == 0 {
            seq![]
        } else {
            seq![cur]
        }
    } else if is_ws(s[0]) {
        (if cur.len() == 0 {
            seq![]
        } else {
            seq![cur]
        }) + words_acc(s.skip(1), seq![])
    } else {
        words_acc(s.skip(1), cur.push(s[0]))
    }
}

/// `str::split_whitespace`.
pub open spec fn words_s(s: Seq<char>) -> Seq<Seq<char>> {
    words_acc(s, seq![])
}

pub fn split_whitespace(s: &Vec<char>) -> (r: Vec<Vec<char>>)
    ensures
        dv(r@) == words_s(s@),
{
    let mut out: Vec<Vec<char>> = Vec::new();
    let mut cur: Vec<char> = Vec::new();
    let mut i: usize = 0;
    assert(s@.skip(0) =~= s@);
    assert(dv(out@) =~= seq![]);
    while i < s.len()
        invariant
            i <= s.len(),
            dv(out@) + words_acc(s@.skip(i as int), cur@) == words_s(s@),
        decreases s.len() - i,
    {
        let ghost rest = s@.skip(i as int);
        assert(rest[0] == s@[i as int]);
        assert(rest.skip(1) =~= s@.skip(i + 1));
        if is_whitespace_char(s[i]) {
            let ghost old_out = dv(out@);
            if cur.len() > 0 {
                let piece = copy_chars(&cur);
                out.push(piece);
                assert(dv(out@) =~= old_out.push(cur@));
                assert(old_out + (seq![cur@] + words_acc(s@.skip(i + 1), seq![])) =~= dv(out@)
                    + words_acc(s@.skip(i + 1), seq![]));
            } else {
                assert(old_out + (seq![] + words_acc(s@.skip(i + 1), seq![])) =~= dv(out@)
                    + words_acc(s@.skip(i + 1), seq![]));
            }
            cur = Vec::new();
            assert(cur@ =~= seq![]);
        } else {
            cur.push(s[i]);
        }
        i = i + 1;
    }
    assert(s@.skip(i as int) =~= seq![]);
    if cur.len() > 0 {
        let ghost old_out = dv(out@);
        out.push(cur);
        assert(dv(out@) =~= old_out + seq![cur@]);
    } else {
        assert(dv(out@) + seq![] =~= dv(out@));
    }
    out
}

/// `str::replace(from, to)`: non-overlapping occurrences, leftmost first.
pub open spec fn replace_s(s: Seq<char>, from: Seq<char>, to: Seq<char>) -> Seq<char>
    decreases s.len(),
{
    if from.len() == 0 {
        if s.len() == 0 {
            to
        } else {
            to + seq![s[0]] + replace_s(s.skip(1), from, to)
        }
    } else if s.len() == 0 {
        seq![]
    } else if is_at(s, from, 0) {
        to + replace_s(s.skip(from.len() as int), from, to)
    } else {
        seq![s[0]] + replace_s(s.skip(1), from, to)
    }
}

pub fn replace(s: &Vec<char>, from: &Vec<char>, to: &Vec<char>) -> (r: Vec<char>)
    ensures
        r@ == replace_s(s@, from@, to@),
{
    let mut out: Vec<char> = Vec::new();
    let mut i: usize = 0;
    assert(s@.skip(0) =~= s@);
    while i < s.len()
        invariant
            i <= s.len(),
            out@ + replace_s(s@.skip(i as int), from@, to@) == replace_s(s@, from@, to@),
        decreases s.len() - i,
    {
        let ghost rest = s@.skip(i as int);
        assert(rest[0] == s@[i as int]);
        if from.len() == 0 {
            assert(rest.skip(1) =~= s@.skip(i + 1));
            let ghost o = out@;
            push_all(&mut out, to);
            out.push(s[i]);
            assert(o + (to@ + seq![rest[0]] + replace_s(rest.skip(1), from@, to@)) =~= out@
                + replace_s(s@.skip(i + 1), from@, to@));
            i = i + 1;
        } else if matches_at(s, from, i) {
            assert(rest.subrange(0, from@.len() as int) =~= s@.subrange(
                i as int,
                i + from@.len(),
            ));
            assert(rest.skip(from@.len() as int) =~= s@.skip(i + from@.len()));
            let ghost o = out@;
            push_all(&mut out, to);
            assert(o + (to@ + replace_s(rest.skip(from@.len() as int), from@, to@)) =~= out@
                + replace_s(s@.skip(i + from@.len()), from@, to@));
            i = i + from.len();
        } else {
            assert(rest.subrange(0, from@.len() as int) =~= s@.subrange(
                i as int,
                i + from@.len(),
            ) || !is_at(rest, from@, 0));
            assert(rest.skip(1) =~= s@.skip(i + 1));
            let ghost o = out@;
            out.push(s[i]);
            assert(o + (seq![rest[0]] + replace_s(rest.skip(1), from@, to@)) =~= out@ + replace_s(
                s@.skip(i + 1),
                from@,
                to@,
            ));
            i = i + 1;
        }
    }
    assert(s@.skip(i as int) =~= seq![]);
    if from.len() == 0 {
        let ghost o = out@;
        push_all(&mut out, to);
    } else {
        assert(out@ + seq![] =~= out@);
    }
    out
}

// ── Decimal numbers ──────────────────────────────────────────────────────────

pub open spec fn all_digits(s: Seq<char>) -> bool {
    forall|i: int| 0 <= i < s.len() ==> is_digit(#[trigger] s[i])
}

pub open spec fn digit_val(c: char) -> int {
    (c as int) - 48
}

pub open spec fn digits_value(s: Seq<char>) -> nat
    decreases s.len(),
{
    if s.len() == 0 {
        0
    } else {
        (digits_value(s.drop_last()) * 10 + digit_val(s.last())) as nat
    }
}

/// The digits that `u32::from_str` reads: an optional leading `+` is skipped.
pub open spec fn unsigned_digits(s: Seq<char>) -> Seq<char> {
    if s.len() > 0 && s[0] == '+' {
        s.skip(1)
    } else {
        s
    }
}

/// `s.parse::<u32>().ok()`.
pub open spec fn parse_u32_s(s: Seq<char>) -> Option<u32> {
    let d = unsigned_digits(s);
    if d.len() > 0 && all_digits(d) && digits_value(d) <= u32::MAX {
        Some(digits_value(d) as u32)
    } else {
        None
    }
}

/// The value of a prefix of a digit string never exceeds the value of the whole.
pub proof fn lemma_digits_value_mono(s: Seq<char>, k: int)
    requires
        0 <= k <= s.len(),
        all_digits(s),
    ensures
        digits_value(s.take(k)) <= digits_value(s),
    decreases s.len() - k,
{
    if k < s.len() {
        let t = s.take(k + 1);
        assert(t.drop_last() =~= s.take(k));
        assert(is_digit(s[k]));
        assert(t.last() == s[k]);
        assert(digits_value(s.take(k)) <= digits_value(t));
        lemma_digits_value_mono(s, k + 1);
    } else {
        assert(s.take(k) =~= s);
    }
}

pub fn parse_u32(s: &Vec<char>) -> (r: Option<u32>)
    ensures
        r == parse_u32_s(s@),
{
    let start: usize = if s.len() > 0 && s[0] == '+' {
        1
    } else {
        0
    };
    let ghost d = unsigned_digits(s@);
    assert(d =~= s@.skip(start as int));
    if start >= s.len() {
        return None;
    }
    let mut v: u64 = 0;
    let mut i = start;
    assert(d.take(0) =~= seq![]);
    while i < s.len()
        invariant
            start <= i <= s.len(),
            start < s.len(),
            d =~= s@.skip(start as int),
            d == unsigned_digits(s@),
            all_digits(d.take(i - start)),
            v == digits_value(d.take(i - start)),
            v <= u32::MAX,
        decreases s.len() - i,
    {
        let c = s[i];
        if !is_digit_char(c) {
            assert(d[i - start] == c);
            assert(!is_digit(d[i - start]));
            assert(!all_digits(d));
            return None;
        }
        let dig = (c as u32 - '0' as u32) as u64;
        let ghost t = d.take(i - start + 1);
        assert(t.drop_last() =~= d.take(i - start));
        assert(t.last() == c);
        assert(all_digits(t));
        assert(dig == digit_val(c));
        assert(digits_value(t) == digits_value(d.take(i - start)) * 10 + digit_val(c));
        v = v * 10 + dig;
        i = i + 1;
        assert(v == digits_value(d.take(i - start)));
        if v > 0xffff_ffff {
            proof {
                if all_digits(d) {
                    lemma_digits_value_mono(d, i - start);
                }
            }
            assert(parse_u32_s(s@) is None);
            return None;
        }
    }
    assert(d.take(i - start) =~= d);
    Some(v as u32)
}

pub open spec fn digit_char(d: nat) -> char {
    (48 + d) as char
}

/// Decimal representation of `n` (`n.to_string()`).
pub open spec fn dec_s(n: nat) -> Seq<char>
    decreases n,
{
    if n < 10 {
        seq![digit_char(n)]
    } else {
        dec_s(n / 10).push(digit_char(n % 10))
    }
}

fn digit_to_char(d: u64) -> (c: char)
    requires
        d < 10,
    ensures
        c == digit_char(d as nat),
{
    let b = (d as u8) + 48;
    b as char
}

pub fn push_dec(out: &mut Vec<char>, n: u64)
    ensures
        final(out)@ == old(out)@ + dec_s(n as nat),
    decreases n,
{
    if n < 10 {
        out.push(digit_to_char(n));
        assert(out@ =~= old(out)@ + dec_s(n as nat));
    } else {
        push_dec(out, n / 10);
        out.push(digit_to_char(n % 10));
        assert(out@ =~= old(out)@ + dec_s(n as nat));
    }
}

pub fn u32_dec(n: u32) -> (r: Vec<char>)
    ensures
        r@ == dec_s(n as nat),
{
    let mut r: Vec<char> = Vec::new();
    push_dec(&mut r, n as u64);
    assert(r@ =~= dec_s(n as nat));
    r
}

/// Decimal representation of a signed integer.
pub open spec fn dec_int_s(n: int) -> Seq<char> {
    if n < 0 {
        seq!['-'] + dec_s((-n) as nat)
    } else {
        dec_s(n as nat)
    }
}

pub fn i32_dec(n: i32) -> (r: Vec<char>)
    ensures
        r@ == dec_int_s(n as int),
{
    let mut r: Vec<char> = Vec::new();
    if n < 0 {
        r.push('-');
        let m: i64 = -(n as i64);
        push_dec(&mut r, m as u64);
    } else {
        push_dec(&mut r, n as u64);
    }
    assert(r@ =~= dec_int_s(n as int));
    r
}

/// Decimal text of a number is a non-empty run of digits whose value is the number.
pub proof fn lemma_dec_digits(n: nat)
    ensures
        dec_s(n).len() > 0,
        all_digits(dec_s(n)),
        digits_value(dec_s(n)) == n,
    decreases n,
{
    if n < 10 {
        assert(digits_value(dec_s(n).drop_last()) == 0) by {
            assert(dec_s(n).drop_last() =~= seq![]);
        }
    } else {
        lemma_dec_digits(n / 10);
        let s = dec_s(n);
        assert(s.drop_last() =~= dec_s(n / 10));
        assert forall|i: int| 0 <= i < s.len() implies is_digit(#[trigger] s[i]) by {
            if i < s.len() - 1 {
                assert(s[i] == dec_s(n / 10)[i]);
            }
        }
    }
}

/// Decimal text is read back by `parse::<u32>`.
pub proof fn lemma_parse_dec(n: u32)
    ensures
        parse_u32_s(dec_s(n as nat)) == Some(n),
{
    lemma_dec_digits(n as nat);
    let s = dec_s(n as nat);
    assert(is_digit(s[0]));
    assert(unsigned_digits(s) == s);
}

/// Splitting passes over a run of characters that holds no separator.
pub proof fn lemma_split_no_sep(x: Seq<char>, rest: Seq<char>, c: char, cur: Seq<char>)
    requires
        forall|i: int| 0 <= i < x.len() ==> x[i] != c,
    ensures
        split_acc(x + rest, c, cur) == split_acc(rest, c, cur + x),
    decreases x.len(),
{
    if x.len() == 0 {
        assert(x + rest =~= rest);
        assert(cur + x =~= cur);
    } else {
        let t = x + rest;
        assert(t[0] == x[0]);
        assert(t.skip(1) =~= x.skip(1) + rest);
        assert(cur.push(x[0]) + x.skip(1) =~= cur + x);
        lemma_split_no_sep(x.skip(1), rest, c, cur.push(x[0]));
    }
}

/// Splitting at a separator.
pub proof fn lemma_split_at_sep(rest: Seq<char>, c: char, cur: Seq<char>)
    ensures
        split_acc(seq![c] + rest, c, cur) == seq![cur] + split_acc(rest, c, seq![]),
{
    let t = seq![c] + rest;
    assert(t[0] == c);
    assert(t.skip(1) =~= rest);
}

/// Decimal digits contain no character other than `0`..`9`.
pub proof fn lemma_dec_no_char(n: nat, c: char)
    requires
        !is_digit(c),
    ensures
        forall|i: int| 0 <= i < dec_s(n).len() ==> dec_s(n)[i] != c,
{
    lemma_dec_digits(n);
    assert forall|i: int| 0 <= i < dec_s(n).len() implies dec_s(n)[i] != c by {
        assert(is_digit(dec_s(n)[i]));
    }
}

/// `c` does not occur in `s`.
pub open spec fn lacks(s: Seq<char>, c: char) -> bool {
    forall|i: int| 0 <= i < s.len() ==> s[i] != c
}

/// A pattern that follows a prefix free of its first character is found
/// right after that prefix.
pub proof fn lemma_find_after_prefix(x: Seq<char>, p: Seq<char>, y: Seq<char>)
    requires
        p.len() > 0,
        lacks(x, p[0]),
    ensures
        find_s(x + p + y, p) == Some(x.len() as int),
{
    let w = x + p + y;
    assert(w.subrange(x.len() as int, (x.len() + p.len()) as int) =~= p);
    assert forall|j: int| 0 <= j < x.len() implies !is_at(w, p, j) by {
        if is_at(w, p, j) {
            assert(w.subrange(j, j + p.len())[0] == w[j]);
            assert(w[j] == x[j]);
        }
    }
    lemma_find_from_unique(w, p, 0, x.len() as int);
}

/// A text free of `p`'s first character holds no occurrence of `p`.
pub proof fn lemma_find_absent_char(x: Seq<char>, p: Seq<char>)
    requires
        p.len() > 0,
        lacks(x, p[0]),
    ensures
        find_s(x, p) is None,
        rfind_s(x, p) is None,
{
    assert forall|j: int| 0 <= j implies !is_at(x, p, j) by {
        if is_at(x, p, j) {
            assert(x.subrange(j, j + p.len())[0] == x[j]);
        }
    }
    lemma_find_from_absent(x, p, 0);
    if rfind_s(x, p) is Some {
        lemma_rfind_upto_found(x, p, x.len() - p.len());
    }
}

/// The last occurrence of `p` when what follows its first character never
/// holds that character again.
pub proof fn lemma_rfind_last(x: Seq<char>, p: Seq<char>, y: Seq<char>)
    requires
        p.len() > 0,
        lacks(p.skip(1) + y, p[0]),
    ensures
        rfind_s(x + p + y, p) == Some(x.len() as int),
{
    let w = x + p + y;
    assert(w.subrange(x.len() as int, (x.len() + p.len()) as int) =~= p);
    let t = p.skip(1) + y;
    assert forall|j: int| x.len() < j <= w.len() - p.len() implies !is_at(w, p, j) by {
        if is_at(w, p, j) {
            assert(w.subrange(j, j + p.len())[0] == w[j]);
            assert(w[j] == t[j - x.len() - 1]);
        }
    }
    lemma_rfind_upto_unique(w, p, w.len() - p.len(), x.len() as int);
}

/// Splitting at a separator splits the two sides independently.
pub proof fn lemma_split_concat(x: Seq<char>, c: char, y: Seq<char>, cur: Seq<char>)
    ensures
        split_acc(x + seq![c] + y, c, cur) == split_acc(x, c, cur) + split_acc(y, c, seq![]),
    decreases x.len(),
{
    let w = x + seq![c] + y;
    if x.len() == 0 {
        assert(w =~= seq![c] + y);
        lemma_split_at_sep(y, c, cur);
        assert(split_acc(x, c, cur) == seq![cur]);
    } else {
        assert(w[0] == x[0]);
        assert(w.skip(1) =~= x.skip(1) + seq![c] + y);
        if x[0] == c {
            lemma_split_concat(x.skip(1), c, y, seq![]);
            assert(seq![cur] + (split_acc(x.skip(1), c, seq![]) + split_acc(y, c, seq![]))
                =~= seq![cur] + split_acc(x.skip(1), c, seq![]) + split_acc(y, c, seq![]));
        } else {
            lemma_split_concat(x.skip(1), c, y, cur.push(x[0]));
        }
    }
}

/// Splitting always gives at least one piece.
pub proof fn lemma_split_acc_nonempty(s: Seq<char>, c: char, cur: Seq<char>)
    ensures
        split_acc(s, c, cur).len() >= 1,
    decreases s.len(),
{
    if s.len() > 0 {
        if s[0] == c {
            lemma_split_acc_nonempty(s.skip(1), c, seq![]);
        } else {
            lemma_split_acc_nonempty(s.skip(1), c, cur.push(s[0]));
        }
    }
}

/// Splitting any text gives at least one piece.
pub proof fn lemma_split_nonempty(s: Seq<char>, c: char)
    ensures
        split_s(s, c).len() >= 1,
{
    lemma_split_acc_nonempty(s, c, seq![]);
}

/// A piece free of the separator splits into itself.
pub proof fn lemma_split_single(x: Seq<char>, c: char)
    requires
        lacks(x, c),
    ensures
        split_s(x, c) == seq![x],
{
    let e: Seq<char> = seq![];
    assert(x + e =~= x);
    lemma_split_no_sep(x, e, c, e);
    assert(e + x =~= x);
}

/// A run of digits in front adds its length to the count of leading digits.
pub proof fn lemma_leading_digits_concat(x: Seq<char>, y: Seq<char>)
    requires
        all_digits(x),
    ensures
        leading_digits(x + y) == x.len() + leading_digits(y),
    decreases x.len(),
{
    if x.len() > 0 {
        let w = x + y;
        assert(w[0] == x[0]);
        assert(is_digit(x[0]));
        assert(w.skip(1) =~= x.skip(1) + y);
        lemma_leading_digits_concat(x.skip(1), y);
    } else {
        assert(x + y =~= y);
    }
}

/// Number of leading ASCII digits.
pub open spec fn leading_digits(s: Seq<char>) -> nat
    decreases s.len(),
{
    if s.len() > 0 && is_digit(s[0]) {
        1 + leading_digits(s.skip(1))
    } else {
        0
    }
}

/// `str::eq_ignore_ascii_case`.
pub open spec fn eq_ignore_case_s(a: Seq<char>, b: Seq<char>) -> bool {
    a.len() == b.len() && forall|i: int| 0 <= i < a.len() ==> ascii_lower(a[i]) == ascii_lower(b[i])
}

pub fn eq_ignore_ascii_case(a: &Vec<char>, b: &Vec<char>) -> (r: bool)
    ensures
        r == eq_ignore_case_s(a@, b@),
{
    if a.len() != b.len() {
        return false;
    }
    let mut i: usize = 0;
    while i < a.len()
        invariant
            i <= a.len() == b.len(),
            forall|j: int| 0 <= j < i ==> ascii_lower(a@[j]) == ascii_lower(b@[j]),
        decreases a.len() - i,
    {
        if ascii_lower_char(a[i]) != ascii_lower_char(b[i]) {
            return false;
        }
        i = i + 1;
    }
    true
}

/// Every character is an ASCII digit (`chars().all(|c| c.is_ascii_digit())`).
pub fn all_digit_chars(s: &Vec<char>) -> (r: bool)
    ensures
        r == all_digits(s@),
{
    let mut i: usize = 0;
    while i < s.len()
        invariant
            i <= s.len(),
            forall|j: int| 0 <= j < i ==> is_digit(#[trigger] s@[j]),
        decreases s.len() - i,
    {
        if !is_digit_char(s[i]) {
            return false;
        }
        i = i + 1;
    }
    true
}

} // verus!
