//! Lintian output: classifying diagnostics and pruning stale overrides.
use vstd::prelude::*;

use crate::text::{
    chars_to_string, contains, contains_s, copy_chars, dv, find, find_s, lines, lines_acc, lines_s,
    strip_cr,
    split_whitespace, str_chars, subvec, text_file, text_file_s, words_s,
};

verus! {

/// A single Lintian diagnostic entry.
#[derive(Debug, Clone)]
pub struct LintianEntry {
    pub severity: String,
    pub tag: String,
    pub detail: String,
    pub raw: String,
}

/// The abstract content of a [`LintianEntry`].
pub struct LintianEntryV {
    pub severity: Seq<char>,
    pub tag: Seq<char>,
    pub detail: Seq<char>,
    pub raw: Seq<char>,
}

impl View for LintianEntry {
    type V = LintianEntryV;

    open spec fn view(&self) -> LintianEntryV {
        LintianEntryV {
            severity: self.severity@,
            tag: self.tag@,
            detail: self.detail@,
            raw: self.raw@,
        }
    }
}

/// Parsed output from a Lintian run.
#[derive(Debug)]
pub struct LintianOutput {
    pub errors: Vec<LintianEntry>,
    pub warnings: Vec<LintianEntry>,
    pub raw: String,
}

pub open spec fn entry_views(v: Seq<LintianEntry>) -> Seq<LintianEntryV> {
    v.map_values(|e: LintianEntry| e@)
}

pub open spec fn is_severity(c: char) -> bool {
    c == 'E' || c == 'W' || c == 'I' || c == 'P'
}

pub open spec fn is_ascii(c: char) -> bool {
    (c as u32) < 0x80
}

/// A line that the classifier can cut at its byte offsets: one starting
/// with a severity letter has an ASCII second character, and after `X:` an
/// ASCII third one.
pub open spec fn lintian_line_ok(l: Seq<char>) -> bool {
    (l.len() >= 2 && is_severity(l[0])) ==> (is_ascii(l[1]) && ((l[1] == ':' && l.len() >= 3)
        ==> is_ascii(l[2])))
}

pub open spec fn lintian_text_ok(raw: Seq<char>) -> bool {
    forall|i: int| 0 <= i < lines_s(raw).len() ==> #[trigger] lintian_line_ok(lines_s(raw)[i])
}

pub open spec fn first_word_s(s: Seq<char>) -> Seq<char> {
    if words_s(s).len() > 0 {
        words_s(s)[0]
    } else {
        seq![]
    }
}

/// The diagnostic on a line `<severity>: <package>: <tag> [details]`, where
/// the severity is `E`, `W`, `I` or `P`: the detail is what follows
/// `X: `, the tag the first word after the next `: ` (or the first word of
/// the detail when there is none).
pub open spec fn lintian_entry_s(l: Seq<char>) -> Option<LintianEntryV> {
    if l.len() >= 3 && is_severity(l[0]) && l[1] == ':' {
        let rest = l.skip(3);
        let tag = match find_s(rest, ": "@) {
            Some(i) => first_word_s(rest.skip(i + 2)),
            None => first_word_s(rest),
        };
        Some(LintianEntryV { severity: seq![l[0]], tag, detail: rest, raw: l })
    } else {
        None
    }
}

/// The diagnostics of severity `sev` among the lines, in order.
pub open spec fn entries_with_s(ls: Seq<Seq<char>>, sev: char) -> Seq<LintianEntryV>
    decreases ls.len(),
{
    if ls.len() == 0 {
        seq![]
    } else {
        (match lintian_entry_s(ls[0]) {
            Some(e) => if e.severity == seq![sev] {
                seq![e]
            } else {
                seq![]
            },
            None => seq![],
        }) + entries_with_s(ls.skip(1), sev)
    }
}

/// Every character of `s` is ASCII.
pub open spec fn all_ascii(s: Seq<char>) -> bool {
    forall|i: int| 0 <= i < s.len() ==> is_ascii(#[trigger] s[i])
}

proof fn lemma_lines_acc_ascii(s: Seq<char>, cur: Seq<char>)
    requires
        all_ascii(s),
        all_ascii(cur),
    ensures
        forall|i: int| 0 <= i < lines_acc(s, cur).len() ==> all_ascii(#[trigger] lines_acc(s, cur)[i]),
    decreases s.len(),
{
    if s.len() > 0 {
        assert(all_ascii(s.skip(1))) by {
            assert forall|i: int| 0 <= i < s.skip(1).len() implies is_ascii(#[trigger] s.skip(1)[i]) by {
                assert(s.skip(1)[i] == s[i + 1]);
            }
        }
        if s[0] == '\n' {
            let e: Seq<char> = seq![];
            lemma_lines_acc_ascii(s.skip(1), e);
            let c = strip_cr(cur);
            assert(all_ascii(c)) by {
                assert forall|i: int| 0 <= i < c.len() implies is_ascii(#[trigger] c[i]) by {
                    assert(c[i] == cur[i]);
                }
            }
            let ls = lines_acc(s, cur);
            assert(ls == seq![c] + lines_acc(s.skip(1), e));
            assert forall|i: int| 0 <= i < ls.len() implies all_ascii(#[trigger] ls[i]) by {
                if i > 0 {
                    assert(ls[i] == lines_acc(s.skip(1), e)[i - 1]);
                }
            }
        } else {
            let c = cur.push(s[0]);
            assert(all_ascii(c)) by {
                assert forall|i: int| 0 <= i < c.len() implies is_ascii(#[trigger] c[i]) by {
                    if i < cur.len() {
                        assert(c[i] == cur[i]);
                    }
                }
            }
            lemma_lines_acc_ascii(s.skip(1), c);
            assert(lines_acc(s, cur) == lines_acc(s.skip(1), c));
        }
    } else if cur.len() > 0 {
        assert(lines_acc(s, cur) == seq![cur]);
        assert(lines_acc(s, cur)[0] == cur);
    }
}

/// ASCII Lintian output can always be classified: its lines can be cut at
/// the byte offsets that [`parse_lintian_output`] uses.
pub proof fn lemma_ascii_lintian_text_ok(raw: Seq<char>)
    requires
        all_ascii(raw),
    ensures
        lintian_text_ok(raw),
{
    let e: Seq<char> = seq![];
    lemma_lines_acc_ascii(raw, e);
}

/// Whether every line of `raw` can be classified (see [`lintian_line_ok`]).
pub fn lintian_input_ok(raw: &str) -> (r: bool)
    ensures
        r == lintian_text_ok(raw@),
{
    let ls = lines(&str_chars(raw));
    let ghost d = dv(ls@);
    let mut i: usize = 0;
    while i < ls.len()
        invariant
            i <= ls.len(),
            d == dv(ls@),
            d.len() == ls.len(),
            d == lines_s(raw@),
            forall|j: int| 0 <= j < i ==> #[trigger] lintian_line_ok(d[j]),
        decreases ls.len() - i,
    {
        assert(d[i as int] == ls@[i as int]@);
        let l = &ls[i];
        if l.len() >= 2 && (l[0] == 'E' || l[0] == 'W' || l[0] == 'I' || l[0] == 'P') {
            if !((l[1] as u32) < 0x80) {
                assert(!lintian_line_ok(lines_s(raw@)[i as int]));
                return false;
            }
            if l[1] == ':' && l.len() >= 3 && !((l[2] as u32) < 0x80) {
                assert(!lintian_line_ok(lines_s(raw@)[i as int]));
                return false;
            }
        }
        i = i + 1;
    }
    true
}

fn first_word(s: &Vec<char>) -> (r: Vec<char>)
    ensures
        r@ == first_word_s(s@),
{
    let ws = split_whitespace(s);
    if ws.len() > 0 {
        assert(dv(ws@)[0] == ws@[0]@);
        copy_chars(&ws[0])
    } else {
        Vec::new()
    }
}

fn lintian_entry(l: &Vec<char>) -> (r: Option<LintianEntry>)
    ensures
        match r {
            Some(e) => lintian_entry_s(l@) == Some(e@),
            None => lintian_entry_s(l@) is None,
        },
{
    if !(l.len() >= 3 && (l[0] == 'E' || l[0] == 'W' || l[0] == 'I' || l[0] == 'P') && l[1]
        == ':') {
        return None;
    }
    let n = l.len();
    let rest = subvec(l, 3, n);
    assert(rest@ =~= l@.skip(3));
    let tag = match find(&rest, &str_chars(": ")) {
        Some(i) => {
            proof {
                crate::text::lemma_find_from_found(rest@, ": "@, 0);
                reveal_strlit(": ");
            }
            let m = rest.len();
            let after = subvec(&rest, i + 2, m);
            assert(after@ =~= rest@.skip(i + 2));
            first_word(&after)
        },
        None => first_word(&rest),
    };
    let mut sev: Vec<char> = Vec::new();
    sev.push(l[0]);
    assert(sev@ =~= seq![l@[0]]);
    Some(
        LintianEntry {
            severity: chars_to_string(&sev),
            tag: chars_to_string(&tag),
            detail: chars_to_string(&rest),
            raw: chars_to_string(l),
        },
    )
}

/// Classify Lintian output: the `E:` lines become errors and the `W:` lines
/// warnings, each with its tag (see [`lintian_entry_s`]); the raw text is
/// kept.
pub fn parse_lintian_output(raw: &str) -> (r: LintianOutput)
    requires
        lintian_text_ok(raw@),
    ensures
        entry_views(r.errors@) == entries_with_s(lines_s(raw@), 'E'),
        entry_views(r.warnings@) == entries_with_s(lines_s(raw@), 'W'),
        r.raw@ == raw@,
{
    let text = str_chars(raw);
    let ls = lines(&text);
    let ghost d = dv(ls@);
    let mut errors: Vec<LintianEntry> = Vec::new();
    let mut warnings: Vec<LintianEntry> = Vec::new();
    let mut i: usize = 0;
    assert(d.skip(0) =~= d);
    assert(entry_views(errors@) =~= seq![]);
    assert(entry_views(warnings@) =~= seq![]);
    while i < ls.len()
        invariant
            i <= ls.len(),
            d == dv(ls@),
            d.len() == ls.len(),
            d == lines_s(raw@),
            entry_views(errors@) + entries_with_s(d.skip(i as int), 'E') == entries_with_s(d, 'E'),
            entry_views(warnings@) + entries_with_s(d.skip(i as int), 'W') == entries_with_s(
                d,
                'W',
            ),
        decreases ls.len() - i,
    {
        let ghost rest = d.skip(i as int);
        assert(rest[0] == ls@[i as int]@);
        assert(rest.skip(1) =~= d.skip(i + 1));
        let ghost oe = entry_views(errors@);
        let ghost ow = entry_views(warnings@);
        match lintian_entry(&ls[i]) {
            Some(e) => {
                let ghost ev = e@;
                if ls[i][0] == 'E' {
                    errors.push(e);
                    assert(entry_views(errors@) =~= oe + seq![ev]);
                    assert(ev.severity =~= seq!['E']);
                    assert(ev.severity[0] != seq!['W'][0]);
                    assert(oe + entries_with_s(rest, 'E') =~= oe + seq![ev] + entries_with_s(
                        rest.skip(1),
                        'E',
                    ));
                    assert(entries_with_s(rest, 'W') =~= entries_with_s(rest.skip(1), 'W'));
                } else if ls[i][0] == 'W' {
                    warnings.push(e);
                    assert(entry_views(warnings@) =~= ow + seq![ev]);
                    assert(ev.severity =~= seq!['W']);
                    assert(ev.severity[0] != seq!['E'][0]);
                    assert(ow + entries_with_s(rest, 'W') =~= ow + seq![ev] + entries_with_s(
                        rest.skip(1),
                        'W',
                    ));
                    assert(entries_with_s(rest, 'E') =~= entries_with_s(rest.skip(1), 'E'));
                } else {
                    assert(ev.severity[0] != seq!['W'][0]);
                    assert(ev.severity[0] != seq!['E'][0]);
                    assert(entries_with_s(rest, 'E') =~= entries_with_s(rest.skip(1), 'E'));
                    assert(entries_with_s(rest, 'W') =~= entries_with_s(rest.skip(1), 'W'));
                }
            },
            None => {
                assert(entries_with_s(rest, 'E') =~= entries_with_s(rest.skip(1), 'E'));
                assert(entries_with_s(rest, 'W') =~= entries_with_s(rest.skip(1), 'W'));
            },
        }
        i = i + 1;
    }
    assert(d.skip(i as int) =~= seq![]);
    assert(entry_views(errors@) + seq![] =~= entry_views(errors@));
    assert(entry_views(warnings@) + seq![] =~= entry_views(warnings@));
    LintianOutput { errors, warnings, raw: chars_to_string(&text) }
}

// ── Overrides ────────────────────────────────────────────────────────────────

/// A line mentions one of the entries.
pub open spec fn mentions_any_s(l: Seq<char>, entries: Seq<Seq<char>>) -> bool {
    exists|k: int| 0 <= k < entries.len() && contains_s(l, #[trigger] entries[k])
}

/// The lines that mention none of the entries, in order.
pub open spec fn kept_lines_s(ls: Seq<Seq<char>>, entries: Seq<Seq<char>>) -> Seq<Seq<char>>
    decreases ls.len(),
{
    if ls.len() == 0 {
        seq![]
    } else {
        (if mentions_any_s(ls[0], entries) {
            seq![]
        } else {
            seq![ls[0]]
        }) + kept_lines_s(ls.skip(1), entries)
    }
}

/// The text of a Lintian overrides file without the lines that contain any
/// of `entries`.
pub fn remove_mismatched_overrides(content: &str, entries: &Vec<String>) -> (r: String)
    ensures
        r@ == text_file_s(
            kept_lines_s(lines_s(content@), entries@.map_values(|e: String| e@)),
        ),
{
    let ghost es = entries@.map_values(|e: String| e@);
    let mut pats: Vec<Vec<char>> = Vec::new();
    let mut k: usize = 0;
    while k < entries.len()
        invariant
            k <= entries.len(),
            es == entries@.map_values(|e: String| e@),
            dv(pats@) == es.take(k as int),
        decreases entries.len() - k,
    {
        let ghost o = dv(pats@);
        let p = str_chars(entries[k].as_str());
        let ghost pv = p@;
        pats.push(p);
        assert(dv(pats@) =~= o.push(pv));
        assert(es.take(k + 1) =~= es.take(k as int).push(es[k as int]));
        k = k + 1;
    }
    assert(es.take(k as int) =~= es);
    let ls = lines(&str_chars(content));
    let ghost d = dv(ls@);
    let mut out: Vec<Vec<char>> = Vec::new();
    let mut i: usize = 0;
    assert(d.skip(0) =~= d);
    assert(dv(out@) =~= seq![]);
    while i < ls.len()
        invariant
            i <= ls.len(),
            d == dv(ls@),
            d.len() == ls.len(),
            d == lines_s(content@),
            dv(pats@) == es,
            dv(out@) + kept_lines_s(d.skip(i as int), es) == kept_lines_s(d, es),
        decreases ls.len() - i,
    {
        let ghost rest = d.skip(i as int);
        assert(rest[0] == ls@[i as int]@);
        assert(rest.skip(1) =~= d.skip(i + 1));
        let mut hit = false;
        let mut j: usize = 0;
        while j < pats.len()
            invariant
                j <= pats.len(),
                dv(pats@) == es,
                i < ls.len(),
                hit <==> exists|m: int| 0 <= m < j && contains_s(ls@[i as int]@, #[trigger] es[m]),
            decreases pats.len() - j,
        {
            assert(es[j as int] == pats@[j as int]@);
            if contains(&ls[i], &pats[j]) {
                hit = true;
            }
            j = j + 1;
        }
        let ghost o = dv(out@);
        if !hit {
            let l = copy_chars(&ls[i]);
            let ghost lv = l@;
            out.push(l);
            assert(dv(out@) =~= o.push(lv));
            assert(o + kept_lines_s(rest, es) =~= o.push(lv) + kept_lines_s(rest.skip(1), es));
        } else {
            assert(kept_lines_s(rest, es) =~= kept_lines_s(rest.skip(1), es));
        }
        i = i + 1;
    }
    assert(d.skip(i as int) =~= seq![]);
    assert(dv(out@) + seq![] =~= dv(out@));
    chars_to_string(&text_file(&out))
}

} // verus!
