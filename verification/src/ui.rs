//! Terminal presentation that is worth computing apart from the terminal:
//! wrapping long lines with a hanging indent, the phase banner text, the
//! lines of an info box, and reading a yes/no answer.
use vstd::prelude::*;

use crate::text::{
    ascii_lowercase, chars_eq, chars_to_string, concat, dec_s, find, find_s, is_ws, leading_ws,
    lower_seq, owned, push_all, push_dec, rfind, rfind_s, starts_with_s, str_chars, string_views, subvec,
    trim_end_s, trim_end_v, trim_s, trim_start_s, trim_v, lacks, words_acc, words_s,
};

verus! {

// ── Wrapping ────────────────────────────────────────────────────────────────

/// The leading whitespace of a line, reused as the hanging indent.
pub open spec fn indent_s(line: Seq<char>) -> Seq<char> {
    line.take(line.len() - trim_start_s(line).len())
}

/// Where a too-long chunk `cur` is split, searching only after the first
/// `cs` characters (the indent): after the last space before character
/// `w`, else after the first space at all, else nowhere.
pub open spec fn split_point_s(cur: Seq<char>, cs: int, w: int) -> Option<int> {
    match rfind_s(cur.subrange(cs, w), seq![' ']) {
        Some(i) => Some(cs + i + 1),
        None => match find_s(cur.skip(cs), seq![' ']) {
            Some(i) => Some(cs + i + 1),
            None => None,
        },
    }
}

/// The chunks of `cur` at width `w`, continuation chunks starting with
/// `ind`: a chunk that fits is kept; otherwise the text before the split
/// point (without trailing whitespace) is a chunk and the rest, after the
/// indent, is wrapped again; a chunk without a split point is kept whole.
/// (The last branch, where the remainder would not be shorter, is never
/// taken for the inputs that [`wrap_ok_s`] admits.)
pub open spec fn wrap_from(cur: Seq<char>, ind: Seq<char>, w: int) -> Seq<Seq<char>>
    decreases cur.len(),
{
    if cur.len() <= w {
        seq![cur]
    } else {
        let cs = if ind.len() < w {
            ind.len() as int
        } else {
            w
        };
        match split_point_s(cur, cs, w) {
            None => seq![cur],
            Some(sp) => {
                let head = trim_end_s(cur.take(sp));
                let rest = cur.skip(sp);
                if rest.len() == 0 {
                    seq![head]
                } else if (ind + rest).len() < cur.len() {
                    seq![head] + wrap_from(ind + rest, ind, w)
                } else {
                    seq![head]
                }
            },
        }
    }
}

/// A line wrapped to at most `w` characters per chunk where it can be
/// split, with its leading whitespace as hanging indent.
pub open spec fn wrap_s(line: Seq<char>, w: int) -> Seq<Seq<char>> {
    wrap_from(line, indent_s(line), w)
}

/// Wrapping terminates: where the indent is longer than the width, it holds
/// no space at or after the width (a space there would be split on forever).
pub open spec fn wrap_ok_s(line: Seq<char>, w: int) -> bool {
    forall|i: int| w <= i < indent_s(line).len() ==> line[i] != ' '
}

/// Whether [`wrap_line`] may be called on `line` with `max_width`.
pub fn wrap_ok(line: &str, max_width: usize) -> (r: bool)
    ensures
        r == wrap_ok_s(line@, max_width as int),
{
    let l = str_chars(line);
    let n = leading_ws(&l);
    assert(indent_s(l@).len() == n);
    let mut i = max_width;
    while i < n
        invariant
            max_width <= i,
            n <= l.len(),
            indent_s(line@).len() == n,
            l@ == line@,
            forall|j: int| max_width <= j < i ==> line@[j] != ' ',
        decreases n - i,
    {
        if l[i] == ' ' {
            assert(line@[i as int] == ' ');
            return false;
        }
        i = i + 1;
    }
    true
}

fn split_point(cur: &Vec<char>, cs: usize, w: usize) -> (r: Option<usize>)
    requires
        cs <= w < cur.len(),
    ensures
        match r {
            Some(sp) => split_point_s(cur@, cs as int, w as int) == Some(sp as int) && cs < sp
                <= cur.len(),
            None => split_point_s(cur@, cs as int, w as int) is None,
        },
{
    let space = str_chars(" ");
    proof {
        reveal_strlit(" ");
    }
    assert(space@ =~= seq![' ']);
    let window = subvec(cur, cs, w);
    match rfind(&window, &space) {
        Some(i) => {
            proof {
                crate::text::lemma_rfind_upto_found(window@, seq![' '], window@.len() - 1);
            }
            Some(cs + i + 1)
        },
        None => {
            let n = cur.len();
            let tail = subvec(cur, cs, n);
            assert(tail@ =~= cur@.skip(cs as int));
            match find(&tail, &space) {
                Some(i) => {
                    proof {
                        crate::text::lemma_find_from_found(tail@, seq![' '], 0);
                    }
                    Some(cs + i + 1)
                },
                None => None,
            }
        },
    }
}

/// Wrap a single line to at most `max_width` characters per chunk.
///
/// Leading whitespace is reused as a hanging indent on every continuation
/// chunk.  Split points are only searched after the indent.  When no space
/// lies within `max_width` characters (e.g. a long URL) the chunk extends to
/// the next space; with no space at all the rest is emitted as it is.
pub fn wrap_line(line: &str, max_width: usize) -> (r: Vec<String>)
    requires
        wrap_ok_s(line@, max_width as int),
    ensures
        string_views(r@) == wrap_s(line@, max_width as int),
{
    let l = str_chars(line);
    let n = leading_ws(&l);
    let indent = subvec(&l, 0, n);
    assert(indent@ =~= indent_s(line@));
    let w = max_width;
    let ghost want = wrap_s(line@, w as int);
    let mut cur = subvec(&l, 0, l.len());
    assert(cur@ =~= line@);
    let mut out: Vec<String> = Vec::new();
    let mut done = false;
    assert(string_views(out@) + wrap_from(cur@, indent@, w as int) =~= want);
    while !done
        invariant
            n == indent@.len(),
            n <= l.len(),
            l@ == line@,
            indent@ == line@.take(n as int),
            forall|j: int| 0 <= j < n ==> is_ws(#[trigger] line@[j]),
            wrap_ok_s(line@, w as int),
            indent_s(line@) == indent@,
            want == wrap_s(line@, w as int),
            !done ==> cur@.len() >= n && cur@.take(n as int) == indent@,
            !done ==> string_views(out@) + wrap_from(cur@, indent@, w as int) == want,
            done ==> string_views(out@) == want,
        decreases (if done {
            0
        } else {
            cur@.len() + 1
        }),
    {
        let ghost o = string_views(out@);
        if cur.len() <= w {
            let s = chars_to_string(&cur);
            let ghost sv = s@;
            out.push(s);
            assert(string_views(out@) =~= o.push(sv));
            assert(o + seq![sv] =~= o.push(sv));
            done = true;
        } else {
            let cs = if n < w {
                n
            } else {
                w
            };
            match split_point(&cur, cs, w) {
                None => {
                    let s = chars_to_string(&cur);
                    let ghost sv = s@;
                    out.push(s);
                    assert(string_views(out@) =~= o.push(sv));
                    assert(o + seq![sv] =~= o.push(sv));
                    done = true;
                },
                Some(sp) => {
                    let head = trim_end_v(&subvec(&cur, 0, sp));
                    assert(cur@.subrange(0, sp as int) =~= cur@.take(sp as int));
                    let s = chars_to_string(&head);
                    let ghost sv = s@;
                    out.push(s);
                    assert(string_views(out@) =~= o.push(sv));
                    let m = cur.len();
                    let rest = subvec(&cur, sp, m);
                    assert(rest@ =~= cur@.skip(sp as int));
                    if rest.len() == 0 {
                        assert(o + seq![sv] =~= o.push(sv));
                        done = true;
                    } else {
                        proof {
                            lemma_split_after_indent(cur@, indent@, line@, w as int, sp as int);
                        }
                        let next = concat(&indent, &rest);
                        assert(next@.take(n as int) =~= indent@);
                        assert(o + (seq![sv] + wrap_from(next@, indent@, w as int)) =~= o.push(sv)
                            + wrap_from(next@, indent@, w as int));
                        cur = next;
                    }
                },
            }
        }
    }
    out
}

/// A split point lies beyond the indent, so the next chunk is shorter.
proof fn lemma_split_after_indent(cur: Seq<char>, ind: Seq<char>, line: Seq<char>, w: int, sp: int)
    requires
        0 <= w < cur.len(),
        ind.len() <= cur.len(),
        cur.take(ind.len() as int) == ind,
        ind == line.take(ind.len() as int),
        ind.len() <= line.len(),
        forall|i: int| w <= i < ind.len() ==> line[i] != ' ',
        split_point_s(cur, if ind.len() < w {
            ind.len() as int
        } else {
            w
        }, w) == Some(sp),
    ensures
        sp > ind.len(),
{
    let n = ind.len() as int;
    let cs = if n < w {
        n
    } else {
        w
    };
    let win = cur.subrange(cs, w);
    match rfind_s(win, seq![' ']) {
        Some(i) => {
            crate::text::lemma_rfind_upto_found(win, seq![' '], win.len() - 1);
            assert(cs < w);
        },
        None => {
            let t = cur.skip(cs);
            crate::text::lemma_find_from_found(t, seq![' '], 0);
            let i = find_s(t, seq![' '])->0;
            crate::text::lemma_is_at_char(t, ' ', i);
            if cs + i < n {
                assert(cs == w);
                assert(cur[cs + i] == ind[cs + i]);
                assert(ind[cs + i] == line[cs + i]);
            }
        },
    }
}

/// Removing trailing whitespace from a text that starts with `n`
/// whitespace characters leaves it empty or keeps at least those `n`.
proof fn lemma_trim_end_ws_prefix(x: Seq<char>, n: int)
    requires
        0 <= n,
        forall|i: int| 0 <= i < n && i < x.len() ==> is_ws(#[trigger] x[i]),
    ensures
        trim_end_s(x).len() <= x.len(),
        trim_end_s(x) == x.take(trim_end_s(x).len() as int),
        trim_end_s(x).len() == 0 || trim_end_s(x).len() >= n,
    decreases x.len(),
{
    if x.len() > 0 && is_ws(x.last()) {
        lemma_trim_end_ws_prefix(x.drop_last(), n);
        let t = trim_end_s(x.drop_last());
        assert(x.drop_last().take(t.len() as int) =~= x.take(t.len() as int));
    } else {
        assert(x.take(x.len() as int) =~= x);
        if x.len() > 0 && x.len() < n {
            assert(is_ws(x[x.len() - 1]));
        }
    }
}

/// The leading whitespace of a line is whitespace.
proof fn lemma_trim_start_ws(s: Seq<char>)
    ensures
        trim_start_s(s).len() <= s.len(),
        trim_start_s(s) == s.skip(s.len() - trim_start_s(s).len()),
        forall|i: int| 0 <= i < s.len() - trim_start_s(s).len() ==> is_ws(#[trigger] s[i]),
    decreases s.len(),
{
    if s.len() > 0 && is_ws(s[0]) {
        lemma_trim_start_ws(s.skip(1));
        let k = s.skip(1).len() - trim_start_s(s.skip(1)).len();
        assert(s.skip(1).skip(k) =~= s.skip(k + 1));
        assert forall|i: int| 0 <= i < k + 1 implies is_ws(#[trigger] s[i]) by {
            if i > 0 {
                assert(s[i] == s.skip(1)[i - 1]);
            }
        }
    } else {
        assert(s.skip(0) =~= s);
    }
}

/// A split point lies after the indent part searched from and within the
/// chunk.
proof fn lemma_split_point_bounds(cur: Seq<char>, cs: int, w: int)
    requires
        0 <= cs <= w < cur.len(),
        split_point_s(cur, cs, w) is Some,
    ensures
        cs < split_point_s(cur, cs, w)->0 <= cur.len(),
{
    let win = cur.subrange(cs, w);
    match rfind_s(win, seq![' ']) {
        Some(i) => {
            crate::text::lemma_rfind_upto_found(win, seq![' '], win.len() - 1);
        },
        None => {
            let t = cur.skip(cs);
            crate::text::lemma_find_from_found(t, seq![' '], 0);
        },
    }
}

proof fn lemma_wrap_from_keeps_indent(cur: Seq<char>, ind: Seq<char>, w: int)
    requires
        0 <= w,
        ind.len() <= cur.len(),
        cur.take(ind.len() as int) == ind,
        forall|i: int| 0 <= i < ind.len() ==> is_ws(#[trigger] ind[i]),
    ensures
        forall|i: int|
            0 <= i < wrap_from(cur, ind, w).len() ==> starts_with_s(
                #[trigger] wrap_from(cur, ind, w)[i],
                ind,
            ) || wrap_from(cur, ind, w)[i].len() == 0,
    decreases cur.len(),
{
    let n = ind.len() as int;
    assert(crate::text::is_at(cur, ind, 0) <==> cur.subrange(0, n) == ind);
    assert(cur.subrange(0, n) =~= cur.take(n));
    if cur.len() <= w {
    } else {
        let cs = if ind.len() < w {
            ind.len() as int
        } else {
            w
        };
        match split_point_s(cur, cs, w) {
            None => {},
            Some(sp) => {
                lemma_split_point_bounds(cur, cs, w);
                let x = cur.take(sp);
                let head = trim_end_s(x);
                let rest = cur.skip(sp);
                assert forall|i: int| 0 <= i < n && i < x.len() implies is_ws(#[trigger] x[i]) by {
                    assert(x[i] == cur.take(n)[i]);
                }
                lemma_trim_end_ws_prefix(x, n);
                if head.len() > 0 {
                    assert(head.len() >= n);
                    assert(head.subrange(0, n) =~= ind) by {
                        assert forall|i: int| 0 <= i < n implies head.subrange(0, n)[i] == ind[i] by {
                            assert(head[i] == x[i]);
                            assert(x[i] == cur[i]);
                            assert(cur.take(n)[i] == cur[i]);
                        }
                    }
                }
                if rest.len() > 0 && (ind + rest).len() < cur.len() {
                    let next = ind + rest;
                    assert(next.take(n) =~= ind);
                    lemma_wrap_from_keeps_indent(next, ind, w);
                    let ws = wrap_from(cur, ind, w);
                    assert(ws == seq![head] + wrap_from(next, ind, w));
                    assert forall|i: int| 0 <= i < ws.len() implies starts_with_s(
                        #[trigger] ws[i],
                        ind,
                    ) || ws[i].len() == 0 by {
                        if i > 0 {
                            assert(ws[i] == wrap_from(next, ind, w)[i - 1]);
                        }
                    }
                }
            },
        }
    }
}

/// Every chunk of a wrapped line starts with the line's leading whitespace,
/// unless the chunk came out empty: the indent hangs on every continuation.
pub proof fn lemma_wrap_keeps_indent(line: Seq<char>, w: int)
    requires
        0 <= w,
    ensures
        forall|i: int|
            0 <= i < wrap_s(line, w).len() ==> starts_with_s(
                #[trigger] wrap_s(line, w)[i],
                indent_s(line),
            ) || wrap_s(line, w)[i].len() == 0,
{
    lemma_trim_start_ws(line);
    let ind = indent_s(line);
    assert forall|i: int| 0 <= i < ind.len() implies is_ws(#[trigger] ind[i]) by {
        assert(ind[i] == line[i]);
    }
    assert(line.take(ind.len() as int) =~= ind);
    lemma_wrap_from_keeps_indent(line, ind, w);
}

// ── What wrapping keeps ─────────────────────────────────────────────────────

/// The whitespace-separated words of the chunks, chunk after chunk.
pub open spec fn chunk_words(chunks: Seq<Seq<char>>) -> Seq<Seq<char>>
    decreases chunks.len(),
{
    if chunks.len() == 0 {
        seq![]
    } else {
        words_s(chunks[0]) + chunk_words(chunks.skip(1))
    }
}

/// A chunk fits the width, or holds no space after its leading whitespace
/// (a single word too long to break).
pub open spec fn chunk_fits(c: Seq<char>, w: int) -> bool {
    c.len() <= w || lacks(trim_start_s(c), ' ')
}

proof fn lemma_words_all_ws(y: Seq<char>)
    requires
        forall|i: int| 0 <= i < y.len() ==> is_ws(#[trigger] y[i]),
    ensures
        words_acc(y, seq![]) == Seq::<Seq<char>>::empty(),
    decreases y.len(),
{
    if y.len() > 0 {
        assert forall|i: int| 0 <= i < y.skip(1).len() implies is_ws(#[trigger] y.skip(1)[i]) by {
            assert(y.skip(1)[i] == y[i + 1]);
        }
        lemma_words_all_ws(y.skip(1));
        assert(is_ws(y[0]));
        assert(Seq::<Seq<char>>::empty() + Seq::<Seq<char>>::empty() =~= Seq::<Seq<char>>::empty());
    }
}

proof fn lemma_words_ws_prefix(ind: Seq<char>, r: Seq<char>)
    requires
        forall|i: int| 0 <= i < ind.len() ==> is_ws(#[trigger] ind[i]),
    ensures
        words_s(ind + r) == words_s(r),
    decreases ind.len(),
{
    if ind.len() > 0 {
        let t = ind + r;
        assert(t[0] == ind[0]);
        assert(is_ws(ind[0]));
        assert(t.skip(1) =~= ind.skip(1) + r);
        assert forall|i: int| 0 <= i < ind.skip(1).len() implies is_ws(#[trigger] ind.skip(1)[i]) by {
            assert(ind.skip(1)[i] == ind[i + 1]);
        }
        lemma_words_ws_prefix(ind.skip(1), r);
        assert(Seq::<Seq<char>>::empty() + words_s(r) =~= words_s(r));
    } else {
        assert(ind + r =~= r);
    }
}

proof fn lemma_words_ws_suffix(x: Seq<char>, y: Seq<char>, cur: Seq<char>)
    requires
        forall|i: int| 0 <= i < y.len() ==> is_ws(#[trigger] y[i]),
    ensures
        words_acc(x + y, cur) == words_acc(x, cur),
    decreases x.len(),
{
    if x.len() == 0 {
        assert(x + y =~= y);
        if y.len() > 0 {
            assert forall|i: int| 0 <= i < y.skip(1).len() implies is_ws(#[trigger] y.skip(1)[i]) by {
                assert(y.skip(1)[i] == y[i + 1]);
            }
            lemma_words_all_ws(y.skip(1));
            assert(is_ws(y[0]));
            let c: Seq<Seq<char>> = if cur.len() == 0 {
                seq![]
            } else {
                seq![cur]
            };
            assert(c + Seq::<Seq<char>>::empty() =~= c);
        }
    } else {
        let t = x + y;
        assert(t[0] == x[0]);
        assert(t.skip(1) =~= x.skip(1) + y);
        if is_ws(x[0]) {
            lemma_words_ws_suffix(x.skip(1), y, seq![]);
        } else {
            lemma_words_ws_suffix(x.skip(1), y, cur.push(x[0]));
        }
    }
}

proof fn lemma_words_after_ws(x: Seq<char>, y: Seq<char>, cur: Seq<char>)
    requires
        x.len() > 0,
        is_ws(x.last()),
    ensures
        words_acc(x + y, cur) == words_acc(x, cur) + words_s(y),
    decreases x.len(),
{
    let t = x + y;
    assert(t[0] == x[0]);
    assert(t.skip(1) =~= x.skip(1) + y);
    let c: Seq<Seq<char>> = if cur.len() == 0 {
        seq![]
    } else {
        seq![cur]
    };
    if x.len() == 1 {
        assert(x.skip(1) =~= Seq::<char>::empty());
        assert(x.skip(1) + y =~= y);
        assert(x[0] == x.last());
        assert(words_acc(x.skip(1), seq![]) == Seq::<Seq<char>>::empty());
        assert(c + Seq::<Seq<char>>::empty() =~= c);
    } else {
        assert(x.skip(1).last() == x.last());
        if is_ws(x[0]) {
            lemma_words_after_ws(x.skip(1), y, seq![]);
            assert(c + (words_acc(x.skip(1), seq![]) + words_s(y)) =~= (c + words_acc(
                x.skip(1),
                seq![],
            )) + words_s(y));
        } else {
            lemma_words_after_ws(x.skip(1), y, cur.push(x[0]));
        }
    }
}

proof fn lemma_trim_end_ws_tail(x: Seq<char>)
    ensures
        trim_end_s(x).len() <= x.len(),
        x == trim_end_s(x) + x.skip(trim_end_s(x).len() as int),
        forall|i: int|
            trim_end_s(x).len() <= i < x.len() ==> is_ws(#[trigger] x[i]),
    decreases x.len(),
{
    if x.len() > 0 && is_ws(x.last()) {
        lemma_trim_end_ws_tail(x.drop_last());
        let t = trim_end_s(x.drop_last());
        assert forall|i: int| t.len() <= i < x.len() implies is_ws(#[trigger] x[i]) by {
            if i < x.len() - 1 {
                assert(x[i] == x.drop_last()[i]);
            }
        }
        assert(x =~= t + x.skip(t.len() as int)) by {
            assert(x.drop_last() =~= t + x.drop_last().skip(t.len() as int));
            assert forall|i: int| 0 <= i < x.len() implies x[i] == (t + x.skip(t.len() as int))[i] by {
                if i < t.len() {
                    assert(x[i] == x.drop_last()[i]);
                    assert(x.drop_last()[i] == (t + x.drop_last().skip(t.len() as int))[i]);
                }
            }
        }
    } else {
        assert(x.skip(x.len() as int) =~= Seq::<char>::empty());
        assert(x =~= x + Seq::<char>::empty());
    }
}

proof fn lemma_words_trim_end(x: Seq<char>)
    ensures
        words_s(trim_end_s(x)) == words_s(x),
{
    lemma_trim_end_ws_tail(x);
    let t = trim_end_s(x);
    let tail = x.skip(t.len() as int);
    assert forall|i: int| 0 <= i < tail.len() implies is_ws(#[trigger] tail[i]) by {
        assert(tail[i] == x[t.len() + i]);
    }
    lemma_words_ws_suffix(t, tail, seq![]);
}

/// The split point follows a space.
proof fn lemma_split_point_space(cur: Seq<char>, cs: int, w: int)
    requires
        0 <= cs <= w < cur.len(),
        split_point_s(cur, cs, w) is Some,
    ensures
        cur[split_point_s(cur, cs, w)->0 - 1] == ' ',
{
    let win = cur.subrange(cs, w);
    match rfind_s(win, seq![' ']) {
        Some(i) => {
            crate::text::lemma_rfind_upto_found(win, seq![' '], win.len() - 1);
            crate::text::lemma_is_at_char(win, ' ', i);
            assert(win[i] == cur[cs + i]);
        },
        None => {
            let t = cur.skip(cs);
            crate::text::lemma_find_from_found(t, seq![' '], 0);
            let i = find_s(t, seq![' '])->0;
            crate::text::lemma_is_at_char(t, ' ', i);
            assert(t[i] == cur[cs + i]);
        },
    }
}

proof fn lemma_chunk_words_one(c: Seq<char>)
    ensures
        chunk_words(seq![c]) == words_s(c),
{
    assert(seq![c].skip(1) =~= Seq::<Seq<char>>::empty());
    assert(chunk_words(Seq::<Seq<char>>::empty()) == Seq::<Seq<char>>::empty());
    assert(words_s(c) + Seq::<Seq<char>>::empty() =~= words_s(c));
}

proof fn lemma_wrap_from_words(cur: Seq<char>, ind: Seq<char>, w: int)
    requires
        0 <= w,
        ind.len() <= cur.len(),
        cur.take(ind.len() as int) == ind,
        forall|i: int| 0 <= i < ind.len() ==> is_ws(#[trigger] ind[i]),
        forall|i: int| w <= i < ind.len() ==> ind[i] != ' ',
    ensures
        wrap_from(cur, ind, w).len() > 0,
        chunk_words(wrap_from(cur, ind, w)) == words_s(cur),
    decreases cur.len(),
{
    let n = ind.len() as int;
    if cur.len() <= w {
        lemma_chunk_words_one(cur);
    } else {
        let cs = if ind.len() < w {
            ind.len() as int
        } else {
            w
        };
        match split_point_s(cur, cs, w) {
            None => {
                lemma_chunk_words_one(cur);
            },
            Some(sp) => {
                lemma_split_point_bounds(cur, cs, w);
                lemma_split_point_space(cur, cs, w);
                let x = cur.take(sp);
                let head = trim_end_s(x);
                let rest = cur.skip(sp);
                assert(cur =~= x + rest);
                assert(x.last() == cur[sp - 1]);
                lemma_words_after_ws(x, rest, seq![]);
                lemma_words_trim_end(x);
                if rest.len() == 0 {
                    assert(words_s(rest) == Seq::<Seq<char>>::empty());
                    lemma_chunk_words_one(head);
                } else {
                    assert(ind.take(n) =~= ind);
                    lemma_split_after_indent(cur, ind, ind, w, sp);
                    let next = ind + rest;
                    assert(next.take(n) =~= ind);
                    lemma_wrap_from_words(next, ind, w);
                    lemma_words_ws_prefix(ind, rest);
                    let ws = wrap_from(cur, ind, w);
                    assert(ws == seq![head] + wrap_from(next, ind, w));
                    assert(ws[0] == head);
                    assert(ws.skip(1) =~= wrap_from(next, ind, w));
                    assert(chunk_words(ws) == words_s(head) + chunk_words(wrap_from(next, ind, w)));
                    assert(words_s(cur) == words_s(x) + words_s(rest));
                    assert(words_s(head) + words_s(next) == words_s(cur));
                }
            },
        }
    }
}

proof fn lemma_trim_start_first(s: Seq<char>)
    ensures
        trim_start_s(s).len() > 0 ==> !is_ws(trim_start_s(s)[0]),
    decreases s.len(),
{
    if s.len() > 0 && is_ws(s[0]) {
        lemma_trim_start_first(s.skip(1));
    }
}

/// A text whose first `cs` characters are whitespace and which holds no
/// space after them holds no space once its leading whitespace is removed.
proof fn lemma_no_space_after_trim(c: Seq<char>, cs: int)
    requires
        0 <= cs,
        forall|i: int| 0 <= i < cs && i < c.len() ==> is_ws(#[trigger] c[i]),
        forall|i: int| cs <= i < c.len() ==> c[i] != ' ',
    ensures
        lacks(trim_start_s(c), ' '),
{
    lemma_trim_start_ws(c);
    lemma_trim_start_first(c);
    let t = trim_start_s(c);
    let k = c.len() - t.len();
    if t.len() > 0 {
        assert(t[0] == c[k]);
        assert(k >= cs);
    }
    assert forall|j: int| 0 <= j < t.len() implies t[j] != ' ' by {
        assert(t[j] == c[k + j]);
    }
}

proof fn lemma_wrap_from_fits(cur: Seq<char>, ind: Seq<char>, w: int)
    requires
        0 <= w,
        ind.len() <= cur.len(),
        cur.take(ind.len() as int) == ind,
        forall|i: int| 0 <= i < ind.len() ==> is_ws(#[trigger] ind[i]),
        forall|i: int| w <= i < ind.len() ==> ind[i] != ' ',
    ensures
        forall|i: int|
            0 <= i < wrap_from(cur, ind, w).len() ==> chunk_fits(#[trigger] wrap_from(cur, ind, w)[i], w),
    decreases cur.len(),
{
    let n = ind.len() as int;
    if cur.len() <= w {
    } else {
        let cs = if ind.len() < w {
            ind.len() as int
        } else {
            w
        };
        assert forall|i: int| 0 <= i < cs && i < cur.len() implies is_ws(#[trigger] cur[i]) by {
            assert(cur[i] == cur.take(n)[i]);
        }
        let win = cur.subrange(cs, w);
        let t = cur.skip(cs);
        match split_point_s(cur, cs, w) {
            None => {
                crate::text::lemma_find_from_none(t, seq![' '], 0);
                assert forall|i: int| cs <= i < cur.len() implies cur[i] != ' ' by {
                    crate::text::lemma_is_at_char(t, ' ', i - cs);
                    assert(t[i - cs] == cur[i]);
                }
                lemma_no_space_after_trim(cur, cs);
            },
            Some(sp) => {
                lemma_split_point_bounds(cur, cs, w);
                lemma_split_point_space(cur, cs, w);
                let x = cur.take(sp);
                let head = trim_end_s(x);
                let rest = cur.skip(sp);
                assert(x.last() == ' ');
                assert(head == trim_end_s(x.drop_last()));
                lemma_trim_end_ws_prefix(x.drop_last(), 0);
                assert(head.len() <= sp - 1);
                match rfind_s(win, seq![' ']) {
                    Some(i) => {
                        crate::text::lemma_rfind_upto_found(win, seq![' '], win.len() - 1);
                        assert(chunk_fits(head, w));
                    },
                    None => {
                        crate::text::lemma_find_from_found(t, seq![' '], 0);
                        let i = find_s(t, seq![' '])->0;
                        assert(sp == cs + i + 1);
                        assert forall|j: int| 0 <= j < cs && j < head.len() implies is_ws(#[trigger] head[j]) by {
                            assert(head[j] == x.drop_last()[j]);
                            assert(x.drop_last()[j] == cur[j]);
                        }
                        assert forall|j: int| cs <= j < head.len() implies head[j] != ' ' by {
                            assert(head[j] == x.drop_last()[j]);
                            assert(x.drop_last()[j] == cur[j]);
                            crate::text::lemma_is_at_char(t, ' ', j - cs);
                            assert(t[j - cs] == cur[j]);
                        }
                        lemma_no_space_after_trim(head, cs);
                    },
                }
                assert(chunk_fits(head, w));
                if rest.len() > 0 {
                    assert(ind.take(n) =~= ind);
                    lemma_split_after_indent(cur, ind, ind, w, sp);
                    let next = ind + rest;
                    assert(next.take(n) =~= ind);
                    lemma_wrap_from_fits(next, ind, w);
                    let ws = wrap_from(cur, ind, w);
                    assert(ws == seq![head] + wrap_from(next, ind, w));
                    assert forall|k: int| 0 <= k < ws.len() implies chunk_fits(#[trigger] ws[k], w) by {
                        if k > 0 {
                            assert(ws[k] == wrap_from(next, ind, w)[k - 1]);
                        }
                    }
                }
            },
        }
    }
}

/// What wrapping keeps of a line (where [`wrap_line`] may be called on it):
/// there is at least one chunk; the words of the chunks, in order, are the
/// words of the line; each chunk fits the width or is a single word that
/// cannot be broken (no space after its leading whitespace); and a line
/// that fits comes back whole.
pub proof fn lemma_wrap_keeps_words(line: Seq<char>, w: int)
    requires
        0 <= w,
        wrap_ok_s(line, w),
    ensures
        wrap_s(line, w).len() > 0,
        chunk_words(wrap_s(line, w)) == words_s(line),
        forall|i: int| 0 <= i < wrap_s(line, w).len() ==> chunk_fits(#[trigger] wrap_s(line, w)[i], w),
        line.len() <= w ==> wrap_s(line, w) == seq![line],
{
    lemma_trim_start_ws(line);
    let ind = indent_s(line);
    assert forall|i: int| 0 <= i < ind.len() implies is_ws(#[trigger] ind[i]) by {
        assert(ind[i] == line[i]);
    }
    assert forall|i: int| w <= i < ind.len() implies ind[i] != ' ' by {
        assert(ind[i] == line[i]);
    }
    assert(line.take(ind.len() as int) =~= ind);
    lemma_wrap_from_words(line, ind, w);
    lemma_wrap_from_fits(line, ind, w);
}

// ── Banners, boxes and answers ──────────────────────────────────────────────

/// The text of a phase banner: `  THERMITE — Phase <n>: <title>`.
pub fn phase_label(phase: u32, title: &str) -> (r: String)
    ensures
        r@ == "  THERMITE \u{2014} Phase "@ + dec_s(phase as nat) + ": "@ + title@,
{
    let mut v = str_chars("  THERMITE \u{2014} Phase ");
    push_dec(&mut v, phase as u64);
    push_all(&mut v, &str_chars(": "));
    push_all(&mut v, &str_chars(title));
    chars_to_string(&v)
}

/// The body lines of an info box: an empty line stays empty, any other is
/// wrapped to 62 characters and each chunk indented by four spaces.
pub open spec fn info_box_body_s(lines: Seq<Seq<char>>) -> Seq<Seq<char>>
    decreases lines.len(),
{
    if lines.len() == 0 {
        seq![]
    } else {
        (if lines[0].len() == 0 {
            seq![seq![]]
        } else {
            wrap_s(lines[0], 62).map_values(|c: Seq<char>| "    "@ + c)
        }) + info_box_body_s(lines.skip(1))
    }
}

/// The body of an info box (see [`info_box_body_s`]).
pub fn info_box_body(lines: &Vec<String>) -> (r: Vec<String>)
    requires
        forall|i: int| 0 <= i < lines.len() ==> wrap_ok_s(#[trigger] lines@[i]@, 62),
    ensures
        string_views(r@) == info_box_body_s(string_views(lines@)),
{
    let ghost ls = string_views(lines@);
    let mut out: Vec<String> = Vec::new();
    let mut i: usize = 0;
    assert(ls.skip(0) =~= ls);
    assert(string_views(out@) =~= seq![]);
    while i < lines.len()
        invariant
            i <= lines.len(),
            ls == string_views(lines@),
            ls.len() == lines.len(),
            forall|k: int| 0 <= k < lines.len() ==> wrap_ok_s(#[trigger] lines@[k]@, 62),
            string_views(out@) + info_box_body_s(ls.skip(i as int)) == info_box_body_s(ls),
        decreases lines.len() - i,
    {
        let ghost rest = ls.skip(i as int);
        assert(rest[0] == lines@[i as int]@);
        assert(rest.skip(1) =~= ls.skip(i + 1));
        let ghost o = string_views(out@);
        let line = lines[i].as_str();
        if str_chars(line).len() == 0 {
            out.push(String::new());
            assert(string_views(out@) =~= o + seq![seq![]]);
            assert(o + info_box_body_s(rest) =~= o + seq![seq![]] + info_box_body_s(rest.skip(1)));
        } else {
            let chunks = wrap_line(line, 62);
            let ghost cv = string_views(chunks@).map_values(|c: Seq<char>| "    "@ + c);
            let mut k: usize = 0;
            while k < chunks.len()
                invariant
                    k <= chunks.len(),
                    cv == string_views(chunks@).map_values(|c: Seq<char>| "    "@ + c),
                    string_views(out@) == o + cv.take(k as int),
                decreases chunks.len() - k,
            {
                let mut c = str_chars("    ");
                push_all(&mut c, &str_chars(chunks[k].as_str()));
                let s = chars_to_string(&c);
                let ghost sv = s@;
                let ghost o2 = string_views(out@);
                out.push(s);
                assert(string_views(out@) =~= o2.push(sv));
                assert(cv.take(k + 1) =~= cv.take(k as int).push(cv[k as int]));
                k = k + 1;
            }
            assert(cv.take(k as int) =~= cv);
            assert(o + info_box_body_s(rest) =~= o + cv + info_box_body_s(rest.skip(1)));
        }
        i = i + 1;
    }
    assert(ls.skip(i as int) =~= seq![]);
    assert(string_views(out@) + seq![] =~= string_views(out@));
    out
}

/// An answer that means yes: trimmed and in ASCII lower case, `y` or `yes`.
pub open spec fn is_yes_s(answer: Seq<char>) -> bool {
    lower_seq(trim_s(answer)) == "y"@ || lower_seq(trim_s(answer)) == "yes"@
}

/// Whether a typed answer to a `[y/N]` question means yes; anything else,
/// Enter alone included, means no.
pub fn is_yes_answer(answer: &str) -> (r: bool)
    ensures
        r == is_yes_s(answer@),
{
    let a = ascii_lowercase(&trim_v(&str_chars(answer)));
    chars_eq(&a, &str_chars("y")) || chars_eq(&a, &str_chars("yes"))
}

/// Whether an irreversible operation (a push, a PPA creation, an upload)
/// goes ahead: never in a dry run, where no question is asked; otherwise
/// only on a yes answer.
pub open spec fn sink_proceeds_s(dry_run: bool, answer: Seq<char>) -> bool {
    !dry_run && is_yes_s(answer)
}

/// Decide an irreversible operation from the dry-run flag and the answer
/// typed at its `[y/N]` question (ignored in a dry run).
pub fn sink_proceeds(dry_run: bool, answer: &str) -> (r: bool)
    ensures
        r == sink_proceeds_s(dry_run, answer@),
{
    !dry_run && is_yes_answer(answer)
}

/// A dry run performs no irreversible operation, whatever is answered.
pub proof fn lemma_dry_run_never_sinks(answer: Seq<char>)
    ensures
        !sink_proceeds_s(true, answer),
{
}

/// The non-blank target lines that a dry run lists under its `SKIP` notice.
pub open spec fn dry_run_details_s(lines: Seq<Seq<char>>) -> Seq<Seq<char>>
    decreases lines.len(),
{
    if lines.len() == 0 {
        seq![]
    } else {
        (if trim_s(lines[0]).len() == 0 {
            seq![]
        } else {
            seq![lines[0]]
        }) + dry_run_details_s(lines.skip(1))
    }
}

/// The lines a dry run prints instead of asking before an irreversible
/// operation: the `[dry-run] SKIP: <description>` notice, then each
/// non-blank target line indented.
pub fn dry_run_report(description: &str, target_lines: &Vec<String>) -> (r: Vec<String>)
    ensures
        string_views(r@) == seq!["  [dry-run] SKIP: "@ + description@] + dry_run_details_s(
            string_views(target_lines@),
        ).map_values(|l: Seq<char>| "            "@ + l),
{
    let ghost ls = string_views(target_lines@);
    let mut head = str_chars("  [dry-run] SKIP: ");
    push_all(&mut head, &str_chars(description));
    let mut out: Vec<String> = Vec::new();
    out.push(chars_to_string(&head));
    let ghost h = seq!["  [dry-run] SKIP: "@ + description@];
    let ghost mut done: Seq<Seq<char>> = seq![];
    assert(string_views(out@) =~= h + done.map_values(|l: Seq<char>| "            "@ + l));
    let mut i: usize = 0;
    assert(ls.skip(0) =~= ls);
    assert(done + dry_run_details_s(ls) =~= dry_run_details_s(ls));
    while i < target_lines.len()
        invariant
            i <= target_lines.len(),
            ls == string_views(target_lines@),
            ls.len() == target_lines.len(),
            string_views(out@) == h + done.map_values(|l: Seq<char>| "            "@ + l),
            done + dry_run_details_s(ls.skip(i as int)) == dry_run_details_s(ls),
        decreases target_lines.len() - i,
    {
        let ghost rest = ls.skip(i as int);
        assert(rest[0] == target_lines@[i as int]@);
        assert(rest.skip(1) =~= ls.skip(i + 1));
        let t = str_chars(target_lines[i].as_str());
        if trim_v(&t).len() > 0 {
            let mut c = str_chars("            ");
            push_all(&mut c, &t);
            let s = chars_to_string(&c);
            let ghost sv = s@;
            let ghost o = string_views(out@);
            out.push(s);
            let ghost nd = done.push(t@);
            assert(string_views(out@) =~= o.push(sv));
            assert(nd.map_values(|l: Seq<char>| "            "@ + l) =~= done.map_values(
                |l: Seq<char>| "            "@ + l,
            ).push("            "@ + t@));
            assert(nd + dry_run_details_s(ls.skip(i + 1)) =~= done + dry_run_details_s(rest));
            proof {
                done = nd;
            }
        } else {
            assert(done + dry_run_details_s(ls.skip(i + 1)) =~= done + dry_run_details_s(rest));
        }
        i = i + 1;
    }
    assert(ls.skip(i as int) =~= seq![]);
    assert(done + seq![] =~= done);
    out
}

/// The title and lines of the warning box shown before an irreversible
/// operation: the target lines, an empty line, and the note that the
/// operation cannot be reversed automatically.
pub fn sink_warning(description: &str, target_lines: &Vec<String>) -> (r: (String, Vec<String>))
    ensures
        r.0@ == "WARNING \u{2014} "@ + description@,
        string_views(r.1@) == string_views(target_lines@) + seq![
            seq![],
            "This operation cannot be automatically reversed."@,
        ],
{
    let mut title = str_chars("WARNING \u{2014} ");
    push_all(&mut title, &str_chars(description));
    let mut out: Vec<String> = Vec::new();
    let mut i: usize = 0;
    while i < target_lines.len()
        invariant
            i <= target_lines.len(),
            string_views(out@) == string_views(target_lines@).take(i as int),
        decreases target_lines.len() - i,
    {
        let ghost o = string_views(out@);
        let s = owned(target_lines[i].as_str());
        let ghost sv = s@;
        out.push(s);
        assert(string_views(out@) =~= o.push(sv));
        assert(string_views(target_lines@).take(i + 1) =~= string_views(target_lines@).take(
            i as int,
        ).push(string_views(target_lines@)[i as int]));
        i = i + 1;
    }
    assert(string_views(target_lines@).take(i as int) =~= string_views(target_lines@));
    let ghost o = string_views(out@);
    out.push(String::new());
    out.push(owned("This operation cannot be automatically reversed."));
    assert(string_views(out@) =~= o + seq![
        seq![],
        "This operation cannot be automatically reversed."@,
    ]);
    (chars_to_string(&title), out)
}

} // verus!
