//! `debian/copyright` text: the `vendor` exclusion and the
//! `Files-Excluded-vendor` section.
use vstd::prelude::*;

use crate::steps::control::{
    field_ends_at, lemma_section_insert_place, section_insert, section_insert_s,
};
use crate::text::{
    chars_eq, chars_to_string, copy_chars, dv, insert_line, lines, lines_s, push_all, push_line,
    starts_with, starts_with_s, str_chars, text_file, text_file_s, trim_s, trim_start_s,
    trim_start_v, trim_v,
};

verus! {

/// The bare `vendor` exclusion line: trimmed it is `vendor`, and it is not
/// commented out.
pub open spec fn is_vendor_exclusion_s(l: Seq<char>) -> bool {
    trim_s(l) == "vendor"@ && !starts_with_s(trim_start_s(l), seq!['#'])
}

pub open spec fn comment_vendor_line_s(l: Seq<char>) -> Seq<char> {
    if is_vendor_exclusion_s(l) {
        seq!['#'] + l
    } else {
        l
    }
}

/// The text of `debian/copyright` with the bare `vendor` line under
/// `Files-Excluded` commented out (`  vendor` becomes `#  vendor`), so that
/// `uscan` includes the full `vendor/` directory in the orig tarball.
pub fn comment_out_vendor_exclusion(content: &str) -> (r: String)
    ensures
        r@ == text_file_s(lines_s(content@).map_values(|l: Seq<char>| comment_vendor_line_s(l))),
{
    let ls = lines(&str_chars(content));
    let ghost d = dv(ls@);
    let ghost want = d.map_values(|l: Seq<char>| comment_vendor_line_s(l));
    let vendor = str_chars("vendor");
    let hash = str_chars("#");
    proof {
        reveal_strlit("#");
    }
    assert(hash@ =~= seq!['#']);
    let mut out: Vec<Vec<char>> = Vec::new();
    let mut i: usize = 0;
    while i < ls.len()
        invariant
            i <= ls.len(),
            d == dv(ls@),
            d.len() == ls.len(),
            want == d.map_values(|l: Seq<char>| comment_vendor_line_s(l)),
            vendor@ == "vendor"@,
            hash@ == seq!['#'],
            dv(out@) == want.take(i as int),
        decreases ls.len() - i,
    {
        assert(d[i as int] == ls@[i as int]@);
        let line = &ls[i];
        let bare = chars_eq(&trim_v(line), &vendor) && !starts_with(&trim_start_v(line), &hash);
        let new_line = if bare {
            let mut c = copy_chars(&hash);
            push_all(&mut c, line);
            c
        } else {
            copy_chars(line)
        };
        assert(new_line@ == want[i as int]);
        let ghost o = dv(out@);
        let ghost nv = new_line@;
        out.push(new_line);
        assert(dv(out@) =~= o.push(nv));
        assert(want.take(i + 1) =~= want.take(i as int).push(want[i as int]));
        i = i + 1;
    }
    assert(want.take(i as int) =~= want);
    chars_to_string(&text_file(&out))
}

/// The copyright file's lines with ` <pattern>` added at the end of the
/// `Files-Excluded-vendor` section, or with the section (after an empty
/// line) appended when there is none.
pub open spec fn add_vendor_exclusion_lines_s(ls: Seq<Seq<char>>, pattern: Seq<char>) -> Seq<
    Seq<char>,
> {
    match section_insert_s(ls, "Files-Excluded-vendor:"@) {
        Some(k) => ls.insert(k, " "@ + pattern),
        None => ls.push(seq![]).push("Files-Excluded-vendor:"@).push(" "@ + pattern),
    }
}

/// The text of `debian/copyright` with `pattern` added to its
/// `Files-Excluded-vendor` section.
pub fn add_vendor_exclusion(content: &str, pattern: &str) -> (r: String)
    ensures
        r@ == text_file_s(add_vendor_exclusion_lines_s(lines_s(content@), pattern@)),
{
    let ls = lines(&str_chars(content));
    let header = str_chars("Files-Excluded-vendor:");
    let mut entry = str_chars(" ");
    push_all(&mut entry, &str_chars(pattern));
    match section_insert(&ls, &header) {
        Some(k) => {
            let out = insert_line(&ls, k, entry);
            chars_to_string(&text_file(&out))
        },
        None => {
            let a = push_line(&ls, Vec::new());
            let b = push_line(&a, header);
            let c = push_line(&b, entry);
            chars_to_string(&text_file(&c))
        },
    }
}

/// Where the new exclusion goes: with a `Files-Excluded-vendor:` field
/// (first at line `h0`), the line ` <pattern>` is inserted right after the
/// field's last line (its header or last continuation line), every other
/// line keeping its order; without one, an empty line, the header and the
/// new line are appended.
pub proof fn lemma_vendor_exclusion_placement(ls: Seq<Seq<char>>, pattern: Seq<char>)
    ensures
        (forall|j: int| 0 <= j < ls.len() ==> !starts_with_s(#[trigger] ls[j], "Files-Excluded-vendor:"@))
            ==> add_vendor_exclusion_lines_s(ls, pattern) == ls.push(seq![]).push(
            "Files-Excluded-vendor:"@,
        ).push(" "@ + pattern),
        forall|h0: int|
            0 <= h0 < ls.len() && starts_with_s(#[trigger] ls[h0], "Files-Excluded-vendor:"@) && (
            forall|j: int| 0 <= j < h0 ==> !starts_with_s(#[trigger] ls[j], "Files-Excluded-vendor:"@))
                ==> exists|k: int|
                field_ends_at(ls, "Files-Excluded-vendor:"@, h0, k) && add_vendor_exclusion_lines_s(
                    ls,
                    pattern,
                ) == #[trigger] ls.insert(k, " "@ + pattern),
{
    let h = "Files-Excluded-vendor:"@;
    lemma_section_insert_place(ls, h);
    assert forall|h0: int|
        0 <= h0 < ls.len() && starts_with_s(#[trigger] ls[h0], h) && (forall|j: int|
            0 <= j < h0 ==> !starts_with_s(#[trigger] ls[j], h)) implies exists|k: int|
        field_ends_at(ls, h, h0, k) && add_vendor_exclusion_lines_s(ls, pattern)
            == #[trigger] ls.insert(k, " "@ + pattern) by {
        let k = section_insert_s(ls, h)->0;
        assert(field_ends_at(ls, h, h0, k));
        assert(add_vendor_exclusion_lines_s(ls, pattern) == ls.insert(k, " "@ + pattern));
    }
}

/// What commenting out the `vendor` exclusion does to a line: a line that
/// is exactly `vendor` (up to surrounding whitespace) and not commented
/// gains a leading `#`; every other line (a commented one, one that says
/// more than `vendor`) stays as it is; and doing it twice is doing it once.
pub proof fn lemma_comment_vendor_line(l: Seq<char>)
    ensures
        trim_s(l) == "vendor"@ && !starts_with_s(trim_start_s(l), seq!['#']) ==> comment_vendor_line_s(l)
            == seq!['#'] + l,
        trim_s(l) != "vendor"@ ==> comment_vendor_line_s(l) == l,
        starts_with_s(trim_start_s(l), seq!['#']) ==> comment_vendor_line_s(l) == l,
        comment_vendor_line_s(comment_vendor_line_s(l)) == comment_vendor_line_s(l),
{
    if is_vendor_exclusion_s(l) {
        let c = seq!['#'] + l;
        assert(c[0] == '#');
        assert(!crate::text::is_ws('#'));
        assert(trim_start_s(c) == c);
        assert(c.subrange(0, 1) =~= seq!['#']);
        assert(starts_with_s(trim_start_s(c), seq!['#']));
    }
}

} // verus!
