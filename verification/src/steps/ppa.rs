//! PPA uploads: version suffixes, references and what `ppa` prints.
use vstd::prelude::*;

use crate::text::{
    string_views,
    chars_to_string, contains, contains_s, dv, lines, lines_s, push_all, push_dec, dec_s,
    starts_with, starts_with_s, str_chars, trim_s, trim_v,
};

verus! {

/// The first line at or after `i` that mentions `launchpad.net`.
pub open spec fn first_launchpad_line(ls: Seq<Seq<char>>, i: int) -> Option<int>
    decreases ls.len() - i,
{
    if i < 0 || i >= ls.len() {
        None
    } else if contains_s(ls[i], "launchpad.net"@) {
        Some(i)
    } else {
        first_launchpad_line(ls, i + 1)
    }
}

/// The URL that `ppa create` prints: its first line mentioning
/// `launchpad.net`, trimmed (empty when there is none).
pub open spec fn created_ppa_url_s(stdout: Seq<char>) -> Seq<char> {
    match first_launchpad_line(lines_s(stdout), 0) {
        Some(i) => trim_s(lines_s(stdout)[i]),
        None => seq![],
    }
}

/// The URL of a newly created PPA, read from the output of `ppa create`.
pub fn created_ppa_url(stdout: &str) -> (r: String)
    ensures
        r@ == created_ppa_url_s(stdout@),
{
    let ls = lines(&str_chars(stdout));
    let ghost d = dv(ls@);
    let key = str_chars("launchpad.net");
    let mut i: usize = 0;
    while i < ls.len()
        invariant
            i <= ls.len(),
            d == dv(ls@),
            d.len() == ls.len(),
            d == lines_s(stdout@),
            key@ == "launchpad.net"@,
            first_launchpad_line(d, 0) == first_launchpad_line(d, i as int),
        decreases ls.len() - i,
    {
        assert(d[i as int] == ls@[i as int]@);
        if contains(&ls[i], &key) {
            return chars_to_string(&trim_v(&ls[i]));
        }
        i = i + 1;
    }
    String::new()
}

/// The version of a PPA upload: `<version>~ppa<upload_number>`.
pub fn ppa_version(version_str: &str, upload_number: u32) -> (r: String)
    ensures
        r@ == version_str@ + "~ppa"@ + dec_s(upload_number as nat),
{
    let mut v = str_chars(version_str);
    push_all(&mut v, &str_chars("~ppa"));
    push_dec(&mut v, upload_number as u64);
    chars_to_string(&v)
}

/// The `ppa:<owner>/<name>` reference of a PPA.
pub fn ppa_ref(owner: &str, ppa_name: &str) -> (r: String)
    ensures
        r@ == "ppa:"@ + owner@ + "/"@ + ppa_name@,
{
    let mut v = str_chars("ppa:");
    push_all(&mut v, &str_chars(owner));
    push_all(&mut v, &str_chars("/"));
    push_all(&mut v, &str_chars(ppa_name));
    chars_to_string(&v)
}

/// The lines that start with `http`, in order.
pub open spec fn http_lines_from(ls: Seq<Seq<char>>) -> Seq<Seq<char>>
    decreases ls.len(),
{
    if ls.len() == 0 {
        seq![]
    } else {
        (if starts_with_s(ls[0], "http"@) {
            seq![ls[0]]
        } else {
            seq![]
        }) + http_lines_from(ls.skip(1))
    }
}

/// The test URLs that `ppa tests --show-url` prints: its lines starting
/// with `http`.
pub fn test_urls(stdout: &str) -> (r: Vec<String>)
    ensures
        string_views(r@) == http_lines_from(lines_s(stdout@)),
{
    let ls = lines(&str_chars(stdout));
    let ghost d = dv(ls@);
    let http = str_chars("http");
    let mut out: Vec<String> = Vec::new();
    let mut i: usize = 0;
    assert(d.skip(0) =~= d);
    assert(string_views(out@) =~= seq![]);
    while i < ls.len()
        invariant
            i <= ls.len(),
            d == dv(ls@),
            d.len() == ls.len(),
            d == lines_s(stdout@),
            http@ == "http"@,
            string_views(out@) + http_lines_from(d.skip(i as int)) == http_lines_from(d),
        decreases ls.len() - i,
    {
        let ghost rest = d.skip(i as int);
        assert(rest[0] == ls@[i as int]@);
        assert(rest.skip(1) =~= d.skip(i + 1));
        let ghost o = string_views(out@);
        if starts_with(&ls[i], &http) {
            let s = chars_to_string(&ls[i]);
            let ghost sv = s@;
            out.push(s);
            assert(string_views(out@) =~= o + seq![sv]);
            assert(o + http_lines_from(rest) =~= o + seq![sv] + http_lines_from(rest.skip(1)));
        } else {
            assert(http_lines_from(rest) =~= http_lines_from(rest.skip(1)));
        }
        i = i + 1;
    }
    assert(d.skip(i as int) =~= seq![]);
    assert(string_views(out@) + seq![] =~= string_views(out@));
    out
}

} // verus!
