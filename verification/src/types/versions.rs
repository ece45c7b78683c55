//! Upstream Rust version numbers (`X.Y.Z` and `X.Y`).
use vstd::prelude::*;

use crate::error::ThermiteError;
use crate::text::{
    chars_to_string, dec_s, lemma_dec_no_char, lemma_parse_dec, lemma_split_at_sep,
    lemma_split_no_sep, parse_u32, parse_u32_s, push_dec, split_acc, split_char, split_s,
    str_chars,
};

verus! {

/// A full Rust version in `X.Y.Z` format.
#[derive(Debug, Clone, Copy, PartialEq, Eq, Structural)]
pub struct RustVersion {
    pub major: u32,
    pub minor: u32,
    pub patch: u32,
}

/// A short Rust version in `X.Y` format (patch component omitted).
#[derive(Debug, Clone, Copy, PartialEq, Eq, Structural)]
pub struct ShortRustVersion {
    pub major: u32,
    pub minor: u32,
}

/// The version that `X.Y.Z` text denotes, if it is one: exactly three
/// dot-separated components, each accepted by `parse::<u32>`.
pub open spec fn parse_rust_version_s(s: Seq<char>) -> Option<RustVersion> {
    let parts = split_s(s, '.');
    if parts.len() == 3 && parse_u32_s(parts[0]) is Some && parse_u32_s(parts[1]) is Some
        && parse_u32_s(parts[2]) is Some {
        Some(
            RustVersion {
                major: parse_u32_s(parts[0])->0,
                minor: parse_u32_s(parts[1])->0,
                patch: parse_u32_s(parts[2])->0,
            },
        )
    } else {
        None
    }
}

impl RustVersion {
    /// The text `X.Y.Z`.
    pub open spec fn render(self) -> Seq<char> {
        dec_s(self.major as nat) + seq!['.'] + dec_s(self.minor as nat) + seq!['.'] + dec_s(
            self.patch as nat,
        )
    }

    /// Parse a `"X.Y.Z"` string into a [`RustVersion`]; any other text is
    /// rejected with `InvalidRustVersion` carrying the input.
    pub fn parse(s: &str) -> (r: Result<Self, ThermiteError>)
        ensures
            parse_rust_version_s(s@) matches Some(v) ==> r == Ok::<Self, ThermiteError>(v),
            parse_rust_version_s(s@) is None ==> (r matches Err(
                ThermiteError::InvalidRustVersion(m),
            ) && m@ == s@),
    {
        let cs = str_chars(s);
        match Self::parse_chars(&cs) {
            Some(v) => Ok(v),
            None => Err(ThermiteError::InvalidRustVersion(chars_to_string(&cs))),
        }
    }

    /// Parse `X.Y.Z` given as characters.
    pub fn parse_chars(s: &Vec<char>) -> (r: Option<Self>)
        ensures
            r == parse_rust_version_s(s@),
    {
        let parts = split_char(s, '.');
        if parts.len() != 3 {
            return None;
        }
        let a = parse_u32(&parts[0]);
        let b = parse_u32(&parts[1]);
        let c = parse_u32(&parts[2]);
        assert(crate::text::dv(parts@)[0] == parts@[0]@);
        assert(crate::text::dv(parts@)[1] == parts@[1]@);
        assert(crate::text::dv(parts@)[2] == parts@[2]@);
        match (a, b, c) {
            (Some(major), Some(minor), Some(patch)) => Some(RustVersion { major, minor, patch }),
            _ => None,
        }
    }

    /// The short (`X.Y`) form of this version.
    pub open spec fn short_s(self) -> ShortRustVersion {
        ShortRustVersion { major: self.major, minor: self.minor }
    }

    /// Return the short (`X.Y`) form of this version.
    pub fn short(&self) -> (r: ShortRustVersion)
        ensures
            r == self.short_s(),
            r.major == self.major,
            r.minor == self.minor,
    {
        ShortRustVersion { major: self.major, minor: self.minor }
    }

    /// The text `X.Y.Z` as characters.
    pub fn render_chars(&self) -> (r: Vec<char>)
        ensures
            r@ == self.render(),
    {
        let mut r: Vec<char> = Vec::new();
        push_dec(&mut r, self.major as u64);
        r.push('.');
        push_dec(&mut r, self.minor as u64);
        r.push('.');
        push_dec(&mut r, self.patch as u64);
        assert(r@ =~= self.render());
        r
    }

    /// The text `X.Y.Z` (what `Display` prints).
    pub fn to_version_string(&self) -> (r: String)
        ensures
            r@ == self.render(),
    {
        chars_to_string(&self.render_chars())
    }
}

impl ShortRustVersion {
    /// The text `X.Y`.
    pub open spec fn render(self) -> Seq<char> {
        dec_s(self.major as nat) + seq!['.'] + dec_s(self.minor as nat)
    }

    pub fn render_chars(&self) -> (r: Vec<char>)
        ensures
            r@ == self.render(),
    {
        let mut r: Vec<char> = Vec::new();
        push_dec(&mut r, self.major as u64);
        r.push('.');
        push_dec(&mut r, self.minor as u64);
        assert(r@ =~= self.render());
        r
    }

    /// The text `X.Y` (what `Display` prints).
    pub fn to_version_string(&self) -> (r: String)
        ensures
            r@ == self.render(),
    {
        chars_to_string(&self.render_chars())
    }
}

/// Printing a version and parsing the text back gives the same version.
pub proof fn lemma_rust_version_roundtrip(v: RustVersion)
    ensures
        parse_rust_version_s(v.render()) == Some(v),
{
    let a = dec_s(v.major as nat);
    let b = dec_s(v.minor as nat);
    let c = dec_s(v.patch as nat);
    lemma_dec_no_char(v.major as nat, '.');
    lemma_dec_no_char(v.minor as nat, '.');
    lemma_dec_no_char(v.patch as nat, '.');
    let e: Seq<char> = seq![];
    assert(v.render() =~= a + (seq!['.'] + (b + (seq!['.'] + c))));
    lemma_split_no_sep(a, seq!['.'] + (b + (seq!['.'] + c)), '.', e);
    assert(e + a =~= a);
    lemma_split_at_sep(b + (seq!['.'] + c), '.', a);
    lemma_split_no_sep(b, seq!['.'] + c, '.', e);
    assert(e + b =~= b);
    lemma_split_at_sep(c, '.', b);
    assert(c =~= c + e);
    lemma_split_no_sep(c, e, '.', e);
    assert(e + c =~= c);
    assert(split_acc(e, '.', c) == seq![c]);
    let parts = split_s(v.render(), '.');
    assert(parts =~= seq![a] + (seq![b] + seq![c]));
    lemma_parse_dec(v.major);
    lemma_parse_dec(v.minor);
    lemma_parse_dec(v.patch);
}

} // verus!
