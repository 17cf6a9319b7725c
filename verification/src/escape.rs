//! Entity escaping and decoding at the boundary to the `html_escape` crate.
//!
//! Escaping of text runs and attribute values is simple enough to state
//! character by character, so the wrappers below carry exact contracts.
//! Entity decoding (all named and numeric character references) is named by
//! an uninterpreted function instead: its value depends on the input alone,
//! and nothing in this crate claims what it is on any given string.

use vstd::prelude::*;

verus! {

/// Whether `c` occurs in `s`.
pub open spec fn contains_char(s: Seq<char>, c: char) -> bool {
    exists|i: int| 0 <= i < s.len() && s[i] == c
}

/// What one character of a text run becomes in markup output.
pub open spec fn escape_text_char(c: char) -> Seq<char> {
    if c == '&' {
        "&amp;"@
    } else if c == '<' {
        "&lt;"@
    } else if c == '>' {
        "&gt;"@
    } else {
        seq![c]
    }
}

/// A text run with `&`, `<` and `>` replaced by entities.
pub open spec fn escape_text(s: Seq<char>) -> Seq<char>
    decreases s.len(),
{
    if s.len() == 0 {
        Seq::empty()
    } else {
        escape_text(s.drop_last()) + escape_text_char(s.last())
    }
}

/// What one character of a double-quoted attribute value becomes.
pub open spec fn escape_attr_char(c: char) -> Seq<char> {
    if c == '&' {
        "&amp;"@
    } else if c == '<' {
        "&lt;"@
    } else if c == '>' {
        "&gt;"@
    } else if c == '"' {
        "&quot;"@
    } else {
        seq![c]
    }
}

/// An attribute value with `&`, `<`, `>` and `"` replaced by entities.
pub open spec fn escape_attr(s: Seq<char>) -> Seq<char>
    decreases s.len(),
{
    if s.len() == 0 {
        Seq::empty()
    } else {
        escape_attr(s.drop_last()) + escape_attr_char(s.last())
    }
}

/// The string `s` with every HTML character reference (named or numeric)
/// replaced by the character it stands for.  A function of `s` alone.
pub uninterp spec fn decode_entities(s: Seq<char>) -> Seq<char>;

/// Relies on `html_escape::encode_text`: replaces `&` with `&amp;`, `<` with
/// `&lt;` and `>` with `&gt;`, and leaves every other character alone.
#[verifier::external_body]
pub fn encode_text_str(t: &str) -> (r: String)
    ensures
        r@ == escape_text(t@),
{
    html_escape::encode_text(t).into_owned()
}

/// Relies on `html_escape::encode_double_quoted_attribute`: replaces `&` with
/// `&amp;`, `<` with `&lt;`, `>` with `&gt;` and `"` with `&quot;`, and
/// leaves every other character alone.
#[verifier::external_body]
pub fn encode_attr_str(v: &str) -> (r: String)
    ensures
        r@ == escape_attr(v@),
{
    html_escape::encode_double_quoted_attribute(v).into_owned()
}

/// Relies on `html_escape::decode_html_entities`: the result is a function of
/// the characters alone, and a string holding no `&` starts no character
/// reference, so it comes back unchanged.
#[verifier::external_body]
pub fn decode_entities_str(t: &str) -> (r: String)
    ensures
        r@ == decode_entities(t@),
        !contains_char(t@, '&') ==> r@ == t@,
{
    html_escape::decode_html_entities(t).into_owned()
}

} // verus!
