//! The attribute-list parser: a raw substring (everything between the tag
//! name and the closing bracket) split into ordered `(name, value)` pairs.
//!
//! The accepted forms are `key`, `key=value`, `key="quoted value"` and
//! `key='quoted value'`.  A bare key carries the empty value; an unterminated
//! quoted value runs to the end of the input.  Nothing is decoded here: the
//! splitter hands the captured characters through unchanged.

use vstd::prelude::*;
use vstd::string::StrSliceExecFns;
use crate::scan::{
    find_char, find_char_at, find_non_ws, find_non_ws_at, find_ws, find_ws_at, is_ws, is_ws_char,
    lemma_find_char_bounds, lemma_find_non_ws_bounds, lemma_find_ws_bounds, str_eq,
    substring_string,
};
use crate::dom::view_attrs;

verus! {

/// Index of the first character in `s[i..to]` that is whitespace or `=`.
pub open spec fn find_ws_or_eq(s: Seq<char>, i: int, to: int) -> Option<int>
    decreases to - i,
{
    if i < 0 || i >= to || to > s.len() {
        None
    } else if is_ws(s[i]) || s[i] == '=' {
        Some(i)
    } else {
        find_ws_or_eq(s, i + 1, to)
    }
}

/// Bounds carried by a successful `find_ws_or_eq`.
pub proof fn lemma_find_ws_or_eq_bounds(s: Seq<char>, i: int, to: int)
    ensures
        find_ws_or_eq(s, i, to) matches Some(j) ==> i <= j < to <= s.len() && (is_ws(s[j]) || s[j]
            == '='),
    decreases to - i,
{
    if !(i < 0 || i >= to || to > s.len()) && !(is_ws(s[i]) || s[i] == '=') {
        lemma_find_ws_or_eq_bounds(s, i + 1, to);
    }
}

/// First whitespace-or-`=` character in `s[from..to]`.
pub fn find_ws_or_eq_at(s: &str, from: usize, to: usize) -> (r: Option<usize>)
    requires
        from <= to <= s@.len(),
    ensures
        match r {
            Some(j) => from <= j < to && find_ws_or_eq(s@, from as int, to as int) == Some(
                j as int,
            ),
            None => find_ws_or_eq(s@, from as int, to as int) is None,
        },
{
    let mut i: usize = from;
    while i < to
        invariant
            from <= i <= to <= s@.len(),
            find_ws_or_eq(s@, from as int, to as int) == find_ws_or_eq(s@, i as int, to as int),
        decreases to - i,
    {
        let c = s.get_char(i);
        if is_ws_char(c) || c == '=' {
            return Some(i);
        }
        i += 1;
    }
    None
}

/// The attribute pairs read from `s` starting at position `i`.
pub open spec fn spec_attrs_from(s: Seq<char>, i: int) -> Seq<(Seq<char>, Seq<char>)>
    decreases s.len() - i,
    via spec_attrs_from_decreases
{
    if i < 0 {
        Seq::empty()
    } else {
        match find_non_ws(s, i, s.len() as int) {
            Option::None => Seq::empty(),
            Option::Some(p) => {
                let ne = match find_ws_or_eq(s, p, s.len() as int) {
                    Option::Some(e) => e,
                    Option::None => s.len() as int,
                };
                let name = s.subrange(p, ne);
                if ne < s.len() && s[ne] == '=' {
                    let vs = ne + 1;
                    if vs < s.len() && (s[vs] == '"' || s[vs] == '\'') {
                        match find_char(s, vs + 1, s.len() as int, s[vs]) {
                            Option::Some(q) => seq![(name, s.subrange(vs + 1, q))]
                                + spec_attrs_from(s, q + 1),
                            Option::None => seq![(name, s.subrange(vs + 1, s.len() as int))],
                        }
                    } else {
                        let ve = match find_ws(s, vs, s.len() as int) {
                            Option::Some(v) => v,
                            Option::None => s.len() as int,
                        };
                        seq![(name, s.subrange(vs, ve))] + spec_attrs_from(s, ve)
                    }
                } else {
                    seq![(name, Seq::empty())] + spec_attrs_from(s, ne)
                }
            },
        }
    }
}

#[via_fn]
proof fn spec_attrs_from_decreases(s: Seq<char>, i: int) {
    lemma_find_non_ws_bounds(s, i, s.len() as int);
    match find_non_ws(s, i, s.len() as int) {
        Option::Some(p) => {
            lemma_find_ws_or_eq_bounds(s, p, s.len() as int);
            let ne = match find_ws_or_eq(s, p, s.len() as int) {
                Option::Some(e) => e,
                Option::None => s.len() as int,
            };
            if ne < s.len() && s[ne] == '=' {
                let vs = ne + 1;
                if vs < s.len() && (s[vs] == '"' || s[vs] == '\'') {
                    lemma_find_char_bounds(s, vs + 1, s.len() as int, s[vs]);
                } else {
                    lemma_find_ws_bounds(s, vs, s.len() as int);
                }
            }
        },
        Option::None => {},
    }
}

/// The attribute pairs read from the whole of `s`.
pub open spec fn spec_attrs(s: Seq<char>) -> Seq<(Seq<char>, Seq<char>)> {
    spec_attrs_from(s, 0)
}

/// Parse a raw attribute substring into ordered `(name, value)` pairs.
pub fn parse(attr_str: &str) -> (r: Vec<(String, String)>)
    ensures
        view_attrs(r@) == spec_attrs(attr_str@),
{
    let len = attr_str.unicode_len();
    let mut out: Vec<(String, String)> = Vec::new();
    let mut i: usize = 0;
    while i < len
        invariant
            i <= len,
            len == attr_str@.len(),
            spec_attrs(attr_str@) =~~= view_attrs(out@) + spec_attrs_from(attr_str@, i as int),
        decreases len - i,
    {
        let ghost prev = out@;
        match find_non_ws_at(attr_str, i, len) {
            Option::None => {
                assert(spec_attrs_from(attr_str@, i as int) =~~= Seq::<(Seq<char>, Seq<char>)>::empty());
                assert(spec_attrs(attr_str@) =~~= view_attrs(out@));
                return out;
            },
            Option::Some(p) => {
                let ne = match find_ws_or_eq_at(attr_str, p, len) {
                    Option::Some(e) => e,
                    Option::None => len,
                };
                let name = substring_string(attr_str, p, ne);
                if ne < len && attr_str.get_char(ne) == '=' {
                    let vs = ne + 1;
                    let mut quoted = false;
                    let mut quote_char = ' ';
                    if vs < len {
                        let q = attr_str.get_char(vs);
                        if q == '"' || q == '\'' {
                            quoted = true;
                            quote_char = q;
                        }
                    }
                    if quoted {
                        match find_char_at(attr_str, vs + 1, len, quote_char) {
                            Option::Some(k) => {
                                let value = substring_string(attr_str, vs + 1, k);
                                out.push((name, value));
                                proof {
                                    assert(view_attrs(out@) =~~= view_attrs(prev).push(
                                        (attr_str@.subrange(p as int, ne as int),
                                        attr_str@.subrange(vs + 1, k as int)),
                                    ));
                                    assert(spec_attrs(attr_str@) =~~= view_attrs(out@)
                                        + spec_attrs_from(attr_str@, k + 1));
                                }
                                i = k + 1;
                            },
                            Option::None => {
                                let value = substring_string(attr_str, vs + 1, len);
                                out.push((name, value));
                                proof {
                                    assert(view_attrs(out@) =~~= view_attrs(prev).push(
                                        (attr_str@.subrange(p as int, ne as int),
                                        attr_str@.subrange(vs + 1, len as int)),
                                    ));
                                    assert(spec_attrs(attr_str@) =~~= view_attrs(out@));
                                }
                                return out;
                            },
                        }
                    } else {
                        let ve = match find_ws_at(attr_str, vs, len) {
                            Option::Some(v) => v,
                            Option::None => len,
                        };
                        let value = substring_string(attr_str, vs, ve);
                        out.push((name, value));
                        proof {
                            assert(view_attrs(out@) =~~= view_attrs(prev).push(
                                (attr_str@.subrange(p as int, ne as int),
                                attr_str@.subrange(vs as int, ve as int)),
                            ));
                            assert(spec_attrs(attr_str@) =~~= view_attrs(out@) + spec_attrs_from(
                                attr_str@,
                                ve as int,
                            ));
                        }
                        i = ve;
                    }
                } else {
                    out.push((name, String::new()));
                    proof {
                        assert(view_attrs(out@) =~~= view_attrs(prev).push(
                            (attr_str@.subrange(p as int, ne as int), Seq::<char>::empty()),
                        ));
                        assert(spec_attrs(attr_str@) =~~= view_attrs(out@) + spec_attrs_from(
                            attr_str@,
                            ne as int,
                        ));
                    }
                    i = ne;
                }
            },
        }
    }
    assert(spec_attrs_from(attr_str@, i as int) =~~= Seq::<(Seq<char>, Seq<char>)>::empty());
    assert(spec_attrs(attr_str@) =~~= view_attrs(out@));
    out
}

/// The value of the first attribute named `name`, if any.
pub open spec fn attrs_lookup(attrs: Seq<(Seq<char>, Seq<char>)>, name: Seq<char>) -> Option<
    Seq<char>,
>
    decreases attrs.len(),
{
    if attrs.len() == 0 {
        None
    } else if attrs[0].0 == name {
        Some(attrs[0].1)
    } else {
        attrs_lookup(attrs.drop_first(), name)
    }
}

/// Find the value of the first attribute named `name`.
pub fn lookup_attr(attrs: &Vec<(String, String)>, name: &str) -> (r: Option<String>)
    ensures
        match r {
            Some(v) => attrs_lookup(view_attrs(attrs@), name@) == Some(v@),
            None => attrs_lookup(view_attrs(attrs@), name@) is None,
        },
{
    proof {
        assert(view_attrs(attrs@).skip(0) =~~= view_attrs(attrs@));
    }
    let mut i: usize = 0;
    while i < attrs.len()
        invariant
            i <= attrs.len(),
            attrs_lookup(view_attrs(attrs@), name@) == attrs_lookup(
                view_attrs(attrs@).skip(i as int),
                name@,
            ),
        decreases attrs.len() - i,
    {
        if str_eq(attrs[i].0.as_str(), name) {
            proof {
                assert(view_attrs(attrs@).skip(i as int)[0] == (attrs@[i as int].0@, attrs@[
                    i as int].1@));
            }
            return Some(crate::dom::clone_string(&attrs[i].1));
        }
        proof {
            assert(view_attrs(attrs@).skip(i as int)[0] == (attrs@[i as int].0@, attrs@[
                i as int].1@));
            assert(view_attrs(attrs@).skip(i as int).drop_first() =~~= view_attrs(attrs@).skip(
                i as int + 1,
            ));
        }
        i += 1;
    }
    proof {
        assert(view_attrs(attrs@).skip(i as int).len() == 0);
    }
    None
}

} // verus!
