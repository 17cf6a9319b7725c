//! Character-level scanning helpers: finding characters, trimming, string
//! equality.  Whitespace is ASCII whitespace throughout the crate.

use vstd::prelude::*;
use vstd::string::StrSliceExecFns;
use vstd::string::StringExecFns;

verus! {

/// ASCII whitespace.
pub open spec fn is_ws(c: char) -> bool {
    c == ' ' || c == '\t' || c == '\n' || c == '\r' || c == '\u{c}'
}

/// Whether `c` is ASCII whitespace.
pub fn is_ws_char(c: char) -> (r: bool)
    ensures
        r == is_ws(c),
{
    c == ' ' || c == '\t' || c == '\n' || c == '\r' || c == '\u{c}'
}

/// Index of the first occurrence of `c` in `s[i..to]`, if any.
pub open spec fn find_char(s: Seq<char>, i: int, to: int, c: char) -> Option<int>
    decreases to - i,
{
    if i < 0 || i >= to || to > s.len() {
        None
    } else if s[i] == c {
        Some(i)
    } else {
        find_char(s, i + 1, to, c)
    }
}

/// Index of the first character in `s[i..to]` that differs from `c`, if any.
pub open spec fn find_not_char(s: Seq<char>, i: int, to: int, c: char) -> Option<int>
    decreases to - i,
{
    if i < 0 || i >= to || to > s.len() {
        None
    } else if s[i] != c {
        Some(i)
    } else {
        find_not_char(s, i + 1, to, c)
    }
}

/// Index of the first ASCII whitespace character in `s[i..to]`, if any.
pub open spec fn find_ws(s: Seq<char>, i: int, to: int) -> Option<int>
    decreases to - i,
{
    if i < 0 || i >= to || to > s.len() {
        None
    } else if is_ws(s[i]) {
        Some(i)
    } else {
        find_ws(s, i + 1, to)
    }
}

/// Index of the first non-whitespace character in `s[i..to]`, if any.
pub open spec fn find_non_ws(s: Seq<char>, i: int, to: int) -> Option<int>
    decreases to - i,
{
    if i < 0 || i >= to || to > s.len() {
        None
    } else if !is_ws(s[i]) {
        Some(i)
    } else {
        find_non_ws(s, i + 1, to)
    }
}

/// Index of the last non-whitespace character of `s` strictly below `j`, if any.
pub open spec fn rfind_non_ws(s: Seq<char>, j: int) -> Option<int>
    decreases j,
{
    if j <= 0 || j > s.len() {
        None
    } else if !is_ws(s[j - 1]) {
        Some(j - 1)
    } else {
        rfind_non_ws(s, j - 1)
    }
}

/// `s` with leading and trailing ASCII whitespace removed.
pub open spec fn trim_ws(s: Seq<char>) -> Seq<char> {
    match find_non_ws(s, 0, s.len() as int) {
        Option::None => Seq::empty(),
        Option::Some(a) => match rfind_non_ws(s, s.len() as int) {
            Option::None => Seq::empty(),
            Option::Some(b) => s.subrange(a, b + 1),
        },
    }
}

/// Index of the first occurrence of `pat` as a contiguous run in `s`, at or
/// after `i`, if any.
pub open spec fn find_sub(s: Seq<char>, pat: Seq<char>, i: int) -> Option<int>
    decreases s.len() - i + 1,
{
    if i < 0 || i + pat.len() > s.len() {
        None
    } else if s.subrange(i, i + pat.len() as int) == pat {
        Some(i)
    } else {
        find_sub(s, pat, i + 1)
    }
}

/// Bounds carried by a successful `find_char`.
pub proof fn lemma_find_char_bounds(s: Seq<char>, i: int, to: int, c: char)
    ensures
        find_char(s, i, to, c) matches Some(j) ==> i <= j < to <= s.len() && s[j] == c,
    decreases to - i,
{
    if !(i < 0 || i >= to || to > s.len()) && s[i] != c {
        lemma_find_char_bounds(s, i + 1, to, c);
    }
}

/// Bounds carried by a successful `find_ws`.
pub proof fn lemma_find_ws_bounds(s: Seq<char>, i: int, to: int)
    ensures
        find_ws(s, i, to) matches Some(j) ==> i <= j < to <= s.len() && is_ws(s[j]),
    decreases to - i,
{
    if !(i < 0 || i >= to || to > s.len()) && !is_ws(s[i]) {
        lemma_find_ws_bounds(s, i + 1, to);
    }
}

/// `find_ws` finds nothing where every character of the range is
/// non-whitespace.
pub proof fn lemma_find_ws_none(s: Seq<char>, i: int, to: int)
    requires
        forall|k: int| i <= k < to ==> !is_ws(s[k]),
    ensures
        find_ws(s, i, to) is None,
    decreases to - i,
{
    if !(i < 0 || i >= to || to > s.len()) {
        lemma_find_ws_none(s, i + 1, to);
    }
}

/// Bounds carried by a successful `find_non_ws`.
pub proof fn lemma_find_non_ws_bounds(s: Seq<char>, i: int, to: int)
    ensures
        find_non_ws(s, i, to) matches Some(j) ==> i <= j < to <= s.len() && !is_ws(s[j]),
    decreases to - i,
{
    if !(i < 0 || i >= to || to > s.len()) && is_ws(s[i]) {
        lemma_find_non_ws_bounds(s, i + 1, to);
    }
}

/// Bounds carried by a successful `find_not_char`.
pub proof fn lemma_find_not_char_bounds(s: Seq<char>, i: int, to: int, c: char)
    ensures
        find_not_char(s, i, to, c) matches Some(j) ==> i <= j < to <= s.len() && s[j] != c,
    decreases to - i,
{
    if !(i < 0 || i >= to || to > s.len()) && s[i] == c {
        lemma_find_not_char_bounds(s, i + 1, to, c);
    }
}

/// Everything before a successful `find_non_ws` hit is whitespace.
pub proof fn lemma_find_non_ws_first(s: Seq<char>, i: int, to: int)
    ensures
        find_non_ws(s, i, to) matches Some(j) ==> forall|k: int| i <= k < j ==> is_ws(s[k]),
    decreases to - i,
{
    if !(i < 0 || i >= to || to > s.len()) && is_ws(s[i]) {
        lemma_find_non_ws_first(s, i + 1, to);
    }
}

/// Bounds carried by a successful `rfind_non_ws`.
pub proof fn lemma_rfind_non_ws_bounds(s: Seq<char>, j: int)
    ensures
        rfind_non_ws(s, j) matches Some(k) ==> 0 <= k < j <= s.len() && !is_ws(s[k]),
    decreases j,
{
    if !(j <= 0 || j > s.len()) && is_ws(s[j - 1]) {
        lemma_rfind_non_ws_bounds(s, j - 1);
    }
}

/// Bounds carried by a successful `find_sub`.
pub proof fn lemma_find_sub_bounds(s: Seq<char>, pat: Seq<char>, i: int)
    ensures
        find_sub(s, pat, i) matches Some(j)
            ==> i <= j && j + pat.len() <= s.len()
                && s.subrange(j, j + pat.len() as int) == pat,
    decreases s.len() - i + 1,
{
    if !(i < 0 || i + pat.len() > s.len()) && s.subrange(i, i + pat.len() as int) != pat {
        lemma_find_sub_bounds(s, pat, i + 1);
    }
}

/// Exact characters of two string slices compared.
pub fn str_eq(a: &str, b: &str) -> (r: bool)
    ensures
        r == (a@ == b@),
{
    let alen = a.unicode_len();
    let blen = b.unicode_len();
    if alen != blen {
        assert(a@ != b@) by {
            assert(a@.len() != b@.len());
        }
        return false;
    }
    let mut i: usize = 0;
    while i < alen
        invariant
            alen == a@.len(),
            alen == b@.len(),
            i <= alen,
            forall|j: int| 0 <= j < i ==> a@[j] == b@[j],
        decreases alen - i,
    {
        if a.get_char(i) != b.get_char(i) {
            assert(a@ != b@) by {
                assert(a@[i as int] != b@[i as int]);
            }
            return false;
        }
        i += 1;
    }
    proof {
        assert(a@ =~= b@);
    }
    true
}

/// First occurrence of `c` in `s[from..to]`.
pub fn find_char_at(s: &str, from: usize, to: usize, c: char) -> (r: Option<usize>)
    requires
        from <= to <= s@.len(),
    ensures
        match r {
            Some(j) => from <= j < to && find_char(s@, from as int, to as int, c) == Some(j as int),
            None => find_char(s@, from as int, to as int, c) is None,
        },
{
    let mut i: usize = from;
    while i < to
        invariant
            from <= i <= to <= s@.len(),
            find_char(s@, from as int, to as int, c) == find_char(s@, i as int, to as int, c),
        decreases to - i,
    {
        if s.get_char(i) == c {
            return Some(i);
        }
        i += 1;
    }
    None
}

/// First character in `s[from..to]` differing from `c`.
pub fn find_not_char_at(s: &str, from: usize, to: usize, c: char) -> (r: Option<usize>)
    requires
        from <= to <= s@.len(),
    ensures
        match r {
            Some(j) => from <= j < to && find_not_char(s@, from as int, to as int, c) == Some(
                j as int,
            ),
            None => find_not_char(s@, from as int, to as int, c) is None,
        },
{
    let mut i: usize = from;
    while i < to
        invariant
            from <= i <= to <= s@.len(),
            find_not_char(s@, from as int, to as int, c) == find_not_char(
                s@,
                i as int,
                to as int,
                c,
            ),
        decreases to - i,
    {
        if s.get_char(i) != c {
            return Some(i);
        }
        i += 1;
    }
    None
}

/// First ASCII whitespace character in `s[from..to]`.
pub fn find_ws_at(s: &str, from: usize, to: usize) -> (r: Option<usize>)
    requires
        from <= to <= s@.len(),
    ensures
        match r {
            Some(j) => from <= j < to && find_ws(s@, from as int, to as int) == Some(j as int),
            None => find_ws(s@, from as int, to as int) is None,
        },
{
    let mut i: usize = from;
    while i < to
        invariant
            from <= i <= to <= s@.len(),
            find_ws(s@, from as int, to as int) == find_ws(s@, i as int, to as int),
        decreases to - i,
    {
        if is_ws_char(s.get_char(i)) {
            return Some(i);
        }
        i += 1;
    }
    None
}

/// First non-whitespace character in `s[from..to]`.
pub fn find_non_ws_at(s: &str, from: usize, to: usize) -> (r: Option<usize>)
    requires
        from <= to <= s@.len(),
    ensures
        match r {
            Some(j) => from <= j < to && find_non_ws(s@, from as int, to as int) == Some(j as int),
            None => find_non_ws(s@, from as int, to as int) is None,
        },
{
    let mut i: usize = from;
    while i < to
        invariant
            from <= i <= to <= s@.len(),
            find_non_ws(s@, from as int, to as int) == find_non_ws(s@, i as int, to as int),
        decreases to - i,
    {
        if !is_ws_char(s.get_char(i)) {
            return Some(i);
        }
        i += 1;
    }
    None
}

/// Last non-whitespace character of `s` strictly below `j`.
pub fn rfind_non_ws_at(s: &str, j: usize) -> (r: Option<usize>)
    requires
        j <= s@.len(),
    ensures
        match r {
            Some(k) => k < j && rfind_non_ws(s@, j as int) == Some(k as int),
            None => rfind_non_ws(s@, j as int) is None,
        },
{
    let mut i: usize = j;
    while i > 0
        invariant
            i <= j <= s@.len(),
            rfind_non_ws(s@, j as int) == rfind_non_ws(s@, i as int),
        decreases i,
    {
        if !is_ws_char(s.get_char(i - 1)) {
            return Some(i - 1);
        }
        i -= 1;
    }
    None
}

/// `s` with leading and trailing ASCII whitespace removed, as an owned string.
pub fn trim_str(s: &str) -> (r: String)
    ensures
        r@ == trim_ws(s@),
{
    let len = s.unicode_len();
    match find_non_ws_at(s, 0, len) {
        Option::Some(a) => {
            match rfind_non_ws_at(s, len) {
                Option::Some(b) => {
                    proof {
                        lemma_find_non_ws_bounds(s@, 0, len as int);
                        lemma_find_non_ws_first(s@, 0, len as int);
                        lemma_rfind_non_ws_bounds(s@, len as int);
                        // The last non-whitespace character cannot precede
                        // the first one.
                        assert(a <= b);
                    }
                    let sub = s.substring_char(a, b + 1);
                    sub.to_owned()
                },
                Option::None => {
                    proof {
                        lemma_find_non_ws_bounds(s@, 0, len as int);
                        lemma_rfind_some_when_find_some(s@);
                    }
                    String::new()
                },
            }
        },
        Option::None => String::new(),
    }
}

/// If some character of `s` is non-whitespace from the front, one is found
/// from the back too.
proof fn lemma_rfind_some_when_find_some(s: Seq<char>)
    ensures
        find_non_ws(s, 0, s.len() as int) is Some ==> rfind_non_ws(s, s.len() as int) is Some,
{
    if find_non_ws(s, 0, s.len() as int) is Some {
        lemma_find_non_ws_bounds(s, 0, s.len() as int);
        let j = find_non_ws(s, 0, s.len() as int)->Some_0;
        lemma_rfind_covers(s, s.len() as int, j);
    }
}

/// A non-whitespace character below `j` guarantees `rfind_non_ws` succeeds.
proof fn lemma_rfind_covers(s: Seq<char>, j: int, w: int)
    requires
        0 <= w < j <= s.len(),
        !is_ws(s[w]),
    ensures
        rfind_non_ws(s, j) is Some,
    decreases j,
{
    if is_ws(s[j - 1]) {
        lemma_rfind_covers(s, j - 1, w);
    }
}

/// First occurrence of `pat` as a contiguous run of `s`, at or after `from`.
pub fn find_sub_at(s: &str, pat: &str, from: usize) -> (r: Option<usize>)
    requires
        from <= s@.len(),
    ensures
        match r {
            Some(j) => from <= j && j + pat@.len() <= s@.len() && find_sub(s@, pat@, from as int)
                == Some(j as int),
            None => find_sub(s@, pat@, from as int) is None,
        },
{
    let slen = s.unicode_len();
    let plen = pat.unicode_len();
    if plen > slen {
        proof {
            lemma_find_sub_none_when_short(s@, pat@, from as int);
        }
        return None;
    }
    if plen == 0 {
        proof {
            assert(s@.subrange(from as int, from as int) =~= pat@);
        }
        return Some(from);
    }
    let mut i: usize = from;
    while i <= slen - plen
        invariant
            from <= i,
            i <= slen,
            1 <= plen <= slen,
            slen == s@.len(),
            plen == pat@.len(),
            find_sub(s@, pat@, from as int) == find_sub(s@, pat@, i as int),
        decreases slen - i,
    {
        let sub = s.substring_char(i, i + plen);
        if str_eq(sub, pat) {
            return Some(i);
        }
        i += 1;
    }
    proof {
        lemma_find_sub_none_when_short(s@, pat@, i as int);
    }
    None
}

/// Substring of `s` as an owned string.
pub fn substring_string(s: &str, from: usize, to: usize) -> (r: String)
    requires
        from <= to <= s@.len(),
    ensures
        r@ == s@.subrange(from as int, to as int),
{
    s.substring_char(from, to).to_owned()
}

/// `find_sub` fails when the pattern no longer fits.
proof fn lemma_find_sub_none_when_short(s: Seq<char>, pat: Seq<char>, i: int)
    requires
        i + pat.len() > s.len(),
    ensures
        find_sub(s, pat, i) is None,
{
}

} // verus!
