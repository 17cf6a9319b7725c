//! Splitting a whole markup document into tokens.
//!
//! The scanner walks the text once.  At a `<` it cuts out one complete tag
//! substring — for a comment, everything up to `-->`; otherwise up to the
//! first `>` that stands outside single or double quotes — and classifies it
//! with [`Token::from`].  Text runs between tags become entity-decoded text
//! tokens.  After a `<script>` or `<style>` start tag (matched exactly,
//! lower case) everything up to the next `</script` resp. `</style` is
//! captured as one verbatim text token, with no entity decoding, mirroring
//! how the serializer emits such content raw.  A tag that never closes
//! fails with an [`InvalidTag`](crate::token::ParseError) error.

use vstd::prelude::*;
use vstd::string::StrSliceExecFns;
use vstd::string::StringExecFns;
use crate::scan::{find_char, find_char_at, find_sub, find_sub_at, lemma_find_char_bounds,
    lemma_find_sub_bounds, substring_string};
use crate::token::{spec_token_from, view_tokens, ParseError, ParseErrorV, TagErrorReason, Token,
    TokenV};
use crate::html::{is_raw_name, is_raw_tag};
use crate::escape::decode_entities;
use crate::dom::clone_string;

verus! {

/// Index of the first `>` at or after `i` that stands outside quotes, given
/// the current quote state `q`.
pub open spec fn find_tag_end(s: Seq<char>, i: int, q: Option<char>) -> Option<int>
    decreases s.len() - i,
{
    if i < 0 || i >= s.len() {
        None
    } else {
        match q {
            Option::Some(qc) => if s[i] == qc {
                find_tag_end(s, i + 1, Option::None)
            } else {
                find_tag_end(s, i + 1, q)
            },
            Option::None => if s[i] == '>' {
                Some(i)
            } else if s[i] == '"' || s[i] == '\'' {
                find_tag_end(s, i + 1, Option::Some(s[i]))
            } else {
                find_tag_end(s, i + 1, Option::None)
            },
        }
    }
}

/// Bounds carried by a successful `find_tag_end`.
pub proof fn lemma_find_tag_end_bounds(s: Seq<char>, i: int, q: Option<char>)
    ensures
        find_tag_end(s, i, q) matches Some(j) ==> i <= j < s.len() && s[j] == '>',
    decreases s.len() - i,
{
    if !(i < 0 || i >= s.len()) {
        lemma_find_tag_end_bounds(s, i + 1, Option::None);
        lemma_find_tag_end_bounds(s, i + 1, q);
        lemma_find_tag_end_bounds(s, i + 1, Option::Some(s[i]));
    }
}

/// First `>` outside quotes, at or after `from`.
pub fn find_tag_end_at(s: &str, from: usize) -> (r: Option<usize>)
    requires
        from <= s@.len(),
    ensures
        match r {
            Some(j) => from <= j < s@.len() && find_tag_end(s@, from as int, Option::None)
                == Some(j as int),
            None => find_tag_end(s@, from as int, Option::None) is None,
        },
{
    let len = s.unicode_len();
    let mut i: usize = from;
    let mut q: Option<char> = Option::None;
    while i < len
        invariant
            from <= i <= len,
            len == s@.len(),
            find_tag_end(s@, from as int, Option::None) == find_tag_end(s@, i as int, q),
        decreases len - i,
    {
        let c = s.get_char(i);
        match q {
            Option::Some(qc) => {
                if c == qc {
                    q = Option::None;
                }
            },
            Option::None => {
                if c == '>' {
                    return Some(i);
                }
                if c == '"' || c == '\'' {
                    q = Option::Some(c);
                }
            },
        }
        i += 1;
    }
    None
}

/// Whether a comment opens at position `i` of `s`.
pub open spec fn comment_opens_at(s: Seq<char>, i: int) -> bool {
    i + 3 < s.len() && s[i] == '<' && s[i + 1] == '!' && s[i + 2] == '-' && s[i + 3] == '-'
}

/// The name of the raw-content element a token opens, if any.
pub open spec fn raw_start_name(t: TokenV) -> Option<Seq<char>> {
    match t {
        TokenV::Start(name, attrs) => if is_raw_name(name) {
            Option::Some(name)
        } else {
            Option::None
        },
        _ => Option::None,
    }
}

/// The tokens read from `s` starting at position `i`, or the error that
/// stops the scan.  This is the mathematical mirror of [`tokenize`].
pub open spec fn spec_tokenize_from(s: Seq<char>, i: int) -> Result<Seq<TokenV>, ParseErrorV>
    decreases s.len() - i,
    via spec_tokenize_from_decreases
{
    if i < 0 || i >= s.len() {
        Result::Ok(Seq::empty())
    } else if s[i] == '<' {
        if comment_opens_at(s, i) {
            match find_sub(s, "-->"@, i + 4) {
                Option::None => Result::Err(ParseErrorV::InvalidTag {
                    tag: s.subrange(i, s.len() as int),
                    reason: TagErrorReason::UnclosedTag,
                }),
                Option::Some(j) => match spec_token_from(s.subrange(i, j + 3)) {
                    Result::Err(e) => Result::Err(e),
                    Result::Ok(t) => match spec_tokenize_from(s, j + 3) {
                        Result::Err(e) => Result::Err(e),
                        Result::Ok(rest) => Result::Ok(seq![t] + rest),
                    },
                },
            }
        } else {
            match find_tag_end(s, i + 1, Option::None) {
                Option::None => Result::Err(ParseErrorV::InvalidTag {
                    tag: s.subrange(i, s.len() as int),
                    reason: TagErrorReason::UnclosedTag,
                }),
                Option::Some(j) => match spec_token_from(s.subrange(i, j + 1)) {
                    Result::Err(e) => Result::Err(e),
                    Result::Ok(t) => match raw_start_name(t) {
                        Option::Some(name) => match find_sub(s, "</"@ + name, j + 1) {
                            Option::None => if j + 1 < s.len() {
                                Result::Ok(seq![t, TokenV::Text(s.subrange(j + 1, s.len() as int))])
                            } else {
                                Result::Ok(seq![t])
                            },
                            Option::Some(k) => match spec_tokenize_from(s, k) {
                                Result::Err(e) => Result::Err(e),
                                Result::Ok(rest) => if k > j + 1 {
                                    Result::Ok(seq![t, TokenV::Text(s.subrange(j + 1, k))] + rest)
                                } else {
                                    Result::Ok(seq![t] + rest)
                                },
                            },
                        },
                        Option::None => match spec_tokenize_from(s, j + 1) {
                            Result::Err(e) => Result::Err(e),
                            Result::Ok(rest) => Result::Ok(seq![t] + rest),
                        },
                    },
                },
            }
        }
    } else {
        let j = match find_char(s, i, s.len() as int, '<') {
            Option::Some(j) => j,
            Option::None => s.len() as int,
        };
        match spec_tokenize_from(s, j) {
            Result::Err(e) => Result::Err(e),
            Result::Ok(rest) => Result::Ok(
                seq![TokenV::Text(decode_entities(s.subrange(i, j)))] + rest,
            ),
        }
    }
}

#[via_fn]
proof fn spec_tokenize_from_decreases(s: Seq<char>, i: int) {
    if !(i < 0 || i >= s.len()) {
        if s[i] == '<' {
            if comment_opens_at(s, i) {
                reveal_strlit("-->");
                lemma_find_sub_bounds(s, "-->"@, i + 4);
            } else {
                lemma_find_tag_end_bounds(s, i + 1, Option::None);
                match find_tag_end(s, i + 1, Option::None) {
                    Option::Some(j) => {
                        match spec_token_from(s.subrange(i, j + 1)) {
                            Result::Ok(t) => match raw_start_name(t) {
                                Option::Some(name) => {
                                    lemma_find_sub_bounds(s, "</"@ + name, j + 1);
                                },
                                Option::None => {},
                            },
                            Result::Err(_) => {},
                        }
                    },
                    Option::None => {},
                }
            }
        } else {
            lemma_find_char_bounds(s, i, s.len() as int, '<');
        }
    }
}

/// The tokens of a whole document.
pub open spec fn spec_tokenize(s: Seq<char>) -> Result<Seq<TokenV>, ParseErrorV> {
    spec_tokenize_from(s, 0)
}

/// The ghost value of a `tokenize` result.
pub open spec fn view_tokenize_result(r: Result<Vec<Token>, ParseError>) -> Result<
    Seq<TokenV>,
    ParseErrorV,
> {
    match r {
        Result::Ok(ts) => Result::Ok(view_tokens(ts@)),
        Result::Err(e) => Result::Err(e@),
    }
}

/// Tokens already read, combined with what the rest of the scan gives.
pub open spec fn tok_combine(acc: Seq<TokenV>, r: Result<Seq<TokenV>, ParseErrorV>) -> Result<
    Seq<TokenV>,
    ParseErrorV,
> {
    match r {
        Result::Ok(rest) => Result::Ok(acc + rest),
        Result::Err(e) => Result::Err(e),
    }
}

/// Read one unit at position `i`: the tokens it yields and the position
/// where the scan goes on.
#[verifier::rlimit(100)]
fn tokenize_step(html: &str, i: usize) -> (r: Result<(Vec<Token>, usize), ParseError>)
    requires
        i < html@.len(),
    ensures
        match r {
            Result::Ok(p) => i < p.1 <= html@.len() && spec_tokenize_from(html@, i as int)
                == tok_combine(view_tokens(p.0@), spec_tokenize_from(html@, p.1 as int)),
            Result::Err(e) => spec_tokenize_from(html@, i as int) == Result::<
                Seq<TokenV>,
                ParseErrorV,
            >::Err(e@),
        },
{
    let len = html.unicode_len();
    let mut out: Vec<Token> = Vec::new();
    let c = html.get_char(i);
    if c == '<' {
        let is_comment = len - i > 3 && html.get_char(i + 1) == '!' && html.get_char(i + 2) == '-'
            && html.get_char(i + 3) == '-';
        assert(is_comment == comment_opens_at(html@, i as int));
        if is_comment {
            proof {
                reveal_strlit("-->");
            }
            match find_sub_at(html, "-->", i + 4) {
                Option::None => {
                    let tag = substring_string(html, i, len);
                    Result::Err(ParseError::InvalidTag {
                        tag,
                        reason: TagErrorReason::UnclosedTag,
                    })
                },
                Option::Some(j) => {
                    let tag = substring_string(html, i, j + 3);
                    match Token::from(tag) {
                        Result::Err(e) => Result::Err(e),
                        Result::Ok(t) => {
                            let ghost tv = t@;
                            out.push(t);
                            proof {
                                crate::token::lemma_view_tokens_snoc(out@);
                                assert(out@.drop_last() =~= Seq::<Token>::empty());
                                assert(view_tokens(out@) =~~= seq![tv]);
                            }
                            Result::Ok((out, j + 3))
                        },
                    }
                },
            }
        } else {
            match find_tag_end_at(html, i + 1) {
                Option::None => {
                    let tag = substring_string(html, i, len);
                    Result::Err(ParseError::InvalidTag {
                        tag,
                        reason: TagErrorReason::UnclosedTag,
                    })
                },
                Option::Some(j) => {
                    let tag = substring_string(html, i, j + 1);
                    match Token::from(tag) {
                        Result::Err(e) => Result::Err(e),
                        Result::Ok(t) => {
                            let ghost tv = t@;
                            let raw_name: Option<String> = match &t {
                                Token::Start(nm, _) => {
                                    if is_raw_tag(nm.as_str()) {
                                        Option::Some(clone_string(nm))
                                    } else {
                                        Option::None
                                    }
                                },
                                _ => Option::None,
                            };
                            out.push(t);
                            proof {
                                crate::token::lemma_view_tokens_snoc(out@);
                                assert(out@.drop_last() =~= Seq::<Token>::empty());
                                assert(view_tokens(out@) =~~= seq![tv]);
                            }
                            match raw_name {
                                Option::Some(nm) => {
                                    let mut pat = String::from_str("</");
                                    pat.append(nm.as_str());
                                    proof {
                                        assert(pat@ == "</"@ + nm@);
                                        assert(raw_start_name(tv) == Option::Some(nm@));
                                    }
                                    match find_sub_at(html, pat.as_str(), j + 1) {
                                        Option::None => {
                                            if j + 1 < len {
                                                let run = substring_string(html, j + 1, len);
                                                let ghost rv = TokenV::Text(run@);
                                                out.push(Token::Text(run));
                                                proof {
                                                    crate::token::lemma_view_tokens_snoc(out@);
                                                    assert(view_tokens(out@) =~~= seq![tv, rv]);
                                                    assert(seq![tv, rv] + Seq::<TokenV>::empty()
                                                        =~= seq![tv, rv]);
                                                }
                                            } else {
                                                proof {
                                                    assert(seq![tv] + Seq::<TokenV>::empty()
                                                        =~= seq![tv]);
                                                }
                                            }
                                            Result::Ok((out, len))
                                        },
                                        Option::Some(k) => {
                                            if k > j + 1 {
                                                let run = substring_string(html, j + 1, k);
                                                let ghost rv = TokenV::Text(run@);
                                                out.push(Token::Text(run));
                                                proof {
                                                    crate::token::lemma_view_tokens_snoc(out@);
                                                    assert(view_tokens(out@) =~~= seq![tv, rv]);
                                                }
                                            }
                                            Result::Ok((out, k))
                                        },
                                    }
                                },
                                Option::None => {
                                    proof {
                                        assert(raw_start_name(tv) is None);
                                    }
                                    Result::Ok((out, j + 1))
                                },
                            }
                        },
                    }
                },
            }
        }
    } else {
        let j = match find_char_at(html, i, len, '<') {
            Option::Some(j) => j,
            Option::None => len,
        };
        proof {
            lemma_find_char_bounds(html@, i as int, len as int, '<');
        }
        let run = substring_string(html, i, j);
        let t = Token::from_text(run);
        let ghost tv = t@;
        out.push(t);
        proof {
            crate::token::lemma_view_tokens_snoc(out@);
            assert(out@.drop_last() =~= Seq::<Token>::empty());
            assert(view_tokens(out@) =~~= seq![tv]);
        }
        Result::Ok((out, j))
    }
}

/// `tok_combine` over an accumulated prefix.
proof fn lemma_tok_combine_assoc(a: Seq<TokenV>, b: Seq<TokenV>, r: Result<Seq<TokenV>, ParseErrorV>)
    ensures
        tok_combine(a, tok_combine(b, r)) == tok_combine(a + b, r),
{
    match r {
        Result::Ok(rest) => {
            assert(a + (b + rest) =~= (a + b) + rest);
        },
        Result::Err(_) => {},
    }
}

/// `view_tokens` distributes over concatenation.
proof fn lemma_view_tokens_concat(a: Seq<Token>, b: Seq<Token>)
    ensures
        view_tokens(a + b) == view_tokens(a) + view_tokens(b),
{
    assert(view_tokens(a + b) =~~= view_tokens(a) + view_tokens(b));
}

/// Scan a whole markup document into its ordered token sequence.
pub fn tokenize(html: &str) -> (r: Result<Vec<Token>, ParseError>)
    ensures
        view_tokenize_result(r) == spec_tokenize(html@),
{
    let len = html.unicode_len();
    let mut toks: Vec<Token> = Vec::new();
    let mut i: usize = 0;
    proof {
        assert(view_tokens(toks@) =~~= Seq::<TokenV>::empty());
        assert(view_tokens(toks@) + spec_or_empty(html@, 0) =~= spec_or_empty(html@, 0));
    }
    while i < len
        invariant
            i <= len,
            len == html@.len(),
            spec_tokenize(html@) == tok_combine(view_tokens(toks@), spec_tokenize_from(
                html@,
                i as int,
            )),
        decreases len - i,
    {
        let ghost acc0 = view_tokens(toks@);
        match tokenize_step(html, i) {
            Result::Err(e) => {
                return Result::Err(e);
            },
            Result::Ok((mut piece, ni)) => {
                let ghost pv = piece@;
                toks.append(&mut piece);
                proof {
                    lemma_view_tokens_concat(toks@.subrange(0, toks@.len() - pv.len() as int), pv);
                    assert(toks@.subrange(0, toks@.len() - pv.len() as int) + pv =~= toks@);
                    lemma_view_tokens_concat(toks@.subrange(0, toks@.len() - pv.len() as int), pv);
                    assert(view_tokens(toks@) =~~= acc0 + view_tokens(pv));
                    lemma_tok_combine_assoc(acc0, view_tokens(pv), spec_tokenize_from(
                        html@,
                        ni as int,
                    ));
                }
                i = ni;
            },
        }
    }
    proof {
        assert(spec_tokenize_from(html@, i as int) == Result::<Seq<TokenV>, ParseErrorV>::Ok(
            Seq::empty(),
        ));
        assert(view_tokens(toks@) + Seq::<TokenV>::empty() =~= view_tokens(toks@));
    }
    Result::Ok(toks)
}

/// The tokens the rest of the scan gives, or the empty sequence where it
/// stops with an error; a shorthand for proofs about the scan's remainder.
pub open spec fn spec_or_empty(s: Seq<char>, i: int) -> Seq<TokenV> {
    match spec_tokenize_from(s, i) {
        Result::Ok(rest) => rest,
        Result::Err(_) => Seq::empty(),
    }
}

} // verus!
