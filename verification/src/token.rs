//! Classification of one tag substring into a [`Token`].
//!
//! `Token::from` receives one complete `<...>` substring at a time; text
//! runs between tags are wrapped separately through `Token::from_text`.
//! The shapes are tried in a fixed order: self-closing, end tag, comment,
//! doctype, xml declaration, start tag.  A substring that fits no shape, or
//! whose tag-name region holds only whitespace, is rejected with an
//! [`InvalidTag`](ParseError) error.
//!
//! Indexing here is by characters; a substring too short for its shape to be
//! cut out is rejected as an invalid tag rather than sliced out of range.

use vstd::prelude::*;
use vstd::string::StrSliceExecFns;
use crate::dom::{
    clone_attrs, clone_string, view_attrs, Doctype, DoctypeV, Element, ElementV, Node, NodeV,
};
use crate::scan::{
    find_char, find_char_at, find_non_ws, find_non_ws_at, find_not_char, find_not_char_at,
    find_ws, find_ws_at, lemma_find_char_bounds, lemma_find_non_ws_bounds,
    lemma_find_not_char_bounds, lemma_find_ws_bounds, substring_string, trim_str, trim_ws,
};
use crate::attrs::{attrs_lookup, spec_attrs};
use crate::escape::{contains_char, decode_entities};

verus! {

/// Why a tag substring was rejected.
#[derive(Debug, Clone, Copy, PartialEq, Eq)]
pub enum TagErrorReason {
    /// The tag-name region holds only whitespace.
    AllSpaceTagName,
    /// An xml declaration without a `version` attribute.
    MissingXmlVersion,
    /// An xml declaration without an `encoding` attribute.
    MissingXmlEncoding,
    /// No recognized tag shape.
    NotATag,
    /// A `<` whose tag is never closed (found while splitting a document).
    UnclosedTag,
}

impl TagErrorReason {
    /// A short human-readable description of the reason.
    pub fn message(&self) -> (r: &'static str)
        ensures
            *self is AllSpaceTagName ==> r@ == "Tag name cannot be all spaces after \"<\""@,
            *self is MissingXmlVersion ==> r@
                == "Cannot find version attribute in xml declaration"@,
            *self is MissingXmlEncoding ==> r@
                == "Cannot find encoding attribute in xml declaration"@,
            *self is NotATag ==> r@ == "Invalid tag"@,
            *self is UnclosedTag ==> r@ == "Tag is never closed"@,
    {
        match self {
            TagErrorReason::AllSpaceTagName => "Tag name cannot be all spaces after \"<\"",
            TagErrorReason::MissingXmlVersion => "Cannot find version attribute in xml declaration",
            TagErrorReason::MissingXmlEncoding => "Cannot find encoding attribute in xml declaration",
            TagErrorReason::NotATag => "Invalid tag",
            TagErrorReason::UnclosedTag => "Tag is never closed",
        }
    }
}

/// A tokenizing failure: the offending substring and the reason.
#[derive(Debug, Clone, PartialEq)]
pub enum ParseError {
    InvalidTag { tag: String, reason: TagErrorReason },
}

/// Ghost counterpart of [`ParseError`].
#[verifier::ext_equal]
pub enum ParseErrorV {
    InvalidTag { tag: Seq<char>, reason: TagErrorReason },
}

impl View for ParseError {
    type V = ParseErrorV;

    open spec fn view(&self) -> ParseErrorV {
        match self {
            ParseError::InvalidTag { tag, reason } => ParseErrorV::InvalidTag {
                tag: tag@,
                reason: *reason,
            },
        }
    }
}

/// One lexical unit of markup.
#[derive(Debug, Clone, PartialEq)]
pub enum Token {
    /// Like `<div>`, including `<img>`, `<input>`, etc.
    Start(String, Vec<(String, String)>),
    /// Like `</div>`
    End(String),
    /// Like `<div />`
    Closing(String, Vec<(String, String)>),
    /// Like `<!doctype html>`
    Doctype(Doctype),
    /// Like `<!-- comment -->`
    Comment(String),
    /// Any text
    Text(String),
}

/// Ghost counterpart of [`Token`].
#[verifier::ext_equal]
pub enum TokenV {
    Start(Seq<char>, Seq<(Seq<char>, Seq<char>)>),
    End(Seq<char>),
    Closing(Seq<char>, Seq<(Seq<char>, Seq<char>)>),
    Doctype(DoctypeV),
    Comment(Seq<char>),
    Text(Seq<char>),
}

impl View for Token {
    type V = TokenV;

    open spec fn view(&self) -> TokenV {
        match self {
            Token::Start(name, attrs) => TokenV::Start(name@, view_attrs(attrs@)),
            Token::End(name) => TokenV::End(name@),
            Token::Closing(name, attrs) => TokenV::Closing(name@, view_attrs(attrs@)),
            Token::Doctype(d) => TokenV::Doctype(d@),
            Token::Comment(c) => TokenV::Comment(c@),
            Token::Text(t) => TokenV::Text(t@),
        }
    }
}

/// The ghost value of a token sequence.
pub open spec fn view_tokens(ts: Seq<Token>) -> Seq<TokenV> {
    ts.map_values(|t: Token| t@)
}

/// `view_tokens` of a non-empty sequence, split at its last token.
pub proof fn lemma_view_tokens_snoc(ts: Seq<Token>)
    requires
        ts.len() > 0,
    ensures
        view_tokens(ts) == view_tokens(ts.drop_last()).push(ts.last()@),
{
    assert(view_tokens(ts) =~~= view_tokens(ts.drop_last()).push(ts.last()@));
}

/// Whether `tag` ends with `/>`.
pub open spec fn ends_self_closing(tag: Seq<char>) -> bool {
    tag.len() >= 2 && tag[tag.len() - 2] == '/' && tag[tag.len() - 1] == '>'
}

/// Whether `tag` starts with `</`.
pub open spec fn starts_end_tag(tag: Seq<char>) -> bool {
    tag.len() >= 2 && tag[0] == '<' && tag[1] == '/'
}

/// Whether `tag` starts with `<!--`.
pub open spec fn starts_comment(tag: Seq<char>) -> bool {
    tag.len() >= 4 && tag[0] == '<' && tag[1] == '!' && tag[2] == '-' && tag[3] == '-'
}

/// Whether `tag` starts with `<!`.
pub open spec fn starts_bang(tag: Seq<char>) -> bool {
    tag.len() >= 2 && tag[0] == '<' && tag[1] == '!'
}

/// Whether `tag` starts with `<?`.
pub open spec fn starts_question(tag: Seq<char>) -> bool {
    tag.len() >= 2 && tag[0] == '<' && tag[1] == '?'
}

/// The token that one complete tag substring classifies to, or the error
/// rejecting it.  This is the mathematical mirror of [`Token::from`].
pub open spec fn spec_token_from(tag: Seq<char>) -> Result<TokenV, ParseErrorV> {
    let len = tag.len() as int;
    if ends_self_closing(tag) {
        if len < 3 {
            Result::Err(ParseErrorV::InvalidTag { tag, reason: TagErrorReason::NotATag })
        } else {
            match find_not_char(tag, 1, len - 2, ' ') {
                Option::None => Result::Err(ParseErrorV::InvalidTag {
                    tag,
                    reason: TagErrorReason::AllSpaceTagName,
                }),
                Option::Some(start) => {
                    let end = match find_char(tag, start, len, ' ') {
                        Option::Some(e) => e,
                        Option::None => len - 2,
                    };
                    Result::Ok(TokenV::Closing(
                        tag.subrange(start, end),
                        spec_attrs(trim_ws(tag.subrange(end, len - 2))),
                    ))
                },
            }
        }
    } else if starts_end_tag(tag) {
        if len < 3 {
            Result::Err(ParseErrorV::InvalidTag { tag, reason: TagErrorReason::NotATag })
        } else {
            Result::Ok(TokenV::End(trim_ws(tag.subrange(2, len - 1))))
        }
    } else if starts_comment(tag) {
        if len < 7 {
            Result::Err(ParseErrorV::InvalidTag { tag, reason: TagErrorReason::NotATag })
        } else {
            Result::Ok(TokenV::Comment(tag.subrange(4, len - 3)))
        }
    } else if starts_bang(tag) {
        Result::Ok(TokenV::Doctype(DoctypeV::Html))
    } else if starts_question(tag) {
        if len < 4 {
            Result::Err(ParseErrorV::InvalidTag { tag, reason: TagErrorReason::NotATag })
        } else {
            let alist = spec_attrs(tag.subrange(2, len - 2));
            match attrs_lookup(alist, "version"@) {
                Option::None => Result::Err(ParseErrorV::InvalidTag {
                    tag,
                    reason: TagErrorReason::MissingXmlVersion,
                }),
                Option::Some(version) => match attrs_lookup(alist, "encoding"@) {
                    Option::None => Result::Err(ParseErrorV::InvalidTag {
                        tag,
                        reason: TagErrorReason::MissingXmlEncoding,
                    }),
                    Option::Some(encoding) => Result::Ok(TokenV::Doctype(DoctypeV::Xml {
                        version,
                        encoding,
                    })),
                },
            }
        }
    } else if tag.len() >= 1 && tag[0] == '<' {
        if len < 2 {
            Result::Err(ParseErrorV::InvalidTag { tag, reason: TagErrorReason::NotATag })
        } else {
            match find_non_ws(tag, 1, len - 1) {
                Option::None => Result::Err(ParseErrorV::InvalidTag {
                    tag,
                    reason: TagErrorReason::AllSpaceTagName,
                }),
                Option::Some(start) => {
                    let end = match find_ws(tag, start, len) {
                        Option::Some(e) => e,
                        Option::None => len - 1,
                    };
                    Result::Ok(TokenV::Start(
                        tag.subrange(start, end),
                        spec_attrs(trim_ws(tag.subrange(end, len - 1))),
                    ))
                },
            }
        }
    } else {
        Result::Err(ParseErrorV::InvalidTag { tag, reason: TagErrorReason::NotATag })
    }
}

/// The ghost value of a `Token::from` result.
pub open spec fn view_token_result(r: Result<Token, ParseError>) -> Result<TokenV, ParseErrorV> {
    match r {
        Result::Ok(t) => Result::Ok(t@),
        Result::Err(e) => Result::Err(e@),
    }
}

/// What a token stands for as a node.
pub open spec fn spec_token_to_node(t: TokenV) -> NodeV {
    match t {
        TokenV::Start(name, attrs) => NodeV::Element(ElementV {
            name,
            attrs,
            children: Seq::empty(),
        }),
        TokenV::End(name) => NodeV::Element(ElementV {
            name,
            attrs: Seq::empty(),
            children: Seq::empty(),
        }),
        TokenV::Closing(name, attrs) => NodeV::Element(ElementV {
            name,
            attrs,
            children: Seq::empty(),
        }),
        TokenV::Doctype(d) => NodeV::Doctype(d),
        TokenV::Comment(c) => NodeV::Comment(c),
        TokenV::Text(t) => NodeV::Text(t),
    }
}

impl Token {
    /// Classify one complete `<...>` substring.
    pub fn from(tag: String) -> (r: Result<Token, ParseError>)
        ensures
            view_token_result(r) == spec_token_from(tag@),
    {
        let s = tag.as_str();
        let len = s.unicode_len();
        if len >= 2 && s.get_char(len - 2) == '/' && s.get_char(len - 1) == '>' {
            if len < 3 {
                return Result::Err(ParseError::InvalidTag {
                    tag,
                    reason: TagErrorReason::NotATag,
                });
            }
            match find_not_char_at(s, 1, len - 2, ' ') {
                Option::None => Result::Err(ParseError::InvalidTag {
                    tag,
                    reason: TagErrorReason::AllSpaceTagName,
                }),
                Option::Some(start) => {
                    let end = match find_char_at(s, start, len, ' ') {
                        Option::Some(e) => e,
                        Option::None => len - 2,
                    };
                    proof {
                        lemma_find_char_bounds(s@, start as int, len as int, ' ');
                        lemma_find_not_char_bounds(s@, 1, len as int - 2, ' ');
                        assert(end <= len - 2);
                    }
                    let name = substring_string(s, start, end);
                    let inner = s.substring_char(end, len - 2);
                    let trimmed = trim_str(inner);
                    let alist = crate::attrs::parse(trimmed.as_str());
                    Result::Ok(Token::Closing(name, alist))
                },
            }
        } else if len >= 2 && s.get_char(0) == '<' && s.get_char(1) == '/' {
            if len < 3 {
                return Result::Err(ParseError::InvalidTag {
                    tag,
                    reason: TagErrorReason::NotATag,
                });
            }
            let inner = s.substring_char(2, len - 1);
            let name = trim_str(inner);
            Result::Ok(Token::End(name))
        } else if len >= 4 && s.get_char(0) == '<' && s.get_char(1) == '!' && s.get_char(2) == '-'
            && s.get_char(3) == '-' {
            if len < 7 {
                return Result::Err(ParseError::InvalidTag {
                    tag,
                    reason: TagErrorReason::NotATag,
                });
            }
            Result::Ok(Self::from_comment(tag))
        } else if len >= 2 && s.get_char(0) == '<' && s.get_char(1) == '!' {
            Result::Ok(Token::Doctype(Doctype::Html))
        } else if len >= 2 && s.get_char(0) == '<' && s.get_char(1) == '?' {
            if len < 4 {
                return Result::Err(ParseError::InvalidTag {
                    tag,
                    reason: TagErrorReason::NotATag,
                });
            }
            let inner = s.substring_char(2, len - 2);
            let alist = crate::attrs::parse(inner);
            let version = match crate::attrs::lookup_attr(&alist, "version") {
                Option::Some(v) => v,
                Option::None => {
                    return Result::Err(ParseError::InvalidTag {
                        tag,
                        reason: TagErrorReason::MissingXmlVersion,
                    });
                },
            };
            let encoding = match crate::attrs::lookup_attr(&alist, "encoding") {
                Option::Some(e) => e,
                Option::None => {
                    return Result::Err(ParseError::InvalidTag {
                        tag,
                        reason: TagErrorReason::MissingXmlEncoding,
                    });
                },
            };
            Result::Ok(Token::Doctype(Doctype::Xml { version, encoding }))
        } else if len >= 1 && s.get_char(0) == '<' {
            if len < 2 {
                return Result::Err(ParseError::InvalidTag {
                    tag,
                    reason: TagErrorReason::NotATag,
                });
            }
            match find_non_ws_at(s, 1, len - 1) {
                Option::None => Result::Err(ParseError::InvalidTag {
                    tag,
                    reason: TagErrorReason::AllSpaceTagName,
                }),
                Option::Some(start) => {
                    let end = match find_ws_at(s, start, len) {
                        Option::Some(e) => e,
                        Option::None => len - 1,
                    };
                    proof {
                        lemma_find_ws_bounds(s@, start as int, len as int);
                        lemma_find_non_ws_bounds(s@, 1, len as int - 1);
                        assert(end <= len - 1);
                    }
                    let name = substring_string(s, start, end);
                    let inner = s.substring_char(end, len - 1);
                    let trimmed = trim_str(inner);
                    let alist = crate::attrs::parse(trimmed.as_str());
                    Result::Ok(Token::Start(name, alist))
                },
            }
        } else {
            Result::Err(ParseError::InvalidTag { tag, reason: TagErrorReason::NotATag })
        }
    }

    /// Strip the `<!--` and `-->` delimiters off a complete comment
    /// substring; the interior is kept verbatim.
    pub fn from_comment(comment: String) -> (r: Token)
        requires
            comment@.len() >= 7,
        ensures
            r@ == TokenV::Comment(comment@.subrange(4, comment@.len() - 3)),
    {
        let s = comment.as_str();
        let len = s.unicode_len();
        let inner = substring_string(s, 4, len - 3);
        Token::Comment(inner)
    }

    /// Wrap a text run, decoding HTML character references.
    pub fn from_text(text: String) -> (r: Token)
        ensures
            r@ == TokenV::Text(decode_entities(text@)),
            !contains_char(text@, '&') ==> r@ == TokenV::Text(text@),
    {
        Token::Text(crate::escape::decode_entities_str(text.as_str()))
    }

    /// The node this token stands for, leaving the token in place.
    pub fn node(&self) -> (r: Node)
        ensures
            r@ == spec_token_to_node(self@),
    {
        match self {
            Token::Start(name, attrs) => {
                let r = Node::Element(Element {
                    name: clone_string(name),
                    attrs: clone_attrs(attrs),
                    children: Vec::new(),
                });
                proof {
                    assert(r@ =~~= spec_token_to_node(self@));
                }
                r
            },
            Token::End(name) => {
                let r = Node::Element(Element {
                    name: clone_string(name),
                    attrs: Vec::new(),
                    children: Vec::new(),
                });
                proof {
                    assert(view_attrs(Seq::<(String, String)>::empty()) =~= Seq::<(
                        Seq<char>,
                        Seq<char>,
                    )>::empty());
                    assert(r@ =~~= spec_token_to_node(self@));
                }
                r
            },
            Token::Closing(name, attrs) => {
                let r = Node::Element(Element {
                    name: clone_string(name),
                    attrs: clone_attrs(attrs),
                    children: Vec::new(),
                });
                proof {
                    assert(r@ =~~= spec_token_to_node(self@));
                }
                r
            },
            Token::Doctype(d) => {
                let r = match d {
                    Doctype::Html => Node::Doctype(Doctype::Html),
                    Doctype::Xml { version, encoding } => Node::Doctype(Doctype::Xml {
                        version: clone_string(version),
                        encoding: clone_string(encoding),
                    }),
                };
                proof {
                    assert(r@ =~~= spec_token_to_node(self@));
                }
                r
            },
            Token::Comment(c) => Node::Comment(clone_string(c)),
            Token::Text(t) => Node::Text(clone_string(t)),
        }
    }

    /// The node this token stands for, consuming the token.
    pub fn into_node(self) -> (r: Node)
        ensures
            r@ == spec_token_to_node(self@),
    {
        let ghost tv = self@;
        match self {
            Token::Start(name, attrs) => {
                let r = Node::Element(Element { name, attrs, children: Vec::new() });
                proof {
                    assert(r@ =~~= spec_token_to_node(tv));
                }
                r
            },
            Token::End(name) => {
                let r = Node::Element(Element { name, attrs: Vec::new(), children: Vec::new() });
                proof {
                    assert(view_attrs(Seq::<(String, String)>::empty()) =~= Seq::<(
                        Seq<char>,
                        Seq<char>,
                    )>::empty());
                    assert(r@ =~~= spec_token_to_node(tv));
                }
                r
            },
            Token::Closing(name, attrs) => {
                let r = Node::Element(Element { name, attrs, children: Vec::new() });
                proof {
                    assert(r@ =~~= spec_token_to_node(tv));
                }
                r
            },
            Token::Doctype(d) => Node::Doctype(d),
            Token::Comment(c) => Node::Comment(c),
            Token::Text(t) => Node::Text(t),
        }
    }

    /// The element a tag token stands for, consuming the token.
    ///
    /// Only `Start`, `End` and `Closing` tokens describe an element; calling
    /// this on a doctype, comment or text token is a contract violation.
    pub fn into_element(self) -> (r: Element)
        requires
            self is Start || self is End || self is Closing,
        ensures
            NodeV::Element(r@) == spec_token_to_node(self@),
    {
        let ghost tv = self@;
        match self {
            Token::Start(name, attrs) => {
                let r = Element { name, attrs, children: Vec::new() };
                proof {
                    assert(NodeV::Element(r@) =~~= spec_token_to_node(tv));
                }
                r
            },
            Token::End(name) => {
                let r = Element { name, attrs: Vec::new(), children: Vec::new() };
                proof {
                    assert(view_attrs(Seq::<(String, String)>::empty()) =~= Seq::<(
                        Seq<char>,
                        Seq<char>,
                    )>::empty());
                    assert(NodeV::Element(r@) =~~= spec_token_to_node(tv));
                }
                r
            },
            Token::Closing(name, attrs) => {
                let r = Element { name, attrs, children: Vec::new() };
                proof {
                    assert(NodeV::Element(r@) =~~= spec_token_to_node(tv));
                }
                r
            },
            _ => vstd::pervasive::unreached(),
        }
    }
}

} // verus!
