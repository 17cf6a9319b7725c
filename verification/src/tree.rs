//! Folding the token stream into a tree of nodes.
//!
//! The builder keeps a stack of currently open elements (innermost last)
//! and the finished top-level nodes.  A start tag pushes an element; a
//! self-closing tag, and a start tag of a void name, appends a completed
//! childless element; doctypes, comments and text append as leaves.  An end
//! tag closes open elements down to and including the innermost one of the
//! same name; an end tag matching nothing open is ignored.  At the end of
//! the stream every still-open element is implicitly closed, innermost
//! first.

use vstd::prelude::*;
use vstd::string::StrSliceExecFns;
use crate::dom::{
    clone_attrs, clone_string, is_void_name, is_void_tag, view_element, view_node, view_nodes,
    Element, ElementV, Node, NodeV,
};
use crate::scan::str_eq;
use crate::token::{view_tokens, ParseError, ParseErrorV, Token, TokenV};
use crate::tokenizer::{spec_tokenize, tokenize};

verus! {

/// The state of the tree builder: open elements (innermost last) and the
/// finished top-level nodes.
#[verifier::ext_equal]
pub struct BuilderV {
    pub stack: Seq<ElementV>,
    pub done: Seq<NodeV>,
}

/// A finished node joins the children of the innermost open element, or the
/// top-level sequence when nothing is open.
pub open spec fn append_node_v(st: BuilderV, n: NodeV) -> BuilderV {
    if st.stack.len() == 0 {
        BuilderV { stack: st.stack, done: st.done.push(n) }
    } else {
        let top = st.stack.last();
        let top2 = ElementV {
            name: top.name,
            attrs: top.attrs,
            children: top.children.push(n),
        };
        BuilderV { stack: st.stack.drop_last().push(top2), done: st.done }
    }
}

/// Close the innermost open element: it becomes a finished node of its
/// parent.
pub open spec fn close_one_v(st: BuilderV) -> BuilderV {
    if st.stack.len() == 0 {
        st
    } else {
        append_node_v(
            BuilderV { stack: st.stack.drop_last(), done: st.done },
            NodeV::Element(st.stack.last()),
        )
    }
}

/// Whether some open element carries `name`.
pub open spec fn stack_has_name(stack: Seq<ElementV>, name: Seq<char>) -> bool {
    exists|j: int| 0 <= j < stack.len() && stack[j].name == name
}

/// What an end tag does: close open elements down to and including the
/// innermost one named `name`; ignore the tag when nothing open matches.
pub open spec fn apply_end_v(st: BuilderV, name: Seq<char>) -> BuilderV
    decreases st.stack.len(),
{
    if st.stack.len() == 0 || !stack_has_name(st.stack, name) {
        st
    } else if st.stack.last().name == name {
        close_one_v(st)
    } else {
        apply_end_v(close_one_v(st), name)
    }
}

/// One token applied to the builder state.
pub open spec fn apply_token_v(st: BuilderV, t: TokenV) -> BuilderV {
    match t {
        TokenV::Start(name, attrs) => if is_void_name(name) {
            append_node_v(
                st,
                NodeV::Element(ElementV { name, attrs, children: Seq::empty() }),
            )
        } else {
            BuilderV {
                stack: st.stack.push(ElementV { name, attrs, children: Seq::empty() }),
                done: st.done,
            }
        },
        TokenV::Closing(name, attrs) => append_node_v(
            st,
            NodeV::Element(ElementV { name, attrs, children: Seq::empty() }),
        ),
        TokenV::End(name) => apply_end_v(st, name),
        TokenV::Doctype(d) => append_node_v(st, NodeV::Doctype(d)),
        TokenV::Comment(c) => append_node_v(st, NodeV::Comment(c)),
        TokenV::Text(t0) => append_node_v(st, NodeV::Text(t0)),
    }
}

/// A token sequence applied in order.
pub open spec fn apply_tokens_v(st: BuilderV, ts: Seq<TokenV>) -> BuilderV
    decreases ts.len(),
{
    if ts.len() == 0 {
        st
    } else {
        apply_token_v(apply_tokens_v(st, ts.drop_last()), ts.last())
    }
}

/// End of stream: every still-open element is implicitly closed, innermost
/// first.
pub open spec fn finish_v(st: BuilderV) -> Seq<NodeV>
    decreases st.stack.len(),
{
    if st.stack.len() == 0 {
        st.done
    } else {
        finish_v(close_one_v(st))
    }
}

/// The builder before any token.
pub open spec fn empty_builder() -> BuilderV {
    BuilderV { stack: Seq::empty(), done: Seq::empty() }
}

/// The tree a token sequence builds.  This is the mathematical mirror of
/// [`build_tree`].
pub open spec fn spec_build(ts: Seq<TokenV>) -> Seq<NodeV> {
    finish_v(apply_tokens_v(empty_builder(), ts))
}

/// The tree a whole document parses to, or the tokenizing error.
pub open spec fn spec_parse(s: Seq<char>) -> Result<Seq<NodeV>, ParseErrorV> {
    match spec_tokenize(s) {
        Result::Ok(ts) => Result::Ok(spec_build(ts)),
        Result::Err(e) => Result::Err(e),
    }
}

/// The ghost value of an open-element stack.
pub open spec fn view_stack(es: Seq<Element>) -> Seq<ElementV> {
    es.map_values(|e: Element| view_element(e))
}

/// The ghost value of the whole builder state.
pub open spec fn builder_view(stack: Seq<Element>, done: Seq<Node>) -> BuilderV {
    BuilderV { stack: view_stack(stack), done: view_nodes(done) }
}

/// `view_stack` of a non-empty stack, split at its top.
pub proof fn lemma_view_stack_snoc(es: Seq<Element>)
    requires
        es.len() > 0,
    ensures
        view_stack(es) == view_stack(es.drop_last()).push(view_element(es.last())),
{
    assert(view_stack(es) =~~= view_stack(es.drop_last()).push(view_element(es.last())));
}

/// `view_stack` taken one element at a time.
pub proof fn lemma_view_stack_push(es: Seq<Element>, e: Element)
    ensures
        view_stack(es.push(e)) == view_stack(es).push(view_element(e)),
{
    assert(view_stack(es.push(e)) =~~= view_stack(es).push(view_element(e)));
}

/// Append one finished node to the builder state.
fn append_node(stack: &mut Vec<Element>, done: &mut Vec<Node>, n: Node)
    ensures
        builder_view(final(stack)@, final(done)@) == append_node_v(
            builder_view(old(stack)@, old(done)@),
            view_node(n),
        ),
{
    let ghost nv = view_node(n);
    if stack.len() == 0 {
        proof {
            assert(view_stack(stack@).len() == 0);
        }
        done.push(n);
        proof {
            crate::dom::lemma_view_nodes_push(old(done)@, n);
            assert(done@ == old(done)@.push(n));
            assert(builder_view(stack@, done@) =~~= append_node_v(
                builder_view(old(stack)@, old(done)@),
                nv,
            ));
        }
    } else {
        let ghost st0 = builder_view(stack@, done@);
        let mut e = match stack.pop() {
            Option::Some(e) => e,
            Option::None => vstd::pervasive::unreached(),
        };
        let ghost e0 = e;
        e.children.push(n);
        proof {
            crate::dom::lemma_view_nodes_push(e0.children@, n);
            assert(view_element(e) =~~= ElementV {
                name: view_element(e0).name,
                attrs: view_element(e0).attrs,
                children: view_element(e0).children.push(nv),
            });
        }
        stack.push(e);
        proof {
            lemma_view_stack_snoc(old(stack)@);
            lemma_view_stack_push(old(stack)@.drop_last(), e);
            assert(view_stack(stack@) =~~= view_stack(old(stack)@.drop_last()).push(
                view_element(e),
            ));
            assert(builder_view(stack@, done@) =~~= append_node_v(st0, nv));
        }
    }
}

/// Whether some open element carries `name`.
fn stack_has(stack: &Vec<Element>, name: &str) -> (r: bool)
    ensures
        r == stack_has_name(view_stack(stack@), name@),
{
    let mut i: usize = 0;
    while i < stack.len()
        invariant
            i <= stack.len(),
            forall|j: int| 0 <= j < i ==> view_stack(stack@)[j].name != name@,
        decreases stack.len() - i,
    {
        if str_eq(stack[i].name.as_str(), name) {
            proof {
                assert(view_stack(stack@)[i as int].name == name@);
            }
            return true;
        }
        proof {
            assert(view_stack(stack@)[i as int].name == stack@[i as int].name@);
        }
        i += 1;
    }
    false
}

/// Consume the token stream in order and assemble the document forest.
pub fn build_tree(tokens: Vec<Token>) -> (r: Vec<Node>)
    ensures
        view_nodes(r@) == spec_build(view_tokens(tokens@)),
{
    let ghost tvs = view_tokens(tokens@);
    let mut stack: Vec<Element> = Vec::new();
    let mut done: Vec<Node> = Vec::new();
    proof {
        assert(builder_view(stack@, done@) =~~= empty_builder());
    }
    let mut idx: usize = 0;
    while idx < tokens.len()
        invariant
            idx <= tokens.len(),
            tvs == view_tokens(tokens@),
            tvs.len() == tokens@.len(),
            builder_view(stack@, done@) == apply_tokens_v(empty_builder(), tvs.take(idx as int)),
        decreases tokens.len() - idx,
    {
        let ghost st0 = builder_view(stack@, done@);
        let ghost tv = tvs[idx as int];
        proof {
            assert(tv == tokens@[idx as int]@);
            assert(tvs.take(idx as int + 1).drop_last() =~= tvs.take(idx as int));
            assert(tvs.take(idx as int + 1).last() == tv);
        }
        match &tokens[idx] {
            Token::Start(name, attrs) => {
                if is_void_tag(name.as_str()) {
                    let e = Element {
                        name: clone_string(name),
                        attrs: clone_attrs(attrs),
                        children: Vec::new(),
                    };
                    proof {
                        assert(view_node(Node::Element(e)) =~~= NodeV::Element(ElementV {
                            name: name@,
                            attrs: crate::dom::view_attrs(attrs@),
                            children: Seq::empty(),
                        }));
                    }
                    append_node(&mut stack, &mut done, Node::Element(e));
                } else {
                    let e = Element {
                        name: clone_string(name),
                        attrs: clone_attrs(attrs),
                        children: Vec::new(),
                    };
                    proof {
                        assert(view_element(e) =~~= ElementV {
                            name: name@,
                            attrs: crate::dom::view_attrs(attrs@),
                            children: Seq::empty(),
                        });
                        lemma_view_stack_push(stack@, e);
                    }
                    stack.push(e);
                    proof {
                        assert(builder_view(stack@, done@) =~~= apply_token_v(st0, tv));
                    }
                }
            },
            Token::Closing(name, attrs) => {
                let e = Element {
                    name: clone_string(name),
                    attrs: clone_attrs(attrs),
                    children: Vec::new(),
                };
                proof {
                    assert(view_node(Node::Element(e)) =~~= NodeV::Element(ElementV {
                        name: name@,
                        attrs: crate::dom::view_attrs(attrs@),
                        children: Seq::empty(),
                    }));
                }
                append_node(&mut stack, &mut done, Node::Element(e));
            },
            Token::End(name) => {
                if stack_has(&stack, name.as_str()) {
                    let ghost gname = name@;
                    let mut matched = false;
                    while !matched
                        invariant
                            gname == name@,
                            !matched ==> stack_has_name(view_stack(stack@), gname),
                            apply_end_v(st0, gname) == (if matched {
                                builder_view(stack@, done@)
                            } else {
                                apply_end_v(builder_view(stack@, done@), gname)
                            }),
                        decreases stack@.len(),
                    {
                        let ghost pre = stack@;
                        let ghost cur = builder_view(stack@, done@);
                        proof {
                            assert(view_stack(pre).len() == pre.len());
                            assert(pre.len() > 0);
                        }
                        let e = match stack.pop() {
                            Option::Some(e) => e,
                            Option::None => vstd::pervasive::unreached(),
                        };
                        let ghost ename = e.name@;
                        proof {
                            assert(e == pre.last());
                            lemma_view_stack_snoc(pre);
                            assert(view_stack(pre).drop_last() =~~= view_stack(pre.drop_last()));
                            assert(view_stack(pre).last() == view_element(e));
                            assert(cur.stack == view_stack(pre));
                            assert(cur.stack.last().name == ename);
                        }
                        let en = e.name.as_str();
                        let tn = name.as_str();
                        proof {
                            assert(en@ == ename);
                            assert(tn@ == gname);
                        }
                        matched = str_eq(en, tn);
                        proof {
                            assert(matched == (ename == gname));
                        }
                        append_node(&mut stack, &mut done, Node::Element(e));
                        proof {
                            assert(builder_view(stack@, done@) =~~= close_one_v(cur));
                            assert(view_stack(stack@).len() == stack@.len());
                            assert(stack@.len() < pre.len());
                            if matched {
                                // closing the matching innermost element ends
                                // the walk
                                assert(cur.stack.last().name == gname);
                                assert(apply_end_v(cur, gname) == close_one_v(cur));
                            } else {
                                // an inner element of another name is closed
                                // implicitly; the match is still below
                                assert(cur.stack.last().name != gname);
                                assert(apply_end_v(cur, gname) == apply_end_v(
                                    close_one_v(cur),
                                    gname,
                                ));
                                let j0 = choose|j: int|
                                    0 <= j < cur.stack.len() && cur.stack[j].name == gname;
                                assert(j0 < cur.stack.len() - 1);
                                let now = builder_view(stack@, done@);
                                assert(now.stack.len() == cur.stack.len() - 1);
                                assert(now.stack[j0] == close_one_v(cur).stack[j0]);
                                assert(now.stack[j0].name == gname);
                                assert(stack_has_name(now.stack, gname));
                            }
                        }
                    }
                    proof {
                        assert(builder_view(stack@, done@) == apply_end_v(st0, gname));
                    }
                } else {
                    proof {
                        assert(apply_end_v(st0, name@) == st0);
                    }
                }
            },
            Token::Doctype(_) | Token::Comment(_) | Token::Text(_) => {
                let nd = tokens[idx].node();
                append_node(&mut stack, &mut done, nd);
                proof {
                    assert(builder_view(stack@, done@) =~~= apply_token_v(st0, tv));
                }
            },
        }
        proof {
            assert(builder_view(stack@, done@) == apply_token_v(st0, tv));
            assert(apply_tokens_v(empty_builder(), tvs.take(idx as int + 1)) == apply_token_v(
                st0,
                tv,
            ));
        }
        idx += 1;
    }
    proof {
        assert(tvs.take(tvs.len() as int) =~= tvs);
    }
    while stack.len() > 0
        invariant
            finish_v(builder_view(stack@, done@)) == spec_build(tvs),
        decreases stack@.len(),
    {
        let ghost pre = stack@;
        let ghost cur = builder_view(stack@, done@);
        let e = match stack.pop() {
            Option::Some(e) => e,
            Option::None => vstd::pervasive::unreached(),
        };
        proof {
            assert(e == pre.last());
            lemma_view_stack_snoc(pre);
            assert(view_stack(pre).drop_last() =~~= view_stack(pre.drop_last()));
            assert(view_stack(pre).last() == view_element(e));
            assert(cur.stack.len() == pre.len());
        }
        append_node(&mut stack, &mut done, Node::Element(e));
        proof {
            assert(builder_view(stack@, done@) =~~= close_one_v(cur));
            assert(finish_v(cur) == finish_v(close_one_v(cur)));
        }
    }
    proof {
        assert(finish_v(builder_view(stack@, done@)) == view_nodes(done@));
    }
    done
}

/// Parse a whole markup document into its top-level nodes.
pub fn parse(html: &str) -> (r: Result<Vec<Node>, ParseError>)
    ensures
        match r {
            Result::Ok(ns) => spec_parse(html@) == Result::<Seq<NodeV>, ParseErrorV>::Ok(
                view_nodes(ns@),
            ),
            Result::Err(e) => spec_parse(html@) == Result::<Seq<NodeV>, ParseErrorV>::Err(e@),
        },
{
    match tokenize(html) {
        Result::Err(e) => Result::Err(e),
        Result::Ok(ts) => Result::Ok(build_tree(ts)),
    }
}

} // verus!
