//! Laws of the parse/serialize engine, each proved once and for all.
//!
//! The statements here relate the spec-level models that the executable
//! functions are proved against: the serializer model in [`crate::html`],
//! the tag classifier in [`crate::token`] and the tree builder in
//! [`crate::tree`].

use vstd::prelude::*;
use crate::dom::{is_void_name, ElementV, NodeV};
use crate::html::{
    is_raw_name, spec_attrs_str, spec_html_element, spec_html_node, spec_html_raw_children,
};
use crate::token::{spec_token_from, starts_comment, starts_end_tag, ends_self_closing, TokenV};
use crate::tree::{
    append_node_v, apply_end_v, apply_token_v, apply_tokens_v, close_one_v, empty_builder,
    finish_v, spec_build, stack_has_name, BuilderV,
};

verus! {

/// Void tags never render their children: a void element serializes exactly
/// as the same element with no children at all, whatever was erroneously
/// put inside it.
pub proof fn lemma_void_children_ignored(e: ElementV)
    requires
        is_void_name(e.name),
    ensures
        spec_html_element(e) == spec_html_element(
            ElementV { name: e.name, attrs: e.attrs, children: Seq::empty() },
        ),
{
}

/// Void tags never emit a closing tag: the whole rendering of a void
/// element is one single tag.
pub proof fn lemma_void_no_closing_tag(e: ElementV)
    requires
        is_void_name(e.name),
    ensures
        e.attrs.len() == 0 ==> spec_html_element(e) == "<"@ + e.name + ">"@,
        e.attrs.len() > 0 ==> spec_html_element(e) == "<"@ + e.name + " "@ + spec_attrs_str(
            e.attrs,
        ) + ">"@,
{
}

/// The text inside a `style`/`script` element is serialized verbatim, with
/// no entity escaping.
pub proof fn lemma_raw_text_unescaped(name: Seq<char>, t: Seq<char>)
    requires
        is_raw_name(name),
    ensures
        spec_html_element(ElementV { name, attrs: Seq::empty(), children: seq![NodeV::Text(t)] })
            == "<"@ + name + ">"@ + t + "</"@ + name + ">"@,
{
    lemma_raw_names_not_void(name);
    let cs = seq![NodeV::Text(t)];
    assert(cs.drop_last() =~= Seq::<NodeV>::empty());
    assert(spec_html_raw_children(Seq::<NodeV>::empty()) =~= Seq::<char>::empty());
    assert(cs.last() == NodeV::Text(t));
    assert(spec_html_raw_children(cs) =~= Seq::<char>::empty() + t);
    assert("<"@ + name + ">"@ + (Seq::<char>::empty() + t) + "</"@ + name + ">"@ =~= "<"@ + name
        + ">"@ + t + "</"@ + name + ">"@);
}

/// `style` and `script` are not void tags.
pub proof fn lemma_raw_names_not_void(name: Seq<char>)
    requires
        is_raw_name(name),
    ensures
        !is_void_name(name),
{
    reveal_strlit("style");
    reveal_strlit("script");
    reveal_strlit("area");
    reveal_strlit("base");
    reveal_strlit("br");
    reveal_strlit("col");
    reveal_strlit("command");
    reveal_strlit("embed");
    reveal_strlit("hr");
    reveal_strlit("img");
    reveal_strlit("input");
    reveal_strlit("keygen");
    reveal_strlit("link");
    reveal_strlit("meta");
    reveal_strlit("param");
    reveal_strlit("source");
    reveal_strlit("track");
    reveal_strlit("wbr");
    assert(("style"@)[0] == 's' && ("script"@)[0] == 's');
    assert(("embed"@)[0] == 'e' && ("input"@)[0] == 'i' && ("param"@)[0] == 'p' && ("track"@)[0]
        == 't');
    assert(("keygen"@)[0] == 'k' && ("source"@)[1] == 'o' && ("script"@)[1] == 'c');
    assert(("style"@).len() == 5 && ("script"@).len() == 6);
    assert(("area"@).len() == 4 && ("base"@).len() == 4 && ("br"@).len() == 2 && ("col"@).len()
        == 3 && ("command"@).len() == 7 && ("embed"@).len() == 5 && ("hr"@).len() == 2 && (
    "img"@).len() == 3 && ("input"@).len() == 5 && ("keygen"@).len() == 6 && ("link"@).len() == 4
        && ("meta"@).len() == 4 && ("param"@).len() == 5 && ("source"@).len() == 6 && (
    "track"@).len() == 5 && ("wbr"@).len() == 3);
}

/// Comment passthrough: a comment node serializes to `<!--content-->`
/// verbatim, and classifying that very substring gives the comment token
/// with the identical content, whatever it holds.
pub proof fn lemma_comment_round_trip(c: Seq<char>)
    ensures
        spec_html_node(NodeV::Comment(c)) == "<!--"@ + c + "-->"@,
        spec_token_from("<!--"@ + c + "-->"@) == Result::<TokenV, crate::token::ParseErrorV>::Ok(
            TokenV::Comment(c),
        ),
{
    reveal_strlit("<!--");
    reveal_strlit("-->");
    let s = "<!--"@ + c + "-->"@;
    assert(s.len() == c.len() + 7);
    assert(s[0] == '<');
    assert(s[1] == '!');
    assert(s[2] == '-');
    assert(s[3] == '-');
    assert(s[s.len() - 2] == '-');
    assert(s[s.len() - 1] == '>');
    assert(!ends_self_closing(s));
    assert(!starts_end_tag(s));
    assert(starts_comment(s));
    assert(s.subrange(4, s.len() - 3) =~= c);
}

/// The tag-level slice of the parse/serialize round trip: the serializer
/// opens a plain element with `<name>` and closes it with `</name>`, and
/// classifying those very substrings gives back exactly the start token
/// (with an empty attribute list) and the end token of that name.  `name`
/// may be any tag name free of whitespace whose edge characters select no
/// other tag shape.
pub proof fn lemma_plain_tag_tokens(name: Seq<char>)
    requires
        name.len() > 0,
        forall|k: int| 0 <= k < name.len() ==> !crate::scan::is_ws(name[k]),
        name[0] != '/',
        name[0] != '!',
        name[0] != '?',
        name[name.len() - 1] != '/',
    ensures
        spec_token_from("<"@ + name + ">"@) == Result::<TokenV, crate::token::ParseErrorV>::Ok(
            TokenV::Start(name, Seq::empty()),
        ),
        spec_token_from("</"@ + name + ">"@) == Result::<TokenV, crate::token::ParseErrorV>::Ok(
            TokenV::End(name),
        ),
{
    reveal_strlit("<");
    reveal_strlit(">");
    reveal_strlit("</");
    let n = name.len() as int;
    lemma_trim_clean(name);

    let s = "<"@ + name + ">"@;
    assert(s.len() == n + 2);
    assert(s[0] == '<');
    assert(s[1] == name[0]);
    assert(s[s.len() - 2] == name[n - 1]);
    assert(s[s.len() - 1] == '>');
    assert(!ends_self_closing(s));
    assert(!starts_end_tag(s));
    assert(!starts_comment(s));
    assert(crate::scan::find_non_ws(s, 1, n + 1) == Option::Some(1int));
    assert(crate::scan::find_ws(s, 1, n + 2) is None) by {
        assert(forall|k: int| 1 <= k < n + 2 ==> !crate::scan::is_ws(s[k])) by {
            assert(forall|k: int| 1 <= k < n + 1 ==> s[k] == name[k - 1]);
            assert(s[n + 1] == '>');
        }
        crate::scan::lemma_find_ws_none(s, 1, n + 2);
    }
    assert(s.subrange(1, n + 1) =~= name);
    assert(s.subrange(n + 1, n + 1) =~= Seq::<char>::empty());
    lemma_empty_attr_region();

    let s2 = "</"@ + name + ">"@;
    assert(s2.len() == n + 3);
    assert(s2[0] == '<');
    assert(s2[1] == '/');
    assert(s2[s2.len() - 2] == name[n - 1]);
    assert(s2[s2.len() - 1] == '>');
    assert(!ends_self_closing(s2));
    assert(starts_end_tag(s2));
    assert(s2.subrange(2, n + 2) =~= name);
}

/// A whitespace-free, non-empty tag name trims to itself.
proof fn lemma_trim_clean(name: Seq<char>)
    requires
        name.len() > 0,
        forall|k: int| 0 <= k < name.len() ==> !crate::scan::is_ws(name[k]),
    ensures
        crate::scan::trim_ws(name) == name,
{
    let n = name.len() as int;
    assert(crate::scan::find_non_ws(name, 0, n) == Option::Some(0int));
    assert(crate::scan::rfind_non_ws(name, n) == Option::Some(n - 1));
    assert(name.subrange(0, n) =~= name);
}

/// An empty attribute region parses to the empty attribute list.
proof fn lemma_empty_attr_region()
    ensures
        crate::scan::trim_ws(Seq::<char>::empty()) == Seq::<char>::empty(),
        crate::attrs::spec_attrs(Seq::<char>::empty()) == Seq::<(Seq<char>, Seq<char>)>::empty(),
{
    assert(crate::scan::find_non_ws(Seq::<char>::empty(), 0, 0) is None);
    assert(crate::scan::trim_ws(Seq::<char>::empty()) =~= Seq::<char>::empty());
    assert(crate::attrs::spec_attrs_from(Seq::<char>::empty(), 0)
        =~= Seq::<(Seq<char>, Seq<char>)>::empty());
}

/// Whether a tree holds only node kinds the token stream can express: no
/// raw-passthrough nodes, and void elements childless.
pub open spec fn wf_node(n: NodeV) -> bool
    decreases n,
{
    match n {
        NodeV::Element(e) => if is_void_name(e.name) {
            e.children.len() == 0
        } else {
            wf_nodes(e.children)
        },
        NodeV::RawHTML(_) => false,
        _ => true,
    }
}

pub open spec fn wf_nodes(ns: Seq<NodeV>) -> bool
    decreases ns,
{
    if ns.len() == 0 {
        true
    } else {
        wf_nodes(ns.drop_last()) && wf_node(ns.last())
    }
}

/// The token stream a tree stands for: a start tag, the children's tokens
/// and an end tag for each element (a lone start tag for a void one), and
/// one leaf token for every other node.
pub open spec fn tokens_of_node(n: NodeV) -> Seq<TokenV>
    decreases n,
{
    match n {
        NodeV::Element(e) => if is_void_name(e.name) {
            seq![TokenV::Start(e.name, e.attrs)]
        } else {
            seq![TokenV::Start(e.name, e.attrs)] + tokens_of_nodes(e.children) + seq![
                TokenV::End(e.name),
            ]
        },
        NodeV::Text(t) => seq![TokenV::Text(t)],
        NodeV::Comment(c) => seq![TokenV::Comment(c)],
        NodeV::Doctype(d) => seq![TokenV::Doctype(d)],
        NodeV::RawHTML(_) => Seq::empty(),
    }
}

pub open spec fn tokens_of_nodes(ns: Seq<NodeV>) -> Seq<TokenV>
    decreases ns,
{
    if ns.len() == 0 {
        Seq::empty()
    } else {
        tokens_of_nodes(ns.drop_last()) + tokens_of_node(ns.last())
    }
}

/// A sequence of finished nodes appended one after the other.
pub open spec fn append_nodes_v(st: BuilderV, ns: Seq<NodeV>) -> BuilderV
    decreases ns,
{
    if ns.len() == 0 {
        st
    } else {
        append_node_v(append_nodes_v(st, ns.drop_last()), ns.last())
    }
}

/// Applying a concatenation of token sequences applies them in turn.
pub proof fn lemma_apply_concat(st: BuilderV, a: Seq<TokenV>, b: Seq<TokenV>)
    ensures
        apply_tokens_v(st, a + b) == apply_tokens_v(apply_tokens_v(st, a), b),
    decreases b.len(),
{
    if b.len() == 0 {
        assert(a + b =~= a);
    } else {
        lemma_apply_concat(st, a, b.drop_last());
        assert((a + b).drop_last() =~= a + b.drop_last());
        assert((a + b).last() == b.last());
    }
}

/// Appending finished nodes while an element is open grows that element's
/// children, and nothing else.
pub proof fn lemma_append_nodes_top(
    stk: Seq<ElementV>,
    dn: Seq<NodeV>,
    top: ElementV,
    cs: Seq<NodeV>,
)
    ensures
        append_nodes_v(BuilderV { stack: stk.push(top), done: dn }, cs) == (BuilderV {
            stack: stk.push(
                ElementV { name: top.name, attrs: top.attrs, children: top.children + cs },
            ),
            done: dn,
        }),
    decreases cs.len(),
{
    if cs.len() == 0 {
        assert(top.children + cs =~= top.children);
        assert(BuilderV { stack: stk.push(top), done: dn } =~~= BuilderV {
            stack: stk.push(
                ElementV { name: top.name, attrs: top.attrs, children: top.children + cs },
            ),
            done: dn,
        });
    } else {
        lemma_append_nodes_top(stk, dn, top, cs.drop_last());
        let mid_top = ElementV {
            name: top.name,
            attrs: top.attrs,
            children: top.children + cs.drop_last(),
        };
        let mid = BuilderV { stack: stk.push(mid_top), done: dn };
        assert(append_nodes_v(BuilderV { stack: stk.push(top), done: dn }, cs) == append_node_v(
            mid,
            cs.last(),
        ));
        assert(mid.stack.last() == mid_top);
        assert(mid.stack.drop_last() =~= stk);
        assert((top.children + cs.drop_last()).push(cs.last()) =~= top.children + cs);
        assert(append_node_v(mid, cs.last()) =~~= BuilderV {
            stack: stk.push(
                ElementV { name: top.name, attrs: top.attrs, children: top.children + cs },
            ),
            done: dn,
        });
    }
}

/// Appending finished nodes with nothing open grows the top-level sequence.
pub proof fn lemma_append_nodes_toplevel(dn: Seq<NodeV>, ns: Seq<NodeV>)
    ensures
        append_nodes_v(BuilderV { stack: Seq::empty(), done: dn }, ns) == (BuilderV {
            stack: Seq::empty(),
            done: dn + ns,
        }),
    decreases ns.len(),
{
    if ns.len() == 0 {
        assert(dn + ns =~= dn);
        assert(BuilderV { stack: Seq::<ElementV>::empty(), done: dn } =~~= BuilderV {
            stack: Seq::empty(),
            done: dn + ns,
        });
    } else {
        lemma_append_nodes_toplevel(dn, ns.drop_last());
        assert((dn + ns.drop_last()).push(ns.last()) =~= dn + ns);
        assert(append_node_v(
            BuilderV { stack: Seq::<ElementV>::empty(), done: dn + ns.drop_last() },
            ns.last(),
        ) =~~= BuilderV { stack: Seq::empty(), done: dn + ns });
    }
}

/// The tree builder undoes the token stream of one well-formed node: its
/// tokens, applied to any state, append exactly that node.
pub proof fn lemma_build_node(st: BuilderV, n: NodeV)
    requires
        wf_node(n),
    ensures
        apply_tokens_v(st, tokens_of_node(n)) == append_node_v(st, n),
    decreases n,
{
    match n {
        NodeV::Element(e) => {
            if is_void_name(e.name) {
                let toks = seq![TokenV::Start(e.name, e.attrs)];
                assert(toks.drop_last() =~= Seq::<TokenV>::empty());
                assert(apply_tokens_v(st, Seq::<TokenV>::empty()) == st);
                assert(toks.last() == TokenV::Start(e.name, e.attrs));
                assert(apply_tokens_v(st, toks) == apply_token_v(st, toks.last()));
                assert(e.children =~= Seq::<NodeV>::empty());
                assert(ElementV { name: e.name, attrs: e.attrs, children: Seq::empty() } =~~= e);
            } else {
                let start = seq![TokenV::Start(e.name, e.attrs)];
                let ctoks = tokens_of_nodes(e.children);
                let end = seq![TokenV::End(e.name)];
                assert(tokens_of_node(n) == start + ctoks + end);
                lemma_apply_concat(st, start + ctoks, end);
                lemma_apply_concat(st, start, ctoks);
                assert(start.drop_last() =~= Seq::<TokenV>::empty());
                assert(apply_tokens_v(st, Seq::<TokenV>::empty()) == st);
                assert(start.last() == TokenV::Start(e.name, e.attrs));
                let opened = ElementV { name: e.name, attrs: e.attrs, children: Seq::empty() };
                let st1 = BuilderV { stack: st.stack.push(opened), done: st.done };
                assert(apply_tokens_v(st, start) == apply_token_v(st, start.last()));
                assert(apply_tokens_v(st, start) == st1);
                lemma_build_nodes_into(st1, e.children);
                lemma_append_nodes_top(st.stack, st.done, opened, e.children);
                let full = ElementV {
                    name: e.name,
                    attrs: e.attrs,
                    children: Seq::<NodeV>::empty() + e.children,
                };
                let st2 = BuilderV { stack: st.stack.push(full), done: st.done };
                assert(apply_tokens_v(st1, ctoks) == st2);
                assert(end.drop_last() =~= Seq::<TokenV>::empty());
                assert(apply_tokens_v(st2, Seq::<TokenV>::empty()) == st2);
                assert(end.last() == TokenV::End(e.name));
                assert(apply_tokens_v(st2, end) == apply_token_v(st2, end.last()));
                assert(apply_tokens_v(st2, end) == apply_end_v(st2, e.name));
                assert(st2.stack.last() == full);
                assert(stack_has_name(st2.stack, e.name)) by {
                    assert(st2.stack[st2.stack.len() - 1].name == e.name);
                }
                assert(apply_end_v(st2, e.name) == close_one_v(st2));
                assert(st2.stack.drop_last() =~= st.stack);
                assert(BuilderV { stack: st2.stack.drop_last(), done: st2.done } =~~= st);
                assert(full =~~= e);
                assert(close_one_v(st2) == append_node_v(st, NodeV::Element(e)));
            }
        },
        NodeV::Text(t) => {
            let toks = seq![TokenV::Text(t)];
            assert(toks.drop_last() =~= Seq::<TokenV>::empty());
            assert(apply_tokens_v(st, Seq::<TokenV>::empty()) == st);
            assert(toks.last() == TokenV::Text(t));
            assert(apply_tokens_v(st, toks) == apply_token_v(st, toks.last()));
        },
        NodeV::Comment(c) => {
            let toks = seq![TokenV::Comment(c)];
            assert(toks.drop_last() =~= Seq::<TokenV>::empty());
            assert(apply_tokens_v(st, Seq::<TokenV>::empty()) == st);
            assert(toks.last() == TokenV::Comment(c));
            assert(apply_tokens_v(st, toks) == apply_token_v(st, toks.last()));
        },
        NodeV::Doctype(d) => {
            let toks = seq![TokenV::Doctype(d)];
            assert(toks.drop_last() =~= Seq::<TokenV>::empty());
            assert(apply_tokens_v(st, Seq::<TokenV>::empty()) == st);
            assert(toks.last() == TokenV::Doctype(d));
            assert(apply_tokens_v(st, toks) == apply_token_v(st, toks.last()));
        },
        NodeV::RawHTML(_) => {
            assert(false);
        },
    }
}

/// The tree builder undoes the token stream of a well-formed node sequence.
pub proof fn lemma_build_nodes_into(st: BuilderV, ns: Seq<NodeV>)
    requires
        wf_nodes(ns),
    ensures
        apply_tokens_v(st, tokens_of_nodes(ns)) == append_nodes_v(st, ns),
    decreases ns,
{
    if ns.len() == 0 {
        assert(tokens_of_nodes(ns) =~= Seq::<TokenV>::empty());
    } else {
        lemma_apply_concat(st, tokens_of_nodes(ns.drop_last()), tokens_of_node(ns.last()));
        lemma_build_nodes_into(st, ns.drop_last());
        lemma_build_node(append_nodes_v(st, ns.drop_last()), ns.last());
    }
}

/// Idempotence, structural direction: a tree holding only node kinds the
/// token stream can express (no raw-passthrough nodes, void elements
/// childless) is rebuilt exactly by the tree builder from its own token
/// stream — nesting, implicit closing and void handling reproduce every
/// element, attribute list and leaf in order.
pub proof fn lemma_build_inverts_tokens(ns: Seq<NodeV>)
    requires
        wf_nodes(ns),
    ensures
        spec_build(tokens_of_nodes(ns)) == ns,
{
    lemma_build_nodes_into(empty_builder(), ns);
    lemma_append_nodes_toplevel(Seq::empty(), ns);
    assert(Seq::<NodeV>::empty() + ns =~= ns);
    assert(finish_v(BuilderV { stack: Seq::empty(), done: ns }) == ns);
}

} // verus!
