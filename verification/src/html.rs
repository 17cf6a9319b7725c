//! Rendering a node tree back to markup text.
//!
//! Serialization is total: every tree value has a defined rendering.  Void
//! tags never emit a closing tag and never render children; the children of
//! `style` and `script` elements are emitted raw (text children unescaped);
//! every other text run is entity-escaped.  An attribute with an empty value
//! renders as a bare name.

use vstd::prelude::*;
use vstd::string::StrSliceExecFns;
use vstd::string::StringExecFns;
use crate::dom::{is_void_name, is_void_tag, view_nodes, Element, ElementV, Node, NodeV, DoctypeV, Doctype};
use crate::escape::{escape_attr, escape_text};
use crate::scan::str_eq;

verus! {

/// The tag names whose children are serialized verbatim.
pub open spec fn is_raw_name(name: Seq<char>) -> bool {
    name == "style"@ || name == "script"@
}

/// Whether `name` is `style` or `script` (matched exactly, lower case).
pub fn is_raw_tag(name: &str) -> (r: bool)
    ensures
        r == is_raw_name(name@),
{
    str_eq(name, "style") || str_eq(name, "script")
}

/// How one attribute pair renders: a bare name for an empty value, else
/// `name="escaped value"`.
pub open spec fn spec_attr_str(p: (Seq<char>, Seq<char>)) -> Seq<char> {
    if p.1.len() == 0 {
        p.0
    } else {
        p.0 + "=\""@ + escape_attr(p.1) + "\""@
    }
}

/// How an attribute list renders: each pair rendered, joined by single
/// spaces, in order.
pub open spec fn spec_attrs_str(attrs: Seq<(Seq<char>, Seq<char>)>) -> Seq<char>
    decreases attrs.len(),
{
    if attrs.len() == 0 {
        Seq::empty()
    } else if attrs.len() == 1 {
        spec_attr_str(attrs[0])
    } else {
        spec_attrs_str(attrs.drop_last()) + " "@ + spec_attr_str(attrs.last())
    }
}

/// The markup text a node renders to.
pub open spec fn spec_html_node(n: NodeV) -> Seq<char>
    decreases n,
{
    match n {
        NodeV::Element(e) => spec_html_element(e),
        NodeV::Text(t) => escape_text(t),
        NodeV::Comment(c) => "<!--"@ + c + "-->"@,
        NodeV::Doctype(d) => match d {
            DoctypeV::Html => "<!DOCTYPE html>"@,
            DoctypeV::Xml { version, encoding } => "<?xml version=\""@ + version
                + "\" encoding=\""@ + encoding + "\"?>"@,
        },
        NodeV::RawHTML(h) => h,
    }
}

/// The markup text an element renders to.
pub open spec fn spec_html_element(e: ElementV) -> Seq<char>
    decreases e,
{
    let kids = if is_raw_name(e.name) {
        spec_html_raw_children(e.children)
    } else {
        spec_html_nodes(e.children)
    };
    if e.attrs.len() == 0 {
        if is_void_name(e.name) {
            "<"@ + e.name + ">"@
        } else {
            "<"@ + e.name + ">"@ + kids + "</"@ + e.name + ">"@
        }
    } else {
        let astr = spec_attrs_str(e.attrs);
        if is_void_name(e.name) {
            "<"@ + e.name + " "@ + astr + ">"@
        } else {
            "<"@ + e.name + " "@ + astr + ">"@ + kids + "</"@ + e.name + ">"@
        }
    }
}

/// The markup text a sequence of nodes renders to: each member's rendering,
/// concatenated in order.
pub open spec fn spec_html_nodes(ns: Seq<NodeV>) -> Seq<char>
    decreases ns,
{
    if ns.len() == 0 {
        Seq::empty()
    } else {
        spec_html_nodes(ns.drop_last()) + spec_html_node(ns.last())
    }
}

/// The children of a raw-content element: text emitted verbatim, every
/// other node rendered normally.
pub open spec fn spec_html_raw_children(ns: Seq<NodeV>) -> Seq<char>
    decreases ns,
{
    if ns.len() == 0 {
        Seq::empty()
    } else {
        spec_html_raw_children(ns.drop_last()) + (match ns.last() {
            NodeV::Text(t) => t,
            other => spec_html_node(other),
        })
    }
}

/// Render an attribute list.
fn attrs_str_exec(attrs: &Vec<(String, String)>) -> (r: String)
    ensures
        r@ == spec_attrs_str(crate::dom::view_attrs(attrs@)),
{
    let mut out = String::new();
    let mut i: usize = 0;
    while i < attrs.len()
        invariant
            i <= attrs.len(),
            out@ == spec_attrs_str(crate::dom::view_attrs(attrs@.take(i as int))),
        decreases attrs.len() - i,
    {
        let ghost prefix = crate::dom::view_attrs(attrs@.take(i as int));
        let ghost whole = crate::dom::view_attrs(attrs@.take(i as int + 1));
        proof {
            assert(whole.drop_last() =~~= prefix);
            assert(whole.last() == (attrs@[i as int].0@, attrs@[i as int].1@));
        }
        if i > 0 {
            out.append(" ");
        }
        let name = &attrs[i].0;
        let value = &attrs[i].1;
        if value.as_str().unicode_len() == 0 {
            out.append(name.as_str());
        } else {
            out.append(name.as_str());
            out.append("=\"");
            let encoded = crate::escape::encode_attr_str(value.as_str());
            out.append(encoded.as_str());
            out.append("\"");
        }
        proof {
            if i == 0 {
                assert(prefix.len() == 0);
                assert(out@ =~= spec_attr_str(whole.last()));
                assert(out@ =~= spec_attrs_str(whole));
            } else {
                assert(out@ =~= spec_attrs_str(prefix) + " "@ + spec_attr_str(whole.last()));
                assert(out@ =~= spec_attrs_str(whole));
            }
        }
        i += 1;
    }
    proof {
        assert(attrs@.take(attrs@.len() as int) =~= attrs@);
    }
    out
}

/// Render one node.
fn html_node_exec(n: &Node) -> (r: String)
    ensures
        r@ == spec_html_node(n@),
    decreases *n,
{
    match n {
        Node::Element(el) => {
            proof {
                assert(decreases_to!(*n => *el));
            }
            html_element_exec(el)
        },
        Node::Text(t) => crate::escape::encode_text_str(t.as_str()),
        Node::Comment(c) => {
            let mut out = String::new();
            out.append("<!--");
            out.append(c.as_str());
            out.append("-->");
            proof {
                assert(out@ =~= "<!--"@ + c@ + "-->"@);
            }
            out
        },
        Node::Doctype(d) => match d {
            Doctype::Html => {
                let out = String::from_str("<!DOCTYPE html>");
                out
            },
            Doctype::Xml { version, encoding } => {
                let mut out = String::new();
                out.append("<?xml version=\"");
                out.append(version.as_str());
                out.append("\" encoding=\"");
                out.append(encoding.as_str());
                out.append("\"?>");
                proof {
                    assert(out@ =~= "<?xml version=\""@ + version@ + "\" encoding=\""@
                        + encoding@ + "\"?>"@);
                }
                out
            },
        },
        Node::RawHTML(h) => crate::dom::clone_string(h),
    }
}

/// Render a sequence of nodes, normally escaped.
fn html_nodes_exec(ns: &Vec<Node>) -> (r: String)
    ensures
        r@ == spec_html_nodes(view_nodes(ns@)),
    decreases *ns,
{
    let mut out = String::new();
    let mut i: usize = 0;
    while i < ns.len()
        invariant
            i <= ns.len(),
            out@ == spec_html_nodes(view_nodes(ns@.take(i as int))),
        decreases ns@.len() - i,
    {
        proof {
            assert(decreases_to!(*ns => ns@));
            assert(decreases_to!(ns@ => ns@[i as int]));
        }
        let piece = html_node_exec(&ns[i]);
        out.append(piece.as_str());
        proof {
            assert(ns@.take(i as int + 1).drop_last() =~= ns@.take(i as int));
            assert(ns@.take(i as int + 1).last() == ns@[i as int]);
            crate::dom::lemma_view_nodes_push(ns@.take(i as int), ns@[i as int]);
            assert(ns@.take(i as int).push(ns@[i as int]) =~= ns@.take(i as int + 1));
            let ghost whole = view_nodes(ns@.take(i as int + 1));
            assert(whole.drop_last() =~~= view_nodes(ns@.take(i as int)));
            assert(out@ =~= spec_html_nodes(whole));
        }
        i += 1;
    }
    proof {
        assert(ns@.take(ns@.len() as int) =~= ns@);
    }
    out
}

/// Render the children of a `style`/`script` element: text verbatim.
fn html_raw_children_exec(ns: &Vec<Node>) -> (r: String)
    ensures
        r@ == spec_html_raw_children(view_nodes(ns@)),
    decreases *ns,
{
    let mut out = String::new();
    let mut i: usize = 0;
    while i < ns.len()
        invariant
            i <= ns.len(),
            out@ == spec_html_raw_children(view_nodes(ns@.take(i as int))),
        decreases ns@.len() - i,
    {
        match &ns[i] {
            Node::Text(t) => {
                out.append(t.as_str());
            },
            _ => {
                proof {
                    assert(decreases_to!(*ns => ns@));
                    assert(decreases_to!(ns@ => ns@[i as int]));
                }
                let piece = html_node_exec(&ns[i]);
                out.append(piece.as_str());
            },
        }
        proof {
            assert(ns@.take(i as int + 1).drop_last() =~= ns@.take(i as int));
            assert(ns@.take(i as int + 1).last() == ns@[i as int]);
            crate::dom::lemma_view_nodes_push(ns@.take(i as int), ns@[i as int]);
            assert(ns@.take(i as int).push(ns@[i as int]) =~= ns@.take(i as int + 1));
            let ghost whole = view_nodes(ns@.take(i as int + 1));
            assert(whole.drop_last() =~~= view_nodes(ns@.take(i as int)));
            assert(whole.last() == crate::dom::view_node(ns@[i as int]));
            assert(out@ =~= spec_html_raw_children(whole));
        }
        i += 1;
    }
    proof {
        assert(ns@.take(ns@.len() as int) =~= ns@);
    }
    out
}

/// Render one element.
fn html_element_exec(e: &Element) -> (r: String)
    ensures
        r@ == spec_html_element(e@),
    decreases *e,
{
    let raw = is_raw_tag(e.name.as_str());
    proof {
        assert(decreases_to!(*e => e.children));
    }
    let kids = if raw {
        html_raw_children_exec(&e.children)
    } else {
        html_nodes_exec(&e.children)
    };
    let void = is_void_tag(e.name.as_str());
    let mut out = String::new();
    out.append("<");
    out.append(e.name.as_str());
    if e.attrs.len() == 0 {
        if void {
            out.append(">");
            proof {
                assert(out@ =~= spec_html_element(e@));
            }
            out
        } else {
            out.append(">");
            out.append(kids.as_str());
            out.append("</");
            out.append(e.name.as_str());
            out.append(">");
            proof {
                assert(out@ =~= spec_html_element(e@));
            }
            out
        }
    } else {
        let astr = attrs_str_exec(&e.attrs);
        out.append(" ");
        out.append(astr.as_str());
        if void {
            out.append(">");
            proof {
                assert(out@ =~= spec_html_element(e@));
            }
            out
        } else {
            out.append(">");
            out.append(kids.as_str());
            out.append("</");
            out.append(e.name.as_str());
            out.append(">");
            proof {
                assert(out@ =~= spec_html_element(e@));
            }
            out
        }
    }
}

/// Stringify into html.
pub trait Htmlifiable {
    /// The markup text this value renders to.
    spec fn html_spec(&self) -> Seq<char>;

    /// Convert the object to an HTML string.
    fn html(&self) -> (r: String)
        ensures
            r@ == self.html_spec(),
    ;
}

impl Htmlifiable for Element {
    open spec fn html_spec(&self) -> Seq<char> {
        spec_html_element(self@)
    }

    fn html(&self) -> (r: String) {
        html_element_exec(self)
    }
}

impl Htmlifiable for Node {
    open spec fn html_spec(&self) -> Seq<char> {
        spec_html_node(self@)
    }

    fn html(&self) -> (r: String) {
        html_node_exec(self)
    }
}

impl Htmlifiable for Vec<Node> {
    open spec fn html_spec(&self) -> Seq<char> {
        spec_html_nodes(view_nodes(self@))
    }

    fn html(&self) -> (r: String) {
        html_nodes_exec(self)
    }
}

} // verus!
