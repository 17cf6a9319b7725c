//! The node tree that parsing produces and serialization consumes.
//!
//! Each executable type has a ghost counterpart built from `Seq`, and a
//! `View` impl mapping onto it; every contract in this crate is stated over
//! those ghost values.

use vstd::prelude::*;

verus! {

/// A document-level declaration: either the plain HTML doctype marker or an
/// XML prolog carrying both a version and an encoding.
#[derive(Debug, Clone, PartialEq)]
pub enum Doctype {
    Html,
    Xml { version: String, encoding: String },
}

/// An element: tag name, ordered attribute list and ordered children.
///
/// Attribute names need not be unique; the list keeps exactly what the
/// tokenizer captured, in order.  An attribute with an empty value stands for
/// a bare (boolean) attribute such as `defer`.
#[derive(Debug, PartialEq)]
pub struct Element {
    pub name: String,
    pub attrs: Vec<(String, String)>,
    pub children: Vec<Node>,
}

/// One node of the tree: an element, a text run, a comment, a doctype
/// declaration, or pre-rendered markup emitted verbatim.
#[derive(Debug, PartialEq)]
pub enum Node {
    Element(Element),
    Text(String),
    Comment(String),
    Doctype(Doctype),
    RawHTML(String),
}

/// Ghost counterpart of [`Doctype`].
#[verifier::ext_equal]
pub enum DoctypeV {
    Html,
    Xml { version: Seq<char>, encoding: Seq<char> },
}

/// Ghost counterpart of [`Element`].
#[verifier::ext_equal]
pub struct ElementV {
    pub name: Seq<char>,
    pub attrs: Seq<(Seq<char>, Seq<char>)>,
    pub children: Seq<NodeV>,
}

/// Ghost counterpart of [`Node`].
#[verifier::ext_equal]
pub enum NodeV {
    Element(ElementV),
    Text(Seq<char>),
    Comment(Seq<char>),
    Doctype(DoctypeV),
    RawHTML(Seq<char>),
}

/// The ghost value of an attribute list: each pair of strings as a pair of
/// character sequences.
pub open spec fn view_attrs(attrs: Seq<(String, String)>) -> Seq<(Seq<char>, Seq<char>)> {
    attrs.map_values(|p: (String, String)| (p.0@, p.1@))
}

pub open spec fn view_doctype(d: Doctype) -> DoctypeV {
    match d {
        Doctype::Html => DoctypeV::Html,
        Doctype::Xml { version, encoding } => DoctypeV::Xml {
            version: version@,
            encoding: encoding@,
        },
    }
}

pub open spec fn view_node(n: Node) -> NodeV
    decreases n,
{
    match n {
        Node::Element(e) => NodeV::Element(view_element(e)),
        Node::Text(t) => NodeV::Text(t@),
        Node::Comment(c) => NodeV::Comment(c@),
        Node::Doctype(d) => NodeV::Doctype(view_doctype(d)),
        Node::RawHTML(h) => NodeV::RawHTML(h@),
    }
}

pub open spec fn view_element(e: Element) -> ElementV
    decreases e,
{
    ElementV {
        name: e.name@,
        attrs: view_attrs(e.attrs@),
        children: view_nodes(e.children@),
    }
}

pub open spec fn view_nodes(ns: Seq<Node>) -> Seq<NodeV>
    decreases ns,
{
    if ns.len() == 0 {
        Seq::empty()
    } else {
        view_nodes(ns.drop_last()).push(view_node(ns.last()))
    }
}

impl View for Doctype {
    type V = DoctypeV;

    open spec fn view(&self) -> DoctypeV {
        view_doctype(*self)
    }
}

impl View for Element {
    type V = ElementV;

    open spec fn view(&self) -> ElementV {
        view_element(*self)
    }
}

impl View for Node {
    type V = NodeV;

    open spec fn view(&self) -> NodeV {
        view_node(*self)
    }
}

/// `view_nodes` taken one element at a time, from the front.
pub proof fn lemma_view_nodes_push(ns: Seq<Node>, n: Node)
    ensures
        view_nodes(ns.push(n)) == view_nodes(ns).push(view_node(n)),
{
    assert(ns.push(n).drop_last() =~= ns);
    assert(ns.push(n).last() == n);
}

/// The tag names that never take a closing tag or children in output.
pub open spec fn is_void_name(name: Seq<char>) -> bool {
    ||| name == "area"@
    ||| name == "base"@
    ||| name == "br"@
    ||| name == "col"@
    ||| name == "command"@
    ||| name == "embed"@
    ||| name == "hr"@
    ||| name == "img"@
    ||| name == "input"@
    ||| name == "keygen"@
    ||| name == "link"@
    ||| name == "meta"@
    ||| name == "param"@
    ||| name == "source"@
    ||| name == "track"@
    ||| name == "wbr"@
}

/// Whether `name` is a void tag (matched exactly, lower case).
pub fn is_void_tag(name: &str) -> (r: bool)
    ensures
        r == is_void_name(name@),
{
    crate::scan::str_eq(name, "area") || crate::scan::str_eq(name, "base")
        || crate::scan::str_eq(name, "br") || crate::scan::str_eq(name, "col")
        || crate::scan::str_eq(name, "command") || crate::scan::str_eq(name, "embed")
        || crate::scan::str_eq(name, "hr") || crate::scan::str_eq(name, "img")
        || crate::scan::str_eq(name, "input") || crate::scan::str_eq(name, "keygen")
        || crate::scan::str_eq(name, "link") || crate::scan::str_eq(name, "meta")
        || crate::scan::str_eq(name, "param") || crate::scan::str_eq(name, "source")
        || crate::scan::str_eq(name, "track") || crate::scan::str_eq(name, "wbr")
}

/// Copy a string; the copy has the same characters.
pub fn clone_string(s: &String) -> (r: String)
    ensures
        r@ == s@,
{
    s.clone()
}

/// Copy an attribute list; the copy has the same ghost value.
pub fn clone_attrs(attrs: &Vec<(String, String)>) -> (r: Vec<(String, String)>)
    ensures
        view_attrs(r@) == view_attrs(attrs@),
{
    let mut out: Vec<(String, String)> = Vec::new();
    let mut i: usize = 0;
    while i < attrs.len()
        invariant
            i <= attrs.len(),
            view_attrs(out@) =~~= view_attrs(attrs@.take(i as int)),
        decreases attrs.len() - i,
    {
        let ghost prev = out@;
        let name = clone_string(&attrs[i].0);
        let value = clone_string(&attrs[i].1);
        let ghost gpair = (name, value);
        out.push((name, value));
        proof {
            lemma_view_attrs_push(prev, gpair);
            lemma_view_attrs_push(attrs@.take(i as int), attrs@[i as int]);
            assert(attrs@.take(i as int + 1) =~= attrs@.take(i as int).push(attrs@[i as int]));
            assert(view_attrs(out@) == view_attrs(attrs@.take(i as int + 1)));
        }
        i += 1;
    }
    assert(attrs@.take(attrs@.len() as int) =~= attrs@);
    out
}

impl Element {
    /// Wrap this element as a node.
    pub fn into_node(self) -> (r: Node)
        ensures
            r@ == NodeV::Element(self@),
    {
        Node::Element(self)
    }
}

impl Node {
    /// Build an element node from a tag name and attribute pairs.
    pub fn new_element(name: &str, attrs: Vec<(&str, &str)>, children: Vec<Node>) -> (r: Node)
        ensures
            r@ == NodeV::Element(ElementV {
                name: name@,
                attrs: view_attrs_str(attrs@),
                children: view_nodes(children@),
            }),
    {
        let mut owned: Vec<(String, String)> = Vec::new();
        let mut i: usize = 0;
        while i < attrs.len()
            invariant
                i <= attrs.len(),
                view_attrs(owned@) =~~= view_attrs_str(attrs@.take(i as int)),
            decreases attrs.len() - i,
        {
            let ghost prev = owned@;
            let name_s = attrs[i].0.to_owned();
            let value_s = attrs[i].1.to_owned();
            let ghost gpair = (name_s, value_s);
            owned.push((name_s, value_s));
            proof {
                lemma_view_attrs_push(prev, gpair);
                lemma_view_attrs_str_push(attrs@.take(i as int), attrs@[i as int]);
                assert(attrs@.take(i as int + 1) =~= attrs@.take(i as int).push(
                    attrs@[i as int],
                ));
                assert(view_attrs(owned@) == view_attrs_str(attrs@.take(i as int + 1)));
            }
            i += 1;
        }
        assert(attrs@.take(attrs@.len() as int) =~= attrs@);
        Node::Element(Element { name: name.to_owned(), attrs: owned, children })
    }

    /// Unwrap an element node.
    ///
    /// Only element nodes can be unwrapped; calling this on any other node
    /// kind is a contract violation.
    pub fn into_element(self) -> (r: Element)
        requires
            self is Element,
        ensures
            NodeV::Element(r@) == self@,
    {
        match self {
            Node::Element(e) => e,
            _ => vstd::pervasive::unreached(),
        }
    }
}

/// The ghost value of a borrowed attribute list.
pub open spec fn view_attrs_str(attrs: Seq<(&str, &str)>) -> Seq<(Seq<char>, Seq<char>)> {
    attrs.map_values(|p: (&str, &str)| (p.0@, p.1@))
}

/// `view_attrs` taken one pair at a time, from the front.
pub proof fn lemma_view_attrs_push(a: Seq<(String, String)>, x: (String, String))
    ensures
        view_attrs(a.push(x)) == view_attrs(a).push((x.0@, x.1@)),
{
    assert(view_attrs(a.push(x)) =~~= view_attrs(a).push((x.0@, x.1@)));
}

/// `view_attrs_str` taken one pair at a time, from the front.
pub proof fn lemma_view_attrs_str_push(a: Seq<(&str, &str)>, x: (&str, &str))
    ensures
        view_attrs_str(a.push(x)) == view_attrs_str(a).push((x.0@, x.1@)),
{
    assert(view_attrs_str(a.push(x)) =~~= view_attrs_str(a).push((x.0@, x.1@)));
}

} // verus!
