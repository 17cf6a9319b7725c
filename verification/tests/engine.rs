use html_editor::dom::{Doctype, Element, Node};
use html_editor::html::Htmlifiable;
use html_editor::token::{ParseError, TagErrorReason, Token};
use html_editor::tokenizer::tokenize;
use html_editor::tree::{build_tree, parse};

fn text(s: &str) -> Node {
    Node::Text(s.to_string())
}

fn elem(name: &str, attrs: Vec<(&str, &str)>, children: Vec<Node>) -> Element {
    Element {
        name: name.to_string(),
        attrs: attrs
            .into_iter()
            .map(|(k, v)| (k.to_string(), v.to_string()))
            .collect(),
        children,
    }
}

#[test]
fn round_trip_simple_markup() {
    // Canonical spacing and quoting: the round trip is byte-identical.
    let src = r#"<div class="a"><p>hi</p></div>"#;
    let tree = parse(src).unwrap();
    assert_eq!(tree.html(), src);
}

#[test]
fn round_trip_reescapes_text() {
    let src = "<p>a &amp; b</p>";
    let tree = parse(src).unwrap();
    // The text was decoded on the way in...
    assert_eq!(
        tree,
        vec![Node::Element(elem("p", vec![], vec![text("a & b")]))]
    );
    // ...and is re-escaped consistently on the way out.
    assert_eq!(tree.html(), src);
}

#[test]
fn serialize_parse_serialize_is_stable() {
    let tree = vec![
        Node::Doctype(Doctype::Html),
        Node::Element(elem(
            "div",
            vec![("id", "main"), ("hidden", "")],
            vec![
                text("x < y"),
                Node::Comment(" note ".to_string()),
                Node::Element(elem("br", vec![], vec![])),
                Node::Element(elem("span", vec![], vec![text("z")])),
            ],
        )),
    ];
    let once = tree.html();
    let reparsed = parse(&once).unwrap();
    assert_eq!(reparsed, tree);
    assert_eq!(reparsed.html(), once);
}

#[test]
fn void_tag_serializes_without_closing_tag() {
    let e = elem("img", vec![("src", "x.png")], vec![]);
    assert_eq!(e.html(), r#"<img src="x.png">"#);
}

#[test]
fn void_tag_children_are_not_rendered() {
    // Even erroneously populated children stay invisible.
    let e = elem("img", vec![("src", "x.png")], vec![text("ignored")]);
    assert_eq!(e.html(), r#"<img src="x.png">"#);
    let bare = elem("br", vec![], vec![text("ignored")]);
    assert_eq!(bare.html(), "<br>");
}

#[test]
fn boolean_attribute_round_trip() {
    let tree = parse(r#"<script src="index.js" defer>"#).unwrap();
    assert_eq!(
        tree,
        vec![Node::Element(elem(
            "script",
            vec![("src", "index.js"), ("defer", "")],
            vec![],
        ))]
    );
    assert_eq!(tree.html(), r#"<script src="index.js" defer></script>"#);
}

#[test]
fn script_content_is_not_escaped() {
    let src = "<script>if (a < b) {}</script>";
    let tree = parse(src).unwrap();
    assert_eq!(
        tree,
        vec![Node::Element(elem(
            "script",
            vec![],
            vec![text("if (a < b) {}")],
        ))]
    );
    assert_eq!(tree.html(), src);
}

#[test]
fn style_content_is_kept_raw() {
    let src = "<style>a > b { color: red; }</style>";
    let tree = parse(src).unwrap();
    assert_eq!(tree.html(), src);
}

#[test]
fn xml_declaration_without_encoding_fails() {
    let r = Token::from(r#"<?xml version="1.0"?>"#.to_string());
    match r {
        Err(ParseError::InvalidTag { tag, reason }) => {
            assert_eq!(tag, r#"<?xml version="1.0"?>"#);
            assert_eq!(reason, TagErrorReason::MissingXmlEncoding);
            assert_eq!(
                reason.message(),
                "Cannot find encoding attribute in xml declaration"
            );
        }
        other => panic!("expected InvalidTag, got {:?}", other),
    }
    // The whole-document scan surfaces the same error.
    assert!(tokenize(r#"<?xml version="1.0"?>"#).is_err());
}

#[test]
fn xml_declaration_without_version_fails() {
    let r = Token::from(r#"<?xml encoding="utf-8"?>"#.to_string());
    match r {
        Err(ParseError::InvalidTag { reason, .. }) => {
            assert_eq!(reason, TagErrorReason::MissingXmlVersion);
        }
        other => panic!("expected InvalidTag, got {:?}", other),
    }
}

#[test]
fn xml_declaration_round_trip() {
    let src = r#"<?xml version="1.0" encoding="utf-8"?>"#;
    let tree = parse(src).unwrap();
    assert_eq!(
        tree,
        vec![Node::Doctype(Doctype::Xml {
            version: "1.0".to_string(),
            encoding: "utf-8".to_string(),
        })]
    );
    assert_eq!(tree.html(), src);
}

#[test]
fn all_space_tag_name_fails() {
    let r = Token::from("<   >".to_string());
    match r {
        Err(ParseError::InvalidTag { tag, reason }) => {
            assert_eq!(tag, "<   >");
            assert_eq!(reason, TagErrorReason::AllSpaceTagName);
            assert_eq!(
                reason.message(),
                "Tag name cannot be all spaces after \"<\""
            );
        }
        other => panic!("expected InvalidTag, got {:?}", other),
    }
    assert!(tokenize("<   >").is_err());
}

#[test]
fn comment_passes_through_unchanged() {
    let src = "<!-- a < b -->";
    let toks = tokenize(src).unwrap();
    assert_eq!(toks, vec![Token::Comment(" a < b ".to_string())]);
    let tree = build_tree(toks);
    assert_eq!(tree, vec![Node::Comment(" a < b ".to_string())]);
    assert_eq!(tree.html(), src);
}

#[test]
fn comment_may_contain_markup_characters() {
    let src = "<p><!-- <div> & friends --></p>";
    let tree = parse(src).unwrap();
    assert_eq!(tree.html(), src);
}

#[test]
fn doctype_round_trip() {
    let tree = parse("<!DOCTYPE html><p>x</p>").unwrap();
    assert_eq!(
        tree,
        vec![
            Node::Doctype(Doctype::Html),
            Node::Element(elem("p", vec![], vec![text("x")])),
        ]
    );
    assert_eq!(tree.html(), "<!DOCTYPE html><p>x</p>");
}

#[test]
fn self_closing_tag_becomes_childless_element() {
    let toks = tokenize("<br/>").unwrap();
    assert_eq!(
        toks,
        vec![Token::Closing("br".to_string(), vec![])]
    );
    let tree = build_tree(toks);
    assert_eq!(tree, vec![Node::Element(elem("br", vec![], vec![]))]);
}

#[test]
fn self_closing_tag_with_attributes() {
    let toks = tokenize(r#"<img src="x.png" />"#).unwrap();
    assert_eq!(
        toks,
        vec![Token::Closing(
            "img".to_string(),
            vec![("src".to_string(), "x.png".to_string())],
        )]
    );
}

#[test]
fn end_tag_name_is_trimmed() {
    let t = Token::from("</ div >".to_string()).unwrap();
    assert_eq!(t, Token::End("div".to_string()));
}

#[test]
fn unmatched_end_tag_is_ignored() {
    let tree = parse("<div>a</span>b</div>").unwrap();
    assert_eq!(
        tree,
        vec![Node::Element(elem(
            "div",
            vec![],
            vec![text("a"), text("b")],
        ))]
    );
}

#[test]
fn end_tag_closes_inner_elements_implicitly() {
    let tree = parse("<div><p>a</div>").unwrap();
    assert_eq!(
        tree,
        vec![Node::Element(elem(
            "div",
            vec![],
            vec![Node::Element(elem("p", vec![], vec![text("a")]))],
        ))]
    );
}

#[test]
fn open_elements_are_closed_at_end_of_stream() {
    let tree = parse("<div><span>x").unwrap();
    assert_eq!(
        tree,
        vec![Node::Element(elem(
            "div",
            vec![],
            vec![Node::Element(elem("span", vec![], vec![text("x")]))],
        ))]
    );
}

#[test]
fn unclosed_tag_is_an_error() {
    match tokenize("<div class=") {
        Err(ParseError::InvalidTag { tag, reason }) => {
            assert_eq!(tag, "<div class=");
            assert_eq!(reason, TagErrorReason::UnclosedTag);
            assert_eq!(reason.message(), "Tag is never closed");
        }
        other => panic!("expected InvalidTag, got {:?}", other),
    }
}

#[test]
fn quoted_angle_bracket_does_not_end_a_tag() {
    let tree = parse(r#"<div title="a>b">x</div>"#).unwrap();
    assert_eq!(
        tree,
        vec![Node::Element(elem(
            "div",
            vec![("title", "a>b")],
            vec![text("x")],
        ))]
    );
    // `>` in an attribute value is escaped on output.
    assert_eq!(tree.html(), r#"<div title="a&gt;b">x</div>"#);
}

#[test]
fn attribute_forms_are_split_correctly() {
    let toks = tokenize(r#"<a one two=2 three="3 x" four='4'>"#).unwrap();
    assert_eq!(
        toks,
        vec![Token::Start(
            "a".to_string(),
            vec![
                ("one".to_string(), String::new()),
                ("two".to_string(), "2".to_string()),
                ("three".to_string(), "3 x".to_string()),
                ("four".to_string(), "4".to_string()),
            ],
        )]
    );
}

#[test]
fn attribute_value_with_quote_is_escaped() {
    let e = elem("p", vec![("title", "say \"hi\" & go")], vec![]);
    assert_eq!(
        e.html(),
        r#"<p title="say &quot;hi&quot; &amp; go"></p>"#
    );
}

#[test]
fn text_entities_are_decoded_and_reescaped() {
    let tree = parse("<p>1 &lt; 2 &amp;&amp; 3 &gt; 2</p>").unwrap();
    assert_eq!(
        tree,
        vec![Node::Element(elem(
            "p",
            vec![],
            vec![text("1 < 2 && 3 > 2")],
        ))]
    );
    assert_eq!(tree.html(), "<p>1 &lt; 2 &amp;&amp; 3 &gt; 2</p>");
}

#[test]
fn raw_html_node_bypasses_escaping() {
    let tree = vec![Node::RawHTML("<b>&nbsp;</b>".to_string())];
    assert_eq!(tree.html(), "<b>&nbsp;</b>");
}

#[test]
fn htmlifiable_on_node_element_and_list() {
    let node: Node = Node::new_element(
        "script",
        vec![("src", "index.js"), ("defer", "")],
        vec![],
    );
    assert_eq!(node.html(), r#"<script src="index.js" defer></script>"#);

    let nodes: Vec<Node> = vec![node];
    assert_eq!(nodes.html(), r#"<script src="index.js" defer></script>"#);

    let node_again: Node = Node::new_element(
        "script",
        vec![("src", "index.js"), ("defer", "")],
        vec![],
    );
    let element: Element = node_again.into_element();
    assert_eq!(element.html(), r#"<script src="index.js" defer></script>"#);
}

#[test]
fn token_from_classifies_start_tags() {
    let t = Token::from("<div>".to_string()).unwrap();
    assert_eq!(t, Token::Start("div".to_string(), vec![]));
    let t = Token::from(r#"<div id="x">"#.to_string()).unwrap();
    assert_eq!(
        t,
        Token::Start(
            "div".to_string(),
            vec![("id".to_string(), "x".to_string())],
        )
    );
}

#[test]
fn token_from_rejects_non_tags() {
    match Token::from("plain".to_string()) {
        Err(ParseError::InvalidTag { tag, reason }) => {
            assert_eq!(tag, "plain");
            assert_eq!(reason, TagErrorReason::NotATag);
            assert_eq!(reason.message(), "Invalid tag");
        }
        other => panic!("expected InvalidTag, got {:?}", other),
    }
}

#[test]
fn from_comment_strips_delimiters_verbatim() {
    let t = Token::from_comment("<!-- a < b -->".to_string());
    assert_eq!(t, Token::Comment(" a < b ".to_string()));
}

#[test]
fn from_text_decodes_entities() {
    let t = Token::from_text("a &amp; b &#65;".to_string());
    assert_eq!(t, Token::Text("a & b A".to_string()));
}

#[test]
fn token_node_and_into_node_agree() {
    let t = Token::Start(
        "p".to_string(),
        vec![("k".to_string(), "v".to_string())],
    );
    let as_node = t.node();
    assert_eq!(as_node, t.into_node());
    assert_eq!(
        as_node,
        Node::Element(elem("p", vec![("k", "v")], vec![]))
    );
}

#[test]
fn token_into_element_on_tag_tokens() {
    let t = Token::Closing(
        "input".to_string(),
        vec![("type".to_string(), "text".to_string())],
    );
    let e = t.into_element();
    assert_eq!(e, elem("input", vec![("type", "text")], vec![]));
    let t = Token::End("div".to_string());
    assert_eq!(t.into_element(), elem("div", vec![], vec![]));
}

#[test]
fn non_comment_bang_declarations_become_html_doctype() {
    let t = Token::from("<!doctype html>".to_string()).unwrap();
    assert_eq!(t, Token::Doctype(Doctype::Html));
}

#[test]
fn nested_structure_round_trip() {
    let src = r#"<ul><li>one</li><li><a href="u">two</a></li></ul>"#;
    let tree = parse(src).unwrap();
    assert_eq!(tree.html(), src);
}
