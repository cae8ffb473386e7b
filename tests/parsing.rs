use lilac::parse::{parse_full, CompilerError};
use lilac::{Attribute, ClassList, Dialect, Id, Node};

fn parse_children(src: &str) -> Vec<Node> {
    match parse_full(src, "Root", Dialect::JsLilac) {
        Ok(c) => c.children,
        Err(e) => panic!("parse failed: {}", e.message),
    }
}

fn parse_error(src: &str) -> CompilerError {
    match parse_full(src, "Root", Dialect::JsLilac) {
        Ok(_) => panic!("expected a parse error"),
        Err(e) => e,
    }
}

fn text(n: &Node) -> &str {
    match n {
        Node::Text(t) => t.as_str(),
        _ => panic!("expected a text node"),
    }
}

#[test]
fn nested_same_name_elements_close_at_the_outer_tag() {
    let nodes = parse_children("<div><div>x</div></div>");
    assert_eq!(nodes.len(), 1);
    match &nodes[0] {
        Node::Element(outer) => {
            assert_eq!(outer.name, "div");
            assert_eq!(outer.children.len(), 1);
            match &outer.children[0] {
                Node::Element(inner) => {
                    assert_eq!(inner.name, "div");
                    assert_eq!(inner.children.len(), 1);
                    assert_eq!(text(&inner.children[0]), "x");
                }
                _ => panic!("expected the inner div"),
            }
        }
        _ => panic!("expected the outer div"),
    }
}

#[test]
fn closing_tag_of_void_element_is_rejected() {
    for name in ["br", "img", "input", "hr", "meta", "source"] {
        let e = parse_error(&format!("<p>a</p></{}>", name));
        assert_eq!(e.message, format!("Element <{}> cannot have a closing tag.", name));
    }
    let e = parse_error("<br></br>");
    assert_eq!(e.message, "Element <br> cannot have a closing tag.");
}

#[test]
fn stray_closing_tag_is_rejected() {
    let e = parse_error("</div>");
    assert_eq!(e.message, "Unexpected closing tag");
}

#[test]
fn void_element_keeps_the_following_text() {
    let nodes = parse_children("<br>ab");
    assert_eq!(nodes.len(), 2);
    match &nodes[0] {
        Node::Element(e) => {
            assert_eq!(e.name, "br");
            assert!(e.children.is_empty());
        }
        _ => panic!("expected br"),
    }
    assert_eq!(text(&nodes[1]), "ab");
}

#[test]
fn nested_conditionals_close_by_depth() {
    let nodes = parse_children("{#if cond}A{#if cond2}B{/if}C{/if}");
    assert_eq!(nodes.len(), 1);
    match &nodes[0] {
        Node::ConditionalElements { condition, children } => {
            assert_eq!(condition, "cond");
            assert_eq!(children.len(), 3);
            assert_eq!(text(&children[0]), "A");
            match &children[1] {
                Node::ConditionalElements { condition, children } => {
                    assert_eq!(condition, "cond2");
                    assert_eq!(children.len(), 1);
                    assert_eq!(text(&children[0]), "B");
                }
                _ => panic!("expected the inner conditional"),
            }
            assert_eq!(text(&children[2]), "C");
        }
        _ => panic!("expected a conditional"),
    }
}

#[test]
fn list_state_loop_is_parsed() {
    let nodes = parse_children("{#for item in $lstate $items}<li>{item}</li>{/for}");
    assert_eq!(nodes.len(), 1);
    match &nodes[0] {
        Node::Loop { iterator_variable, iteratable, reactive_list, children } => {
            assert_eq!(iterator_variable, "item");
            assert_eq!(iteratable, "$items");
            assert!(*reactive_list);
            assert_eq!(children.len(), 1);
            match &children[0] {
                Node::Element(li) => {
                    assert_eq!(li.name, "li");
                    match &li.children[0] {
                        Node::ReactiveText(t) => assert_eq!(t, "item"),
                        _ => panic!("expected reactive text"),
                    }
                }
                _ => panic!("expected li"),
            }
        }
        _ => panic!("expected a loop"),
    }
}

#[test]
fn plain_loop_keeps_its_expression() {
    let nodes = parse_children("{#for x in $list}<b>{x}</b>{/for}");
    match &nodes[0] {
        Node::Loop { iteratable, reactive_list, .. } => {
            assert_eq!(iteratable, "$list");
            assert!(!*reactive_list);
        }
        _ => panic!("expected a loop"),
    }
}

#[test]
fn brace_block_without_sigil_is_reactive_text() {
    let nodes = parse_children("a{1 + {x: 2}.x}b");
    assert_eq!(nodes.len(), 3);
    assert_eq!(text(&nodes[0]), "a");
    match &nodes[1] {
        Node::ReactiveText(t) => assert_eq!(t, "1 + {x: 2}.x"),
        _ => panic!("expected reactive text"),
    }
    assert_eq!(text(&nodes[2]), "b");
}

#[test]
fn directive_errors() {
    assert_eq!(parse_error("{#while x}a{/while}").message, "Unknown directive while");
    assert_eq!(parse_error("{#if}a{/if}").message, "Expected expression");
    assert_eq!(parse_error("{#for x of y}a{/for}").message, "Invalid for expression");
    assert_eq!(parse_error("{#if c}a").message, "expected {/if}");
    assert_eq!(parse_error("{/if}").message, "Unexpected closing directive");
    assert_eq!(parse_error("{abc").message, "Expected }");
}

#[test]
fn attributes_id_and_classes_are_split_out() {
    let nodes = parse_children("<div id=\"main\" class=\"a  b\" title=\"t\" hidden data={x}>z</div>");
    match &nodes[0] {
        Node::Element(e) => {
            match &e.id {
                Some(Id::Static(s)) => assert_eq!(s, "main"),
                _ => panic!("expected a static id"),
            }
            match &e.classes {
                Some(ClassList::Static(v)) => assert_eq!(v, &vec!["a".to_string(), "b".to_string()]),
                _ => panic!("expected static classes"),
            }
            assert_eq!(e.attributes.len(), 3);
            match &e.attributes[0] {
                Attribute::Static(sa) => {
                    assert_eq!(sa.name, "title");
                    assert_eq!(sa.value.as_deref(), Some("t"));
                }
                _ => panic!("expected a static attribute"),
            }
            match &e.attributes[1] {
                Attribute::Static(sa) => {
                    assert_eq!(sa.name, "hidden");
                    assert!(sa.value.is_none());
                }
                _ => panic!("expected a bare attribute"),
            }
            match &e.attributes[2] {
                Attribute::Reactive(ra) => {
                    assert_eq!(ra.name, "data");
                    assert_eq!(ra.value, "x");
                }
                _ => panic!("expected a reactive attribute"),
            }
        }
        _ => panic!("expected an element"),
    }
}

#[test]
fn quoted_value_may_hold_a_greater_than_sign() {
    let nodes = parse_children("<a title=\"x > y\">k</a>");
    match &nodes[0] {
        Node::Element(e) => {
            match &e.attributes[0] {
                Attribute::Static(sa) => assert_eq!(sa.value.as_deref(), Some("x > y")),
                _ => panic!("expected a static attribute"),
            }
            assert_eq!(text(&e.children[0]), "k");
        }
        _ => panic!("expected an element"),
    }
}

#[test]
fn malformed_attributes_are_errors() {
    assert_eq!(parse_error("<a b=c></a>").message, "Invalid attribute value");
    assert_eq!(parse_error("<a b={c></a>").message, "Expected }");
    assert_eq!(
        parse_error("<a b=\"c\",>x</a>").message,
        "Commas should not be used to separate attribute arguments"
    );
    assert_eq!(parse_error("<a b=\"c>x</a>").message, "Expected \"");
    assert_eq!(parse_error("<a b").message, "Expected >. a tag was never closed");
    assert_eq!(parse_error("<div>").message, "Could not find closing tag for div");
    assert_eq!(parse_error("<>").message, "Expected element name");
}

#[test]
fn comments_are_skipped() {
    let nodes = parse_children("a<!-- <b> -->c");
    assert_eq!(nodes.len(), 1);
    assert_eq!(text(&nodes[0]), "ac");
}

#[test]
fn uppercase_element_is_a_component_reference() {
    let nodes = parse_children("<Card title=\"x\">hi</Card><Icon/>");
    match &nodes[0] {
        Node::ComponentHole { name, props, children, position, .. } => {
            assert_eq!(name, "Card");
            assert_eq!(*position, 0);
            assert_eq!(props.len(), 1);
            let c = children.as_ref().expect("slot content");
            assert_eq!(text(&c[0]), "hi");
        }
        _ => panic!("expected a reference"),
    }
    match &nodes[1] {
        Node::ComponentHole { name, children, .. } => {
            assert_eq!(name, "Icon");
            assert!(children.is_none());
        }
        _ => panic!("expected a reference"),
    }
}

#[test]
fn script_and_style_keep_their_text() {
    let nodes = parse_children("<script>let a = '<b>';</script><style>.x { color: \"red\"; }</style>");
    match &nodes[0] {
        Node::ScriptTag(st) => assert_eq!(st.code, "let a = '<b>';"),
        _ => panic!("expected a script"),
    }
    match &nodes[1] {
        Node::StyleTag(rules) => assert_eq!(rules.len(), 1),
        _ => panic!("expected a style block"),
    }
}

#[test]
fn stylesheet_error_is_located_in_the_file() {
    let e = parse_error("<style>.x { color }</style>");
    assert_eq!(e.message, "\x1b[31mCSS syntax error\x1b[39m: Expected colon");
    assert_eq!(e.position, 7 + 12);
}

#[test]
fn plain_text_is_one_text_node() {
    let nodes = parse_children("just text");
    assert_eq!(nodes.len(), 1);
    assert_eq!(text(&nodes[0]), "just text");
    assert!(parse_children("").is_empty());
}

#[test]
fn error_format_gives_line_and_column() {
    let e = CompilerError { position: 4, message: "msg".to_string() };
    assert_eq!(e.format("ab\ncd"), "[2:2]  msg");
    let e = CompilerError { position: 0, message: "m".to_string() };
    assert_eq!(e.format("x"), "[1:1]  m");
    let e = CompilerError { position: 99, message: "m".to_string() };
    assert_eq!(e.format("a\nb"), "[2:2]  m");
}
