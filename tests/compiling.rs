use lilac::compile::{fill_children_slot, fill_holes};
use lilac::config::{check_version, Config};
use lilac::css::{parse, Selector};
use lilac::css_component_scoping::scope_css_to_component;
use lilac::job::{
    collect_css, compile_sources, dialect_of_extension, load_components, SourceFile, Target,
};
use lilac::js_codegen::{codegen_stylesheet, has_reactive_attributes, LILAC_VERSION};
use lilac::js_codegen::reactive_dependencies;
use lilac::js_component_scoping::{
    add_declared_identifiers, find_and_replace_js_identifiers, rename_identifiers, ComponentVariableRenamer,
    JsKind, JsToken,
};
use lilac::parse::parse_full;
use lilac::rs_codegen::{codegen_rules, rename_var};
use lilac::utils::{uid, IdCounter};
use lilac::{wasm_compile_, ClassList, Component, Dialect, File, Node};

fn source(name: &str, dialect: Dialect, contents: &str) -> SourceFile {
    SourceFile { name: name.to_string(), dialect, contents: contents.to_string() }
}

fn web(files: &[(&str, &str)]) -> Result<String, String> {
    let sources = files.iter().map(|(n, c)| source(n, Dialect::JsLilac, c)).collect();
    compile_sources(&sources, "", "/*runtime*/")
}

fn component(src: &str, name: &str) -> Component {
    match parse_full(src, name, Dialect::JsLilac) {
        Ok(c) => c,
        Err(e) => panic!("parse failed: {}", e.message),
    }
}

fn static_classes(n: &Node) -> Vec<String> {
    match n {
        Node::Element(e) => match &e.classes {
            Some(ClassList::Static(v)) => v.clone(),
            None => vec![],
            _ => panic!("expected static classes"),
        },
        _ => panic!("expected an element"),
    }
}

#[test]
fn stylesheet_selectors_are_parsed() {
    let rules = parse("a:hover { color: red; } .x > #y + * { margin: 0 auto; } div p {}").ok().unwrap();
    assert_eq!(rules.len(), 3);
    match &rules[0].selector {
        Selector::Descendant(a, b) => {
            assert!(matches!(a.as_ref(), Selector::Tag(t) if t == "a"));
            assert!(matches!(b.as_ref(), Selector::Pseduo(p) if p == "hover"));
        }
        _ => panic!("expected a descendant selector"),
    }
    match &rules[1].selector {
        Selector::Child(a, b) => {
            assert!(matches!(a.as_ref(), Selector::Class(c) if c == "x"));
            match b.as_ref() {
                Selector::NextSibling(c, d) => {
                    assert!(matches!(c.as_ref(), Selector::ID(i) if i == "y"));
                    assert!(matches!(d.as_ref(), Selector::All));
                }
                _ => panic!("expected a next-sibling selector"),
            }
        }
        _ => panic!("expected a child selector"),
    }
    assert_eq!(rules[1].properties[0].name, "margin");
    assert_eq!(rules[1].properties[0].value, vec!["0".to_string(), "auto".to_string()]);
    assert!(rules[2].properties.is_empty());
}

#[test]
fn stylesheet_errors() {
    let e = parse(".a { color: \"red; }").err().unwrap();
    assert_eq!(e.message, "Unterminated string");
    let e = parse(".a { color: red; ").err().unwrap();
    assert_eq!(e.message, "Unbalanced curly braces");
    assert_eq!(e.location, 17);
    let e = parse(".a { color red; }").err().unwrap();
    assert_eq!(e.message, "Expected colon");
    let e = parse("/* open").err().unwrap();
    assert_eq!(e.message, "Unterminated comment");
    let e = parse(". { }").err().unwrap();
    assert_eq!(e.message, "Empty Class name.");
    let e = parse(":::a { }").err().unwrap();
    assert_eq!(e.message, "Too many colons");
    let e = parse("{ }").err().unwrap();
    assert_eq!(e.message, "Expected selector");
    let e = parse("a { b: c } ").err().unwrap();
    assert_eq!(e.message, "Unexpected \"}.\"");
    let rules = parse("/* c */ .a /* d */ { x: \"y\" ; }").ok().unwrap();
    assert_eq!(rules[0].properties[0].value, vec!["\"y\"".to_string()]);
}

#[test]
fn stylesheet_text_is_generated() {
    let rules = parse(".foo { color: \"red\"; margin: 0 auto; } a > b {}").ok().unwrap();
    assert_eq!(codegen_stylesheet(&rules), ".foo {color:\"red\";margin:0 auto;} a > b {} ");
    assert_eq!(codegen_stylesheet(&vec![]), "");
}

#[test]
fn scoping_a_class_rule_marks_only_matching_elements() {
    let card = component("<div class=\"foo\">a</div><div class=\"bar\">b</div><p>c</p>", "Card");
    let styles = parse(".foo { color: \"red\"; }").ok().unwrap();
    let (styles, card) = scope_css_to_component(card, styles);
    match &styles[0].selector {
        Selector::Class(c) => assert_eq!(c, "class-Card-foo"),
        _ => panic!("expected a class selector"),
    }
    assert_eq!(static_classes(&card.children[0]), vec!["foo".to_string(), "class-Card-foo".to_string()]);
    assert_eq!(static_classes(&card.children[1]), vec!["bar".to_string()]);
    assert_eq!(static_classes(&card.children[2]), Vec::<String>::new());
}

#[test]
fn scoping_tag_id_and_universal_rules() {
    let card = component("<p id=\"k\">x</p><span>y</span>", "Card");
    let styles = parse("p { a: b; } #k { a: b; } * { a: b; } p span { a: b; }").ok().unwrap();
    let (styles, card) = scope_css_to_component(card, styles);
    let names: Vec<String> = styles
        .iter()
        .map(|r| match &r.selector {
            Selector::Class(c) => c.clone(),
            _ => "other".to_string(),
        })
        .collect();
    assert_eq!(names, vec!["tag-Card-p", "id-Card-k", "all-Card-", "other"]);
    assert_eq!(
        static_classes(&card.children[0]),
        vec!["id-Card-k".to_string(), "tag-Card-p".to_string(), "all-Card-".to_string()]
    );
    assert_eq!(static_classes(&card.children[1]), vec!["all-Card-".to_string()]);
}

#[test]
fn scoping_a_reactive_class_list_rewrites_its_expression() {
    let card = component("<div class={cls}>a</div>", "Card");
    let styles = parse(".foo { a: b; }").ok().unwrap();
    let (_, card) = scope_css_to_component(card, styles);
    match &card.children[0] {
        Node::Element(e) => match &e.classes {
            Some(ClassList::Reactive(x)) => assert_eq!(
                x,
                "(cls) + \" \" + (cls).split(\" \").map((s) => \"class-Card-\" + s).join(\" \")"
            ),
            _ => panic!("expected reactive classes"),
        },
        _ => panic!("expected an element"),
    }
}

#[test]
fn style_blocks_are_collected_in_document_order() {
    let c = component("<style>.a {}</style><div><style>.b {}</style>x</div>", "Card");
    let (styles, c) = collect_css(c);
    assert_eq!(styles.len(), 2);
    assert!(matches!(&styles[0].selector, Selector::Class(n) if n == "a"));
    assert!(matches!(&styles[1].selector, Selector::Class(n) if n == "b"));
    assert_eq!(c.children.len(), 1);
    match &c.children[0] {
        Node::Element(e) => {
            assert_eq!(e.children.len(), 1);
            assert!(matches!(&e.children[0], Node::Text(t) if t == "x"));
        }
        _ => panic!("expected an element"),
    }
}

#[test]
fn children_slot_is_elided_or_filled() {
    assert!(fill_children_slot(&None).is_none());
    let slot = Some(vec![Node::Text("hi".to_string())]);
    match fill_children_slot(&slot) {
        Some(Node::Element(e)) => {
            assert_eq!(e.name, "");
            assert_eq!(e.children.len(), 1);
            assert!(matches!(&e.children[0], Node::Text(t) if t == "hi"));
        }
        _ => panic!("expected the wrapper element"),
    }
}

fn only_child(n: &Node) -> &Node {
    match n {
        Node::Component(c) => {
            assert_eq!(c.children.len(), 1);
            &c.children[0]
        }
        Node::Element(e) => {
            assert_eq!(e.children.len(), 1);
            &e.children[0]
        }
        _ => panic!("expected a node with children"),
    }
}

#[test]
fn resolution_threads_slot_content() {
    let defs = vec![component("<div><Children/></div>", "Card")];
    let mut root = Node::Component(component("<Card>hi</Card>", "Root"));
    fill_holes(&mut root, &defs).ok().unwrap();
    let card = only_child(&root);
    match card {
        Node::Component(c) => assert_eq!(c.name, "Card"),
        _ => panic!("expected the Card instance"),
    }
    let div = only_child(card);
    let wrapper = only_child(div);
    match only_child(wrapper) {
        Node::Text(t) => assert_eq!(t, "hi"),
        _ => panic!("expected the slot content"),
    }

    let mut bare = Node::Component(component("<Card/>", "Root"));
    fill_holes(&mut bare, &defs).ok().unwrap();
    match only_child(only_child(&bare)) {
        Node::Element(div) => assert!(div.children.is_empty()),
        _ => panic!("expected the div"),
    }
}

#[test]
fn unknown_component_is_an_error() {
    let mut root = Node::Component(component("ab<Missing/>", "Root"));
    let e = fill_holes(&mut root, &vec![]).err().unwrap();
    assert_eq!(e, "[1:3]  Component Missing not found.");
}

#[test]
fn self_instantiation_is_marked_recursive() {
    let defs = vec![component("<div>{#if $x}<A/>{/if}</div>", "A")];
    let mut root = Node::Component(component("<A/>", "Root"));
    fill_holes(&mut root, &defs).ok().unwrap();
    let a = only_child(&root);
    let div = only_child(a);
    match only_child(div) {
        Node::ConditionalElements { children, .. } => match &children[0] {
            Node::Component(inner) => {
                assert_eq!(inner.name, "A");
                assert!(inner.recursive);
            }
            _ => panic!("expected the recursive instance"),
        },
        _ => panic!("expected the conditional"),
    }
}

#[test]
fn unconditional_recursion_fails_generation() {
    let e = web(&[("Root", "<A/>"), ("A", "<div><A/></div>")]).err().unwrap();
    assert_eq!(e, "Recursive component A in non-conditional context.");
}

#[test]
fn conditional_recursion_generates_a_self_calling_routine() {
    let out = web(&[("Root", "<A/>"), ("A", "<div>{#if $more}<A/>{/if}</div>")]).ok().unwrap();
    let start = out.find("const __createA").expect("creation routine");
    let name_end = out[start + 6..].find(' ').unwrap() + start + 6;
    let create_fn = &out[start + 6..name_end];
    assert!(out.matches(&format!("{}(props,", create_fn)).count() >= 2);
}

#[test]
fn sibling_instances_get_distinct_names() {
    let out = web(&[("Root", "<Counter/><Counter/>"), ("Counter", "<script>let count = 0;</script>")])
        .ok()
        .unwrap();
    let names: Vec<&str> = out
        .match_indices("let __Counter_")
        .map(|(i, _)| {
            let rest = &out[i + 4..];
            &rest[..rest.find(' ').unwrap()]
        })
        .collect();
    assert_eq!(names.len(), 2);
    assert_ne!(names[0], names[1]);
    assert!(names.iter().all(|n| n.ends_with("_count")));
}

#[test]
fn reactive_text_subscribes_to_its_cell() {
    let out = web(&[("Root", "<p>{$count}</p>")]).ok().unwrap();
    assert!(out.starts_with("<!DOCTYPE html>"));
    assert!(out.contains("<script>/*runtime*/</script>"));
    assert!(out.contains("if ((count).__STATE !== true) throw new Error(\"[Lilac runtime error]: $count can only be used with a state type.\")"));
    assert!(out.contains("(count).subscribe(() => "));
    assert!(out.contains(")(count.get()); "));
    assert!(out.contains("document.createTextNode(``)"));
}

#[test]
fn list_state_loop_adds_items_in_place() {
    let out = web(&[("Root", "<ul>{#for item in $lstate $items}<li>{item}</li>{/for}</ul>")]).ok().unwrap();
    assert!(out.contains("$items.__LSTATE !== true"));
    assert!(out.contains("$items.subscribeAdd((value, position) => {"));
    assert!(out.contains(".insertBefore(wrapper_span, "));
    assert!(out.contains("$items.subscribeRemove((position) => {"));
    assert!(out.contains("const item = arr[__i];"));
}

#[test]
fn static_markup_is_passed_through() {
    let out = web(&[("Root", "<p class=\"a b\" title=\"t\">hello<br></p>")]).ok().unwrap();
    assert!(out.ends_with("<p class=\"a b\" title=\"t\">hello<br></p>"));
}

#[test]
fn reactive_attribute_forces_construction_code() {
    let out = web(&[("Root", "<p title={$t}>x</p>")]).ok().unwrap();
    assert!(out.contains("document.createElement(\"p\")"));
    assert!(out.contains(".setAttribute(\"title\", val)"));
    assert!(out.contains("const __textNode"));
}

#[test]
fn bind_on_non_input_is_an_error() {
    let e = web(&[("Root", "<p bind={$v}>x</p>")]).err().unwrap();
    assert_eq!(e, "The bind attribute can only be used on input elements.");
    let out = web(&[("Root", "<input type=\"checkbox\" bind={$v}/>")]).ok().unwrap();
    assert!(out.contains(".onchange = (e) => {"));
}

#[test]
fn project_level_errors() {
    assert_eq!(web(&[("A", "x")]).err().unwrap(), "No root component found.");
    assert_eq!(
        web(&[("Root", "x"), ("Root", "y")]).err().unwrap(),
        "Conflicting definitions for component 'Root'."
    );
    let sources = vec![source("Root", Dialect::JsLilac, "x")];
    assert_eq!(
        compile_sources(&sources, "{", "").err().unwrap(),
        "Error parsing root.css: Expected selector"
    );
    let e = web(&[("Root", "<A/>"), ("A", "<b>")]).err().unwrap();
    assert_eq!(e, "[1:4]  Could not find closing tag for b");
}

#[test]
fn unsupported_dialect_in_web_tree() {
    let sources = vec![source("Root", Dialect::JsLilac, "<A/>"), source("A", Dialect::RsLilac, "x")];
    let e = compile_sources(&sources, "", "").err().unwrap();
    assert!(e.starts_with("Unsupported dialect for component A."));
}

#[test]
fn scene_graph_target() {
    let sources = vec![source("Root", Dialect::RsLilac, "<div class=\"c\"> {$count} </div>")];
    let out = compile_sources(&sources, ".c { color: #ff0000; }", "").ok().unwrap();
    assert!(out.contains("pub fn root("));
    assert!(out.contains("__count.get_copy()"));
    assert!(out.contains("count.clone().subscribe(Box::new(move |_| {"));
    assert!(out.contains("StyleProperty::Color(c(\"ff0000\"))"));
    assert!(out.contains("vec![\"c\".to_string()]"));
    let bad = vec![source("Root", Dialect::RsLilac, "x")];
    assert_eq!(
        compile_sources(&bad, ".c { margin: 0; }", "").err().unwrap(),
        "Unsupported style property margin."
    );
    assert_eq!(
        compile_sources(&bad, "p { color: red; }", "").err().unwrap(),
        "The scene-graph target supports class selectors only."
    );
}

#[test]
fn style_rules_of_scene_graph() {
    let rules = parse(".c { font-size: 12; } .d { margin: 0; }").ok().unwrap();
    let code = codegen_rules(&rules[0].properties).ok().unwrap();
    assert!(code.contains("StyleProperty::FontSize(12)"));
    assert!(codegen_rules(&rules[1].properties).is_err());
    let ok = parse(".d { border: 2; }").ok().unwrap();
    assert_eq!(
        codegen_rules(&ok[0].properties).err().unwrap(),
        "Missing value for style property border."
    );
}

#[test]
fn dotted_variable_names() {
    assert_eq!(rename_var("a.b.c"), "__adotbdotc");
    assert_eq!(rename_var(""), "__");
}

#[test]
fn identifiers_are_renamed_by_token() {
    assert_eq!(
        find_and_replace_js_identifiers("let a = a + ab + $a; 'a'", "a", "x"),
        "let x = x + ab + $x; 'a'"
    );
    assert_eq!(find_and_replace_js_identifiers("é + a", "a", "b"), "é + b");
    assert_eq!(find_and_replace_js_identifiers("", "a", "b"), "");
}

#[test]
fn renamer_prefixes_declared_identifiers() {
    let mut ids = IdCounter { next: 5 };
    let mut r = ComponentVariableRenamer::new(&"Card".to_string(), &mut ids);
    assert_eq!(r.prefix, "__Card_5_");
    assert_eq!(ids.next, 6);
    let out = r.process(&"let x = 1; function f() {} x + y + f()".to_string());
    assert_eq!(out, "let __Card_5_x = 1; function __Card_5_f() {} __Card_5_x + y + __Card_5_f()");
    assert_eq!(r.process_no_declared(&"$x + z".to_string()), "$__Card_5_x + z");
    let other = ComponentVariableRenamer::new(&"Card".to_string(), &mut ids);
    assert_ne!(other.prefix, r.prefix);
}

#[test]
fn counter_draws_fresh_numbers() {
    let mut ids = IdCounter::new();
    assert_eq!(uid(&mut ids), "0");
    assert_eq!(uid(&mut ids), "1");
    let mut last = IdCounter { next: u64::MAX };
    assert_eq!(uid(&mut last), "18446744073709551615");
    assert_eq!(last.next, 0);
}

#[test]
fn extensions_select_dialects() {
    assert_eq!(dialect_of_extension("lilac"), Some(Dialect::JsLilac));
    assert_eq!(dialect_of_extension("jslilac"), Some(Dialect::JsLilac));
    assert_eq!(dialect_of_extension("tslilac"), Some(Dialect::TsLilac));
    assert_eq!(dialect_of_extension("rslilac"), Some(Dialect::RsLilac));
    assert_eq!(dialect_of_extension("css"), None);
}

#[test]
fn configuration_version() {
    let c = Config::default();
    assert_eq!(c.lilac_version, LILAC_VERSION);
    assert_eq!(c.output_dir.as_deref(), Some("dist"));
    assert_eq!(c.output_type, "html");
    assert!(check_version(&c).is_ok());
    let old = Config { lilac_version: "0.0.1".to_string(), output_dir: None, output_type: "html".to_string() };
    assert_eq!(
        check_version(&old).err().unwrap(),
        format!("Version mismatch. Expected: {}, Found: 0.0.1", LILAC_VERSION)
    );
}

#[test]
fn host_page_entry() {
    let files = vec![
        File { name: "Root".to_string(), contents: "<Greeting/>".to_string() },
        File { name: "Greeting".to_string(), contents: "<b>hi</b>".to_string() },
    ];
    let out = wasm_compile_(files, "").ok().unwrap();
    assert!(out.ends_with("<b>hi</b>"));
    let none = wasm_compile_(vec![], "").err().unwrap();
    assert_eq!(none, "No root component found.");
}

#[test]
fn definitions_keep_file_order() {
    let sources = vec![source("B", Dialect::JsLilac, "b"), source("A", Dialect::TsLilac, "a")];
    let (defs, styles) = load_components(&sources).ok().unwrap();
    assert_eq!(defs[0].name, "B");
    assert_eq!(defs[1].name, "A");
    assert!(styles.is_empty());
}

#[test]
fn reactive_attribute_detection() {
    let c = component("<a x=\"1\" y={z}></a>", "R");
    match &c.children[0] {
        Node::Element(e) => assert!(has_reactive_attributes(&e.attributes)),
        _ => panic!("expected an element"),
    }
    assert!(!has_reactive_attributes(&vec![]));
}

#[test]
fn unknown_target_is_refused() {
    let node = Node::Text("x".to_string());
    let mut ids = IdCounter::new();
    assert_eq!(node.codegen(Target::Unknown, vec![], "", &mut ids).err().unwrap(), "Unknown target");
}

#[test]
fn slot_content_that_refers_to_itself_is_bounded() {
    let e = web(&[("Root", "<Card><Children/></Card>"), ("Card", "<div><Children/></div>")]).err().unwrap();
    assert_eq!(e, "Component nesting is too deep.");
}

#[test]
fn mutual_recursion_is_marked_on_the_second_visit() {
    let e = web(&[("Root", "<A/>"), ("A", "<B/>"), ("B", "<A/>")]).err().unwrap();
    assert_eq!(e, "Recursive component A in non-conditional context.");
}

#[test]
fn more_selector_errors() {
    assert_eq!(parse("# { }").err().unwrap().message, "Empty ID name.");
    assert_eq!(parse(": { }").err().unwrap().message, "Expected selector");
    assert_eq!(parse("a { b: c; } }").err().unwrap().message, "Unexpected \"}.\"");
    assert_eq!(parse("a { \"s\" }").err().unwrap().message, "Unexpected \"string\"");
    assert_eq!(parse("a { b; }").err().unwrap().message, "Expected colon");
    assert_eq!(parse("a { b: c; ; }").err().unwrap().message, "Unexpected \";\"");
    assert_eq!(parse("a { { }").err().unwrap().message, "Unexpected \"{\"");
    assert_eq!(parse("a { b: c: d; }").err().unwrap().message, "Unexpected \":\"");
}

#[test]
fn static_page_is_exact() {
    let out = web(&[("Root", "<p id=\"a\">hi <i>there</i></p>")]).ok().unwrap();
    assert_eq!(
        out,
        format!(
            "<!DOCTYPE html>\n<!-- This file was generated by Lilac v{}. -->\n<head>\n    <meta charset=\"UTF-8\">\n</head>\n<script>/*runtime*/</script>\n<style></style>\n<p id=\"a\">hi <i>there</i></p>",
            LILAC_VERSION
        )
    );
}

fn tok(kind: JsKind, text: &str, start: usize) -> JsToken {
    JsToken { kind, text: text.to_string(), start, end: start + text.len() }
}

#[test]
fn script_with_html_comment_opener_is_left_alone() {
    let src = "a<!-->\nb + a";
    assert_eq!(find_and_replace_js_identifiers(src, "a", "x"), src);
}

#[test]
fn dependencies_are_read_once_per_path() {
    let toks = vec![
        tok(JsKind::Ident, "x", 0),
        tok(JsKind::Period, ".", 1),
        tok(JsKind::Ident, "$y", 2),
        tok(JsKind::Other, "+", 5),
        tok(JsKind::Ident, "$y", 7),
        tok(JsKind::Other, "+", 10),
        tok(JsKind::Ident, "$$y", 12),
    ];
    let deps = reactive_dependencies(&toks);
    assert_eq!(
        deps,
        vec![("y".to_string(), "x.".to_string()), ("y".to_string(), "".to_string())]
    );
}

#[test]
fn declared_identifiers_from_tokens() {
    let toks = vec![
        tok(JsKind::Keyword, "let", 0),
        tok(JsKind::Ident, "a", 4),
        tok(JsKind::Other, "=", 6),
        tok(JsKind::Ident, "b", 8),
        tok(JsKind::Keyword, "const", 10),
        tok(JsKind::Ident, "a", 16),
    ];
    let mut acc = vec![];
    add_declared_identifiers(&toks, &mut acc);
    assert_eq!(acc, vec!["a".to_string()]);
}

#[test]
fn identifiers_renamed_from_given_tokens() {
    let toks = vec![tok(JsKind::Keyword, "let", 0), tok(JsKind::Ident, "a", 4), tok(JsKind::Ident, "$a", 8)];
    assert_eq!(rename_identifiers("let a = $a", &toks, "a", "q"), "let q = $q");
}

#[test]
fn parse_errors_come_before_the_missing_root() {
    assert_eq!(web(&[("A", "<b>")]).err().unwrap(), "[1:4]  Could not find closing tag for b");
    assert_eq!(web(&[("A", "x")]).err().unwrap(), "No root component found.");
}

#[test]
fn subscription_lines_read_as_generated() {
    let out = web(&[("Root", "<p>{$count}</p><p>{obj.$n}</p>")]).ok().unwrap();
    assert!(out.contains("if ((count).__STATE !== true) throw new Error(\"[Lilac runtime error]: $count can only be used with a state type.\");\n (count).subscribe(() => ("));
    assert!(!out.contains("((count).subscribe"));
    assert!(out.contains("if ((obj.n).__STATE !== true) throw new Error(\"[Lilac runtime error]: obj.$n can only be used with a state type.\");\n (obj.n).subscribe(() => ("));
    assert!(out.contains(")(obj.n.get()));"));
}

#[test]
fn script_with_code_point_escape_is_left_alone() {
    let src = "let a = `\\u{123456789}`; a";
    assert_eq!(find_and_replace_js_identifiers(src, "a", "x"), src);
}

#[test]
fn blank_text_is_filtered_in_place() {
    let mut n = Node::Component(component("<div> <b>x</b>\n</div>", "Root"));
    lilac::utils::filter_whitespace_nodes(&mut n);
    match only_child(&n) {
        Node::Element(div) => {
            assert_eq!(div.children.len(), 1);
            assert!(matches!(&div.children[0], Node::Element(b) if b.name == "b"));
        }
        _ => panic!("expected the div"),
    }
}
