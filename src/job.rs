//! Compilation targets, and the gathering of a component's style blocks
//! into one stylesheet.
use vstd::prelude::*;
use crate::css::{copy_rules, sheet_view, Rule, RuleV, StyleSheet};
use crate::tree::{copy_node, lemma_nodes_view_push, node_view, nodes_view, NodeV};
use crate::compile::{fill_holes, find_component};
use crate::css_component_scoping::scope_css_to_component;
use crate::js_codegen::cat;
use crate::parse::parse_full;
use crate::text::{str_eq, string_from};
use crate::utils::IdCounter;
use crate::{Component, Dialect, Element, File, Node};

verus! {

/// What the generated code runs on.
#[derive(PartialEq, Eq, Structural, Clone, Copy, Debug)]
pub enum Target {
    Unknown,
    Web,
    GL,
}

/// The target that a root component of dialect `d` is generated for.
pub fn target_of(d: Dialect) -> (r: Target)
    ensures
        r == (match d {
            Dialect::JsLilac => Target::Web,
            Dialect::TsLilac => Target::Web,
            Dialect::RsLilac => Target::GL,
        }),
{
    match d {
        Dialect::JsLilac => Target::Web,
        Dialect::TsLilac => Target::Web,
        Dialect::RsLilac => Target::GL,
    }
}

/// The rules of the style blocks in a node, in document order.
pub open spec fn node_styles(n: NodeV) -> Seq<RuleV>
    decreases n,
{
    match n {
        NodeV::Style(rules) => rules,
        NodeV::Component { children, .. } => seq_styles(children),
        NodeV::Element { children, .. } => seq_styles(children),
        NodeV::Conditional { children, .. } => seq_styles(children),
        NodeV::Loop { children, .. } => seq_styles(children),
        _ => seq![],
    }
}

/// The rules of the style blocks in a list of nodes, in document order.
pub open spec fn seq_styles(s: Seq<NodeV>) -> Seq<RuleV>
    decreases s,
{
    if s.len() == 0 {
        seq![]
    } else {
        seq_styles(s.subrange(0, s.len() - 1)) + node_styles(s[s.len() - 1])
    }
}

/// Whether no style block is left in a node.
pub open spec fn style_free(n: NodeV) -> bool
    decreases n,
{
    match n {
        NodeV::Style(_) => false,
        NodeV::Component { children, .. } => all_style_free(children),
        NodeV::Element { children, .. } => all_style_free(children),
        NodeV::Conditional { children, .. } => all_style_free(children),
        NodeV::Loop { children, .. } => all_style_free(children),
        _ => true,
    }
}

pub open spec fn all_style_free(s: Seq<NodeV>) -> bool
    decreases s,
{
    if s.len() == 0 {
        true
    } else {
        all_style_free(s.subrange(0, s.len() - 1)) && style_free(s[s.len() - 1])
    }
}

proof fn lemma_sheet_view_concat(a: Seq<Rule>, b: Seq<Rule>)
    ensures
        sheet_view(a + b) == sheet_view(a) + sheet_view(b),
{
    assert(sheet_view(a + b) =~= sheet_view(a) + sheet_view(b));
}

/// A node without the style blocks at any depth below it; the other nodes
/// are kept, in order.
pub open spec fn unstyled(n: NodeV) -> NodeV
    decreases n,
{
    match n {
        NodeV::Component { name, dialect, props, children, recursive } => NodeV::Component {
            name,
            dialect,
            props,
            children: unstyled_seq(children),
            recursive,
        },
        NodeV::Element { name, id, classes, attributes, children } => NodeV::Element {
            name,
            id,
            classes,
            attributes,
            children: unstyled_seq(children),
        },
        NodeV::Conditional { condition, children } => NodeV::Conditional {
            condition,
            children: unstyled_seq(children),
        },
        NodeV::Loop { iterator_variable, iteratable, reactive_list, children } => NodeV::Loop {
            iterator_variable,
            iteratable,
            reactive_list,
            children: unstyled_seq(children),
        },
        _ => n,
    }
}

/// A list of nodes without its style blocks, each other node without its
/// own, in order.
pub open spec fn unstyled_seq(s: Seq<NodeV>) -> Seq<NodeV>
    decreases s,
{
    if s.len() == 0 {
        seq![]
    } else {
        let rest = unstyled_seq(s.subrange(0, s.len() - 1));
        let last = s[s.len() - 1];
        if last is Style {
            rest
        } else {
            rest.push(unstyled(last))
        }
    }
}

fn collect_nodes(v: &Vec<Node>) -> (r: (Vec<Rule>, Vec<Node>))
    ensures
        sheet_view(r.0@) == seq_styles(nodes_view(v@)),
        all_style_free(nodes_view(r.1@)),
        nodes_view(r.1@) == unstyled_seq(nodes_view(v@)),
    decreases v,
{
    let mut rules: Vec<Rule> = Vec::new();
    let mut kept: Vec<Node> = Vec::new();
    let mut i: usize = 0;
    assert(sheet_view(rules@) =~= seq![]);
    assert(v@.subrange(0, 0) =~= Seq::<Node>::empty());
    while i < v.len()
        invariant
            i <= v@.len(),
            sheet_view(rules@) == seq_styles(nodes_view(v@.subrange(0, i as int))),
            all_style_free(nodes_view(kept@)),
            nodes_view(kept@) == unstyled_seq(nodes_view(v@.subrange(0, i as int))),
        decreases v@.len() - i,
    {
        assert(decreases_to!(v => v@[i as int]));
        let (mut found, node) = collect_node(&v[i]);
        proof {
            let pre = v@.subrange(0, i as int);
            assert(v@.subrange(0, i + 1) =~= pre.push(v@[i as int]));
            lemma_nodes_view_push(pre, v@[i as int]);
            assert(nodes_view(pre).push(node_view(v@[i as int])).subrange(0, nodes_view(pre).len() as int)
                =~= nodes_view(pre));
            lemma_sheet_view_concat(rules@, found@);
        }
        rules.append(&mut found);
        match node {
            Some(n) => {
                proof {
                    lemma_nodes_view_push(kept@, n);
                    assert(nodes_view(kept@).push(node_view(n)).subrange(
                        0,
                        nodes_view(kept@).len() as int,
                    ) =~= nodes_view(kept@));
                }
                kept.push(n);
            },
            None => {},
        }
        i += 1;
    }
    assert(v@.subrange(0, v@.len() as int) =~= v@);
    (rules, kept)
}

/// Takes the style blocks out of a node: their rules, in document order,
/// and the node without them (nothing for a style block itself).
fn collect_node(n: &Node) -> (r: (Vec<Rule>, Option<Node>))
    ensures
        sheet_view(r.0@) == node_styles(node_view(*n)),
        r.1 is None <==> n is StyleTag,
        r.1 matches Some(m) ==> style_free(node_view(m)),
        r.1 matches Some(m) ==> node_view(m) == unstyled(node_view(*n)),
        r.1 matches Some(m) ==> (n is Component <==> m is Component),
        n matches Node::Component(c) ==> (r.1 matches Some(Node::Component(d)) && d.name == c.name
            && d.dialect == c.dialect && d.props@ == c.props@ && d.recursive == c.recursive),
    decreases n,
{
    match n {
        Node::StyleTag(ss) => (copy_rules(ss), None),
        Node::Component(c) => {
            let (rules, children) = collect_nodes(&c.children);
            (
                rules,
                Some(
                    Node::Component(
                        Component {
                            name: c.name.clone(),
                            dialect: c.dialect,
                            props: crate::tree::copy_attributes(&c.props),
                            children,
                            recursive: c.recursive,
                        },
                    ),
                ),
            )
        },
        Node::Element(e) => {
            let (rules, children) = collect_nodes(&e.children);
            match copy_node(n) {
                Node::Element(mut c) => {
                    c.children = children;
                    (rules, Some(Node::Element(c)))
                },
                _ => (rules, None),
            }
        },
        Node::ConditionalElements { condition, children } => {
            let (rules, children) = collect_nodes(children);
            (rules, Some(Node::ConditionalElements { condition: condition.clone(), children }))
        },
        Node::Loop { iterator_variable, iteratable, reactive_list, children } => {
            let (rules, children) = collect_nodes(children);
            (
                rules,
                Some(
                    Node::Loop {
                        iterator_variable: iterator_variable.clone(),
                        iteratable: iteratable.clone(),
                        reactive_list: *reactive_list,
                        children,
                    },
                ),
            )
        },
        _ => {
            let rules: Vec<Rule> = Vec::new();
            assert(sheet_view(rules@) =~= seq![]);
            (rules, Some(copy_node(n)))
        },
    }
}

/// Takes a component's style blocks out of its tree and gathers their rules,
/// in document order.
pub fn collect_css(component: Component) -> (r: (StyleSheet, Component))
    ensures
        sheet_view(r.0@) == seq_styles(nodes_view(component.children@)),
        all_style_free(nodes_view(r.1.children@)),
        nodes_view(r.1.children@) == unstyled_seq(nodes_view(component.children@)),
        r.1.name == component.name,
        r.1.dialect == component.dialect,
        r.1.props@ == component.props@,
        r.1.recursive == component.recursive,
{
    let (rules, children) = collect_nodes(&component.children);
    (rules, Component { children, ..component })
}

/// One component's source text, named after its file, with the dialect
/// that the file's extension selects.
pub struct SourceFile {
    pub name: String,
    pub dialect: Dialect,
    pub contents: String,
}

/// The dialect that a file extension selects; none for other files.
pub fn dialect_of_extension(ext: &str) -> (r: Option<Dialect>)
    ensures
        r == (if ext@ == "lilac"@ || ext@ == "jslilac"@ {
            Some(Dialect::JsLilac)
        } else if ext@ == "tslilac"@ {
            Some(Dialect::TsLilac)
        } else if ext@ == "rslilac"@ {
            Some(Dialect::RsLilac)
        } else {
            None
        }),
{
    if str_eq(ext, "lilac") || str_eq(ext, "jslilac") {
        Some(Dialect::JsLilac)
    } else if str_eq(ext, "tslilac") {
        Some(Dialect::TsLilac)
    } else if str_eq(ext, "rslilac") {
        Some(Dialect::RsLilac)
    } else {
        None
    }
}

/// Whether two of the files share a name.
pub open spec fn has_duplicate_names(files: Seq<SourceFile>) -> bool {
    exists|a: int, b: int|
        0 <= a < b < files.len() && #[trigger] files[a].name@ == #[trigger] files[b].name@
}

/// Parses each source into a component definition, takes its style blocks
/// out and scopes them to it; returns the definitions, in file order, and
/// their rules.
/// Whether a component source parses.
pub open spec fn parses(contents: Seq<char>) -> bool {
    contents.len() < usize::MAX && crate::parse::parse_spec(contents, 0, contents.len() as int) is Ok
}

/// Whether every source of the project parses.
pub open spec fn all_parse(files: Seq<SourceFile>) -> bool {
    forall|i: int| 0 <= i < files.len() ==> #[trigger] parses(files[i].contents@)
}

pub fn load_components(files: &Vec<SourceFile>) -> (r: Result<(Vec<Component>, StyleSheet), String>)
    ensures
        r matches Ok((defs, _)) ==> defs@.len() == files@.len() && forall|i: int|
            0 <= i < files@.len() ==> #[trigger] defs@[i].name@ == files@[i].name@,
        has_duplicate_names(files@) ==> r is Err,
        r is Ok <==> all_parse(files@) && !has_duplicate_names(files@),
{
    let mut defs: Vec<Component> = Vec::new();
    let mut stylesheet: StyleSheet = Vec::new();
    let mut i: usize = 0;
    while i < files.len()
        invariant
            i <= files@.len(),
            defs@.len() == i,
            forall|k: int| 0 <= k < i ==> #[trigger] defs@[k].name@ == files@[k].name@,
            forall|a: int, b: int|
                0 <= a < b < i ==> #[trigger] files@[a].name@ != #[trigger] files@[b].name@,
            forall|k: int| 0 <= k < i ==> #[trigger] parses(files@[k].contents@),
        decreases files@.len() - i,
    {
        let f = &files[i];
        let component = match parse_full(f.contents.as_str(), f.name.as_str(), f.dialect) {
            Ok(c) => c,
            Err(e) => {
                assert(!parses(files@[i as int].contents@));
                return Err(e.format(f.contents.as_str()));
            },
        };
        assert(parses(files@[i as int].contents@));
        let (styles, component) = collect_css(component);
        let (mut styles, component) = scope_css_to_component(component, styles);
        stylesheet.append(&mut styles);
        if find_component(&defs, component.name.as_str()).is_some() {
            proof {
                let j = choose|j: int| 0 <= j < defs@.len() && #[trigger] defs@[j].name@ == component.name@;
                assert(files@[j].name@ == files@[i as int].name@);
                assert(has_duplicate_names(files@));
            }
            return Err(
                cat(&vec!["Conflicting definitions for component '", component.name.as_str(), "'."]),
            );
        }
        proof {
            assert forall|a: int| 0 <= a < i implies #[trigger] files@[a].name@ != files@[i as int].name@ by {
                assert(defs@[a].name@ == files@[a].name@);
            }
        }
        defs.push(component);
        i += 1;
    }
    Ok((defs, stylesheet))
}

/// Whether some file is named `Root`.
pub open spec fn has_root(files: Seq<SourceFile>) -> bool {
    exists|i: int| 0 <= i < files.len() && #[trigger] files[i].name@ == "Root"@
}

/// Resolves the component named `Root` against the definitions and
/// generates its output for `target`.
fn generate_root(
    defs: &Vec<Component>,
    stylesheet: StyleSheet,
    target: Option<Target>,
    runtime: &str,
) -> (r: Result<String, String>)
    ensures
        (forall|j: int| 0 <= j < defs@.len() ==> #[trigger] defs@[j].name@ != "Root"@) ==> (r is Err
            && r->Err_0@ == "No root component found."@),
{
    let root = match find_component(defs, "Root") {
        Some(i) => i,
        None => {
            return Err(string_from("No root component found."));
        },
    };
    let target = match target {
        Some(t) => t,
        None => target_of(defs[root].dialect),
    };
    let mut root_node = Node::Component(crate::tree::copy_component(&defs[root]));
    fill_holes(&mut root_node, defs)?;
    let mut ids = IdCounter::new();
    root_node.codegen(target, stylesheet, runtime, &mut ids)
}

/// Compiles a project: its component sources, its project-wide stylesheet
/// `root_css` (not scoped, after the components' rules) and the runtime
/// support script of the web target. The dialect of the component named
/// `Root` selects the target.
pub fn compile_sources(files: &Vec<SourceFile>, root_css: &str, runtime: &str) -> (r: Result<
    String,
    String,
>)
    ensures
        !has_root(files@) ==> r is Err,
        !has_root(files@) && all_parse(files@) && !has_duplicate_names(files@) && crate::css::stylesheet_of(
            root_css@,
        ) is Ok ==> (r is Err && r->Err_0@ == "No root component found."@),
        !all_parse(files@) || has_duplicate_names(files@) ==> r is Err,
{
    let (defs, mut stylesheet) = load_components(files)?;
    let mut root_rules = match crate::css::parse(root_css) {
        Ok(rules) => rules,
        Err(e) => {
            return Err(cat(&vec!["Error parsing root.css: ", e.message.as_str()]));
        },
    };
    stylesheet.append(&mut root_rules);
    proof {
        if !has_root(files@) {
            assert forall|j: int| 0 <= j < defs@.len() implies #[trigger] defs@[j].name@ != "Root"@ by {
                assert(defs@[j].name@ == files@[j].name@);
            }
        }
    }
    generate_root(&defs, stylesheet, None, runtime)
}

/// Compiles components handed over by a host page: all of them in the
/// JavaScript dialect, for the web target.
pub fn wasm_compile_(files: Vec<File>, runtime: &str) -> (r: Result<String, String>)
    ensures
        (forall|i: int| 0 <= i < files@.len() ==> #[trigger] files@[i].name@ != "Root"@) ==> r is Err,
        (forall|i: int| 0 <= i < files@.len() ==> #[trigger] files@[i].name@ != "Root"@) && (forall|
            i: int,
        | 0 <= i < files@.len() ==> #[trigger] parses(files@[i].contents@)) && !(exists|a: int, b: int|
            0 <= a < b < files@.len() && #[trigger] files@[a].name@ == #[trigger] files@[b].name@)
            ==> (r is Err && r->Err_0@ == "No root component found."@),
{
    let mut sources: Vec<SourceFile> = Vec::new();
    let mut i: usize = 0;
    let n = files.len();
    let ghost orig = files@;
    while i < n
        invariant
            n == orig.len(),
            i <= n,
            files@ == orig,
            sources@.len() == i,
            forall|k: int| 0 <= k < i ==> #[trigger] sources@[k].name@ == orig[k].name@,
            forall|k: int| 0 <= k < i ==> #[trigger] sources@[k].contents@ == orig[k].contents@,
        decreases n - i,
    {
        let f = &files[i];
        sources.push(
            SourceFile { name: f.name.clone(), dialect: Dialect::JsLilac, contents: f.contents.clone() },
        );
        i += 1;
    }
    proof {
        if forall|i: int| 0 <= i < orig.len() ==> #[trigger] parses(orig[i].contents@) {
            assert forall|i: int| 0 <= i < sources@.len() implies #[trigger] parses(sources@[i].contents@) by {
                assert(sources@[i].contents@ == orig[i].contents@);
            }
        }
        if has_duplicate_names(sources@) {
            let (a, b) = choose|a: int, b: int|
                0 <= a < b < sources@.len() && #[trigger] sources@[a].name@ == #[trigger] sources@[b].name@;
            assert(orig[a].name@ == orig[b].name@);
        }
    }
    let (defs, stylesheet) = load_components(&sources)?;
    proof {
        if forall|i: int| 0 <= i < orig.len() ==> #[trigger] orig[i].name@ != "Root"@ {
            assert forall|j: int| 0 <= j < defs@.len() implies #[trigger] defs@[j].name@ != "Root"@ by {
                assert(defs@[j].name@ == sources@[j].name@);
            }
        }
    }
    generate_root(&defs, stylesheet, Some(Target::Web), runtime)
}

} // verus!
