//! The compilation's counter of generated names, and small tree helpers.
use vstd::prelude::*;
use crate::text::{all_ws, decimal, decimal_string};
use crate::rs_codegen::{all_gl, gl_generates, lemma_all_gl_push};
use crate::tree::{copy_node, lemma_nodes_view_push, node_view, nodes_view, NodeV};
use crate::{Component, Node};

pub use crate::js_component_scoping::find_and_replace_js_identifiers;
pub use crate::text::is_all_whitespace;

verus! {

/// The counter that every generated name draws a fresh number from. One
/// counter serves one compilation, so no two names drawn from it collide.
pub struct IdCounter {
    pub next: u64,
}

impl IdCounter {
    pub fn new() -> (r: IdCounter)
        ensures
            r.next == 0,
    {
        IdCounter { next: 0 }
    }
}

/// The counter's value after one more draw.
pub open spec fn bumped(n: u64) -> u64 {
    if n == u64::MAX {
        0
    } else {
        (n + 1) as u64
    }
}

/// Draws a fresh number from the counter, in decimal.
pub fn uid(ids: &mut IdCounter) -> (r: String)
    ensures
        r@ == decimal(old(ids).next as nat),
        final(ids).next == bumped(old(ids).next),
{
    let n = ids.next;
    ids.next = if n == u64::MAX {
        0
    } else {
        n + 1
    };
    decimal_string(n as u128)
}

/// The children of a node that has them.
pub fn children_of(node: &Node) -> (r: Option<&Vec<Node>>)
    ensures
        match node {
            Node::Component(c) => r == Some(&c.children),
            Node::Element(e) => r == Some(&e.children),
            Node::ConditionalElements { children, .. } => r == Some(children),
            Node::Loop { children, .. } => r == Some(children),
            _ => r is None,
        },
{
    match node {
        Node::Component(c) => Some(&c.children),
        Node::Element(e) => Some(&e.children),
        Node::ConditionalElements { children, .. } => Some(children),
        Node::Loop { children, .. } => Some(children),
        _ => None,
    }
}

/// Whether no text node made only of white space is left in a node.
pub open spec fn blank_free(n: NodeV) -> bool
    decreases n,
{
    match n {
        NodeV::Text(t) => !all_ws(t),
        NodeV::Component { children, .. } => all_blank_free(children),
        NodeV::Element { children, .. } => all_blank_free(children),
        NodeV::Conditional { children, .. } => all_blank_free(children),
        NodeV::Loop { children, .. } => all_blank_free(children),
        _ => true,
    }
}

pub open spec fn all_blank_free(s: Seq<NodeV>) -> bool
    decreases s,
{
    if s.len() == 0 {
        true
    } else {
        all_blank_free(s.subrange(0, s.len() - 1)) && blank_free(s[s.len() - 1])
    }
}

proof fn lemma_all_blank_free_push(s: Seq<NodeV>, n: NodeV)
    ensures
        all_blank_free(s.push(n)) == (all_blank_free(s) && blank_free(n)),
{
    assert(s.push(n).subrange(0, s.len() as int) =~= s);
}

/// A node without the text nodes, at any depth below it, that hold only
/// white space; the other nodes are kept, in order.
pub open spec fn filtered(n: NodeV) -> NodeV
    decreases n,
{
    match n {
        NodeV::Component { name, dialect, props, children, recursive } => NodeV::Component {
            name,
            dialect,
            props,
            children: filtered_seq(children),
            recursive,
        },
        NodeV::Element { name, id, classes, attributes, children } => NodeV::Element {
            name,
            id,
            classes,
            attributes,
            children: filtered_seq(children),
        },
        NodeV::Conditional { condition, children } => NodeV::Conditional {
            condition,
            children: filtered_seq(children),
        },
        NodeV::Loop { iterator_variable, iteratable, reactive_list, children } => NodeV::Loop {
            iterator_variable,
            iteratable,
            reactive_list,
            children: filtered_seq(children),
        },
        _ => n,
    }
}

/// A list of nodes without its white-space text nodes, each other node
/// filtered in turn, in order.
pub open spec fn filtered_seq(s: Seq<NodeV>) -> Seq<NodeV>
    decreases s,
{
    if s.len() == 0 {
        seq![]
    } else {
        let rest = filtered_seq(s.subrange(0, s.len() - 1));
        let last = s[s.len() - 1];
        if last is Text && all_ws(last->Text_0) {
            rest
        } else {
            rest.push(filtered(last))
        }
    }
}

/// Filtering keeps whether the scene-graph target can generate a node.
pub proof fn lemma_filtered_gl(n: NodeV)
    ensures
        gl_generates(filtered(n)) == gl_generates(n),
    decreases n,
{
    match n {
        NodeV::Component { children, .. } => lemma_filtered_seq_gl(children),
        NodeV::Element { children, .. } => lemma_filtered_seq_gl(children),
        NodeV::Conditional { children, .. } => lemma_filtered_seq_gl(children),
        NodeV::Loop { children, .. } => lemma_filtered_seq_gl(children),
        _ => {},
    }
}

pub proof fn lemma_filtered_seq_gl(s: Seq<NodeV>)
    ensures
        all_gl(filtered_seq(s)) == all_gl(s),
    decreases s,
{
    if s.len() > 0 {
        let pre = s.subrange(0, s.len() - 1);
        let last = s[s.len() - 1];
        lemma_filtered_seq_gl(pre);
        lemma_filtered_gl(last);
        lemma_all_gl_push(filtered_seq(pre), filtered(last));
    }
}

fn filter_whitespace_children(v: &Vec<Node>) -> (r: Vec<Node>)
    ensures
        all_blank_free(nodes_view(r@)),
        nodes_view(r@) == filtered_seq(nodes_view(v@)),
    decreases v,
{
    let mut out: Vec<Node> = Vec::new();
    let mut i: usize = 0;
    while i < v.len()
        invariant
            i <= v@.len(),
            all_blank_free(nodes_view(out@)),
            nodes_view(out@) == filtered_seq(nodes_view(v@.subrange(0, i as int))),
        decreases v@.len() - i,
    {
        assert(decreases_to!(v => v@[i as int]));
        proof {
            let pre = v@.subrange(0, i as int);
            assert(v@.subrange(0, i + 1) =~= pre.push(v@[i as int]));
            lemma_nodes_view_push(pre, v@[i as int]);
            assert(nodes_view(pre).push(node_view(v@[i as int])).subrange(0, nodes_view(pre).len() as int)
                =~= nodes_view(pre));
        }
        let keep = match &v[i] {
            Node::Text(t) => !is_all_whitespace(t.as_str()),
            _ => true,
        };
        if keep {
            let n = without_blank_text(&v[i]);
            proof {
                lemma_nodes_view_push(out@, n);
                lemma_all_blank_free_push(nodes_view(out@), node_view(n));
            }
            out.push(n);
        }
        i += 1;
    }
    proof {
        assert(v@.subrange(0, v@.len() as int) =~= v@);
    }
    out
}

/// A copy of a node without the text nodes, at any depth below it, that
/// hold only white space.
pub fn without_blank_text(node: &Node) -> (r: Node)
    ensures
        !(node is Text) ==> blank_free(node_view(r)),
        node is Text ==> node_view(r) == node_view(*node),
        node is Component <==> r is Component,
        node_view(r) == filtered(node_view(*node)),
    decreases node,
{
    match node {
        Node::Component(c) => Node::Component(
            Component {
                name: c.name.clone(),
                dialect: c.dialect,
                props: crate::tree::copy_attributes(&c.props),
                children: filter_whitespace_children(&c.children),
                recursive: c.recursive,
            },
        ),
        Node::Element(e) => {
            let children = filter_whitespace_children(&e.children);
            match copy_node(node) {
                Node::Element(mut c) => {
                    c.children = children;
                    Node::Element(c)
                },
                other => other,
            }
        },
        Node::ConditionalElements { condition, children } => Node::ConditionalElements {
            condition: condition.clone(),
            children: filter_whitespace_children(children),
        },
        Node::Loop { iterator_variable, iteratable, reactive_list, children } => Node::Loop {
            iterator_variable: iterator_variable.clone(),
            iteratable: iteratable.clone(),
            reactive_list: *reactive_list,
            children: filter_whitespace_children(children),
        },
        _ => copy_node(node),
    }
}

/// Removes from the tree under `node` the text nodes that hold only white
/// space; the other nodes stay, in order.
pub fn filter_whitespace_nodes(node: &mut Node)
    ensures
        node_view(*final(node)) == filtered(node_view(*old(node))),
{
    let filtered_node = without_blank_text(node);
    *node = filtered_node;
}

} // verus!
