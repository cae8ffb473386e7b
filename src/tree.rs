//! The node tree as a mathematical value, and deep copies of its parts.
use vstd::prelude::*;
use crate::css::{copy_rules, sheet_view, RuleV};
use crate::{attrs_view, Attribute, AttributeV, ClassList, Component, Dialect, Element, Id, Node};

verus! {

pub enum IdV {
    Static(Seq<char>),
    Reactive(Seq<char>),
}

pub enum ClassListV {
    Static(Seq<Seq<char>>),
    Reactive(Seq<char>),
}

/// A node with its texts as character sequences and its children as
/// sequences of such nodes.
pub enum NodeV {
    Component {
        name: Seq<char>,
        dialect: Dialect,
        props: Seq<AttributeV>,
        children: Seq<NodeV>,
        recursive: bool,
    },
    Hole {
        name: Seq<char>,
        position: usize,
        props: Seq<AttributeV>,
        file_contents: Seq<char>,
        slot: Option<Seq<NodeV>>,
    },
    Element {
        name: Seq<char>,
        id: Option<IdV>,
        classes: Option<ClassListV>,
        attributes: Seq<AttributeV>,
        children: Seq<NodeV>,
    },
    Script { attributes: Seq<AttributeV>, code: Seq<char> },
    Style(Seq<RuleV>),
    Text(Seq<char>),
    ReactiveText(Seq<char>),
    Conditional { condition: Seq<char>, children: Seq<NodeV> },
    Loop {
        iterator_variable: Seq<char>,
        iteratable: Seq<char>,
        reactive_list: bool,
        children: Seq<NodeV>,
    },
}

pub open spec fn id_view(i: Id) -> IdV {
    match i {
        Id::Static(s) => IdV::Static(s@),
        Id::Reactive(s) => IdV::Reactive(s@),
    }
}

pub open spec fn class_view(c: ClassList) -> ClassListV {
    match c {
        ClassList::Static(v) => ClassListV::Static(crate::parse::strings_view(v@)),
        ClassList::Reactive(s) => ClassListV::Reactive(s@),
    }
}

pub open spec fn node_view(n: Node) -> NodeV
    decreases n,
{
    match n {
        Node::Component(c) => NodeV::Component {
            name: c.name@,
            dialect: c.dialect,
            props: attrs_view(c.props@),
            children: nodes_view(c.children@),
            recursive: c.recursive,
        },
        Node::ComponentHole { name, position, props, file_contents, children } => NodeV::Hole {
            name: name@,
            position,
            props: attrs_view(props@),
            file_contents: file_contents@,
            slot: match children {
                Some(v) => Some(nodes_view(v@)),
                None => None,
            },
        },
        Node::Element(e) => NodeV::Element {
            name: e.name@,
            id: match e.id {
                Some(i) => Some(id_view(i)),
                None => None,
            },
            classes: match e.classes {
                Some(c) => Some(class_view(c)),
                None => None,
            },
            attributes: attrs_view(e.attributes@),
            children: nodes_view(e.children@),
        },
        Node::ScriptTag(st) => NodeV::Script { attributes: attrs_view(st.attributes@), code: st.code@ },
        Node::StyleTag(ss) => NodeV::Style(sheet_view(ss@)),
        Node::Text(t) => NodeV::Text(t@),
        Node::ReactiveText(t) => NodeV::ReactiveText(t@),
        Node::ConditionalElements { condition, children } => NodeV::Conditional {
            condition: condition@,
            children: nodes_view(children@),
        },
        Node::Loop { iterator_variable, iteratable, reactive_list, children } => NodeV::Loop {
            iterator_variable: iterator_variable@,
            iteratable: iteratable@,
            reactive_list,
            children: nodes_view(children@),
        },
    }
}

pub open spec fn nodes_view(s: Seq<Node>) -> Seq<NodeV>
    decreases s,
{
    if s.len() == 0 {
        seq![]
    } else {
        nodes_view(s.subrange(0, s.len() - 1)).push(node_view(s[s.len() - 1]))
    }
}

pub proof fn lemma_nodes_view_len(s: Seq<Node>)
    ensures
        nodes_view(s).len() == s.len(),
    decreases s.len(),
{
    if s.len() > 0 {
        lemma_nodes_view_len(s.subrange(0, s.len() - 1));
    }
}

pub proof fn lemma_nodes_view_push(s: Seq<Node>, n: Node)
    ensures
        nodes_view(s.push(n)) == nodes_view(s).push(node_view(n)),
{
    assert(s.push(n).subrange(0, s.len() as int) =~= s);
}

fn copy_strings(v: &Vec<String>) -> (r: Vec<String>)
    ensures
        r@ == v@,
{
    let mut r: Vec<String> = Vec::new();
    let mut i: usize = 0;
    while i < v.len()
        invariant
            i <= v@.len(),
            r@ == v@.subrange(0, i as int),
        decreases v@.len() - i,
    {
        r.push(v[i].clone());
        assert(r@ =~= v@.subrange(0, i + 1));
        i += 1;
    }
    assert(r@ =~= v@);
    r
}

pub fn copy_attributes(v: &Vec<Attribute>) -> (r: Vec<Attribute>)
    ensures
        r@ == v@,
{
    let mut r: Vec<Attribute> = Vec::new();
    let mut i: usize = 0;
    while i < v.len()
        invariant
            i <= v@.len(),
            r@ == v@.subrange(0, i as int),
        decreases v@.len() - i,
    {
        r.push(v[i].duplicate());
        assert(r@ =~= v@.subrange(0, i + 1));
        i += 1;
    }
    assert(r@ =~= v@);
    r
}

fn copy_id(i: &Id) -> (r: Id)
    ensures
        r == *i,
{
    match i {
        Id::Static(s) => Id::Static(s.clone()),
        Id::Reactive(s) => Id::Reactive(s.clone()),
    }
}

fn copy_classes(c: &ClassList) -> (r: ClassList)
    ensures
        class_view(r) == class_view(*c),
{
    match c {
        ClassList::Static(v) => ClassList::Static(copy_strings(v)),
        ClassList::Reactive(s) => ClassList::Reactive(s.clone()),
    }
}

/// A deep copy of a list of nodes.
pub fn copy_nodes(v: &Vec<Node>) -> (r: Vec<Node>)
    ensures
        nodes_view(r@) == nodes_view(v@),
    decreases v,
{
    let mut r: Vec<Node> = Vec::new();
    let mut i: usize = 0;
    while i < v.len()
        invariant
            i <= v@.len(),
            nodes_view(r@) == nodes_view(v@.subrange(0, i as int)),
        decreases v@.len() - i,
    {
        assert(decreases_to!(v => v@[i as int]));
        let c = copy_node(&v[i]);
        proof {
            lemma_nodes_view_push(r@, c);
            assert(v@.subrange(0, i + 1).subrange(0, i as int) =~= v@.subrange(0, i as int));
        }
        r.push(c);
        i += 1;
    }
    assert(v@.subrange(0, v@.len() as int) =~= v@);
    r
}

/// A deep copy of a node.
pub fn copy_node(n: &Node) -> (r: Node)
    ensures
        node_view(r) == node_view(*n),
    decreases n,
{
    match n {
        Node::Component(c) => Node::Component(copy_component(c)),
        Node::ComponentHole { name, position, props, file_contents, children } => {
            let children = match children {
                Some(v) => Some(copy_nodes(v)),
                None => None,
            };
            Node::ComponentHole {
                name: name.clone(),
                position: *position,
                props: copy_attributes(props),
                file_contents: file_contents.clone(),
                children,
            }
        },
        Node::Element(e) => Node::Element(
            Element {
                name: e.name.clone(),
                id: match &e.id {
                    Some(i) => Some(copy_id(i)),
                    None => None,
                },
                classes: match &e.classes {
                    Some(c) => Some(copy_classes(c)),
                    None => None,
                },
                attributes: copy_attributes(&e.attributes),
                children: copy_nodes(&e.children),
            },
        ),
        Node::ScriptTag(st) => Node::ScriptTag(
            crate::ScriptTag { attributes: copy_attributes(&st.attributes), code: st.code.clone() },
        ),
        Node::StyleTag(ss) => Node::StyleTag(copy_rules(ss)),
        Node::Text(t) => Node::Text(t.clone()),
        Node::ReactiveText(t) => Node::ReactiveText(t.clone()),
        Node::ConditionalElements { condition, children } => Node::ConditionalElements {
            condition: condition.clone(),
            children: copy_nodes(children),
        },
        Node::Loop { iterator_variable, iteratable, reactive_list, children } => Node::Loop {
            iterator_variable: iterator_variable.clone(),
            iteratable: iteratable.clone(),
            reactive_list: *reactive_list,
            children: copy_nodes(children),
        },
    }
}

/// A deep copy of a component.
pub fn copy_component(c: &Component) -> (r: Component)
    ensures
        r.name == c.name,
        r.dialect == c.dialect,
        r.props@ == c.props@,
        nodes_view(r.children@) == nodes_view(c.children@),
        r.recursive == c.recursive,
    decreases c,
{
    Component {
        name: c.name.clone(),
        dialect: c.dialect,
        props: copy_attributes(&c.props),
        children: copy_nodes(&c.children),
        recursive: c.recursive,
    }
}

} // verus!
