//! The component resolver: replaces each reference to a component by an
//! instance of its definition, threads slot content into `Children`, and
//! marks instances that occur inside an instance of themselves.
use vstd::prelude::*;
use crate::parse::CompilerError;
use crate::text::{push_str, str_eq, string_from};
use crate::tree::{
    copy_attributes, copy_component, copy_node, copy_nodes, lemma_nodes_view_len, lemma_nodes_view_push, node_view,
    nodes_view, NodeV,
};
use crate::{attrs_view, Component, Element, Node};

verus! {

/// How many instantiations (and slot fillings) may nest inside one another.
/// Deeper nesting, which a slot filled with its own `Children` reference
/// makes endless, is the error "Component nesting is too deep.".
pub const MAX_NESTING: usize = 1000;

/// Whether no reference to a component is left in the tree, except inside
/// instances marked recursive, which are expanded only when generated code
/// runs.
pub open spec fn resolved(n: NodeV) -> bool
    decreases n,
{
    match n {
        NodeV::Hole { .. } => false,
        NodeV::Component { children, recursive, .. } => recursive || all_resolved(children),
        NodeV::Element { children, .. } => all_resolved(children),
        NodeV::Conditional { children, .. } => all_resolved(children),
        NodeV::Loop { children, .. } => all_resolved(children),
        _ => true,
    }
}

/// Whether every node of `s` is resolved.
pub open spec fn all_resolved(s: Seq<NodeV>) -> bool
    decreases s,
{
    if s.len() == 0 {
        true
    } else {
        all_resolved(s.subrange(0, s.len() - 1)) && resolved(s[s.len() - 1])
    }
}

pub proof fn lemma_all_resolved_push(s: Seq<NodeV>, n: NodeV)
    ensures
        all_resolved(s.push(n)) == (all_resolved(s) && resolved(n)),
{
    assert(s.push(n).subrange(0, s.len() as int) =~= s);
}

/// The name of a reference to a component.
pub open spec fn hole_name(n: Node) -> Option<Seq<char>> {
    match n {
        Node::ComponentHole { name, .. } => Some(name@),
        _ => None,
    }
}

/// The attributes given to a reference to a component.
pub open spec fn hole_props(n: Node) -> Seq<crate::Attribute> {
    match n {
        Node::ComponentHole { props, .. } => props@,
        _ => seq![],
    }
}

/// The name, props and recursive flag of a component instance.
pub open spec fn instance_info(n: Node) -> Option<(Seq<char>, Seq<crate::Attribute>, bool)> {
    match n {
        Node::Component(c) => Some((c.name@, c.props@, c.recursive)),
        _ => None,
    }
}

/// Whether `name` is among the enclosing instances.
pub open spec fn on_stack(stack: Seq<String>, name: Seq<char>) -> bool {
    exists|i: int| 0 <= i < stack.len() && #[trigger] stack[i]@ == name
}

/// Whether some definition is named `name`.
pub open spec fn is_defined(defs: Seq<Component>, name: Seq<char>) -> bool {
    exists|j: int| 0 <= j < defs.len() && #[trigger] defs[j].name@ == name
}

/// The index of the first definition named `name` in `defs[i..]`.
pub open spec fn def_index(defs: Seq<Component>, name: Seq<char>, i: int) -> Option<int>
    decreases defs.len() - i,
{
    if i < 0 || i >= defs.len() {
        None
    } else if defs[i].name@ == name {
        Some(i)
    } else {
        def_index(defs, name, i + 1)
    }
}

proof fn lemma_def_index_some(defs: Seq<Component>, name: Seq<char>, i: int, k: int)
    requires
        0 <= i <= k < defs.len(),
        defs[k].name@ == name,
        forall|j: int| i <= j < k ==> #[trigger] defs[j].name@ != name,
    ensures
        def_index(defs, name, i) == Some(k),
    decreases k - i,
{
    if i < k {
        lemma_def_index_some(defs, name, i + 1, k);
    }
}

proof fn lemma_def_index_none(defs: Seq<Component>, name: Seq<char>, i: int)
    requires
        0 <= i,
        forall|j: int| i <= j < defs.len() ==> #[trigger] defs[j].name@ != name,
    ensures
        def_index(defs, name, i) is None,
    decreases defs.len() - i,
{
    if i < defs.len() {
        lemma_def_index_none(defs, name, i + 1);
    }
}

pub open spec fn slot_view(slot: Option<Vec<Node>>) -> Option<Seq<NodeV>> {
    match slot {
        Some(v) => Some(nodes_view(v@)),
        None => None,
    }
}

pub open spec fn nesting_error() -> Seq<char> {
    "Component nesting is too deep."@
}

/// What resolving a node gives: its resolved form (none for an unfilled
/// `Children` reference), or the first error. `stack` holds the names of
/// the enclosing instances, `slot` the content given to the nearest of them,
/// `fuel` the nesting still allowed.
pub open spec fn resolve_spec(
    n: NodeV,
    stack: Seq<Seq<char>>,
    defs: Seq<Component>,
    slot: Option<Seq<NodeV>>,
    fuel: nat,
) -> Result<Option<NodeV>, Seq<char>>
    decreases fuel, n,
{
    match n {
        NodeV::Hole { name, position, props, file_contents, slot: given } => {
            let this_slot = if given is Some {
                given
            } else {
                slot
            };
            if name == "Children"@ {
                match slot {
                    None => Ok(None),
                    Some(v) => if fuel == 0 {
                        Err(nesting_error())
                    } else {
                        resolve_spec(
                            NodeV::Element {
                                name: seq![],
                                id: None,
                                classes: None,
                                attributes: seq![],
                                children: v,
                            },
                            stack,
                            defs,
                            this_slot,
                            (fuel - 1) as nat,
                        )
                    },
                }
            } else {
                match def_index(defs, name, 0) {
                    None => Err(
                        crate::parse::position_text(file_contents, position as int) + " "@
                            + "Component "@ + name + " not found."@,
                    ),
                    Some(i) => {
                        let d = defs[i];
                        if stack.contains(name) {
                            Ok(
                                Some(
                                    NodeV::Component {
                                        name: d.name@,
                                        dialect: d.dialect,
                                        props,
                                        children: nodes_view(d.children@),
                                        recursive: true,
                                    },
                                ),
                            )
                        } else if fuel == 0 {
                            Err(nesting_error())
                        } else {
                            match resolve_seq(
                                nodes_view(d.children@),
                                stack.push(name),
                                defs,
                                this_slot,
                                (fuel - 1) as nat,
                            ) {
                                Err(e) => Err(e),
                                Ok(cs) => Ok(
                                    Some(
                                        NodeV::Component {
                                            name: d.name@,
                                            dialect: d.dialect,
                                            props,
                                            children: cs,
                                            recursive: false,
                                        },
                                    ),
                                ),
                            }
                        }
                    },
                }
            }
        },
        NodeV::Component { name, dialect, props, children, recursive } => if recursive {
            Ok(Some(n))
        } else {
            match resolve_seq(children, stack, defs, slot, fuel) {
                Err(e) => Err(e),
                Ok(cs) => Ok(
                    Some(NodeV::Component { name, dialect, props, children: cs, recursive: false }),
                ),
            }
        },
        NodeV::Element { name, id, classes, attributes, children } => match resolve_seq(
            children,
            stack,
            defs,
            slot,
            fuel,
        ) {
            Err(e) => Err(e),
            Ok(cs) => Ok(Some(NodeV::Element { name, id, classes, attributes, children: cs })),
        },
        NodeV::Conditional { condition, children } => match resolve_seq(
            children,
            stack,
            defs,
            slot,
            fuel,
        ) {
            Err(e) => Err(e),
            Ok(cs) => Ok(Some(NodeV::Conditional { condition, children: cs })),
        },
        NodeV::Loop { iterator_variable, iteratable, reactive_list, children } => match resolve_seq(
            children,
            stack,
            defs,
            slot,
            fuel,
        ) {
            Err(e) => Err(e),
            Ok(cs) => Ok(
                Some(NodeV::Loop { iterator_variable, iteratable, reactive_list, children: cs }),
            ),
        },
        _ => Ok(Some(n)),
    }
}

/// What resolving a list of nodes gives, in order: the resolved nodes
/// without the unfilled `Children` references, or the first error.
pub open spec fn resolve_seq(
    s: Seq<NodeV>,
    stack: Seq<Seq<char>>,
    defs: Seq<Component>,
    slot: Option<Seq<NodeV>>,
    fuel: nat,
) -> Result<Seq<NodeV>, Seq<char>>
    decreases fuel, s,
{
    if s.len() == 0 {
        Ok(seq![])
    } else {
        match resolve_seq(s.subrange(0, s.len() - 1), stack, defs, slot, fuel) {
            Err(e) => Err(e),
            Ok(p) => match resolve_spec(s[s.len() - 1], stack, defs, slot, fuel) {
                Err(e) => Err(e),
                Ok(None) => Ok(p),
                Ok(Some(x)) => Ok(p.push(x)),
            },
        }
    }
}

/// What resolving a node's result looks like as values.
pub open spec fn resolve_result(r: Result<Option<Node>, String>) -> Result<Option<NodeV>, Seq<char>> {
    match r {
        Ok(Some(n)) => Ok(Some(node_view(n))),
        Ok(None) => Ok(None),
        Err(e) => Err(e@),
    }
}

/// What a `Children` reference becomes: an anonymous element that holds the
/// slot content as it was given, or nothing when no content was given.
pub fn fill_children_slot(slot: &Option<Vec<Node>>) -> (r: Option<Node>)
    ensures
        slot is None ==> r is None,
        slot matches Some(v) ==> (r matches Some(n) && node_view(n) == NodeV::Element {
            name: seq![],
            id: None,
            classes: None,
            attributes: seq![],
            children: nodes_view(v@),
        }),
{
    match slot {
        None => None,
        Some(v) => {
            let e = Element {
                name: String::new(),
                id: None,
                classes: None,
                attributes: Vec::new(),
                children: copy_nodes(v),
            };
            proof {
                assert(attrs_view(e.attributes@) =~= seq![]);
            }
            Some(Node::Element(e))
        },
    }
}

/// The index of the first definition named `name`.
pub fn find_component(defs: &Vec<Component>, name: &str) -> (r: Option<usize>)
    ensures
        match r {
            Some(i) => i < defs@.len() && defs@[i as int].name@ == name@ && forall|j: int|
                0 <= j < i ==> #[trigger] defs@[j].name@ != name@,
            None => forall|j: int| 0 <= j < defs@.len() ==> #[trigger] defs@[j].name@ != name@,
        },
{
    let mut i: usize = 0;
    while i < defs.len()
        invariant
            i <= defs@.len(),
            forall|j: int| 0 <= j < i ==> #[trigger] defs@[j].name@ != name@,
        decreases defs@.len() - i,
    {
        if str_eq(defs[i].name.as_str(), name) {
            return Some(i);
        }
        i += 1;
    }
    None
}

fn contains_name(stack: &Vec<String>, name: &str) -> (r: bool)
    ensures
        r == exists|i: int| 0 <= i < stack@.len() && #[trigger] stack@[i]@ == name@,
        r == crate::parse::strings_view(stack@).contains(name@),
{
    let mut i: usize = 0;
    while i < stack.len()
        invariant
            i <= stack@.len(),
            forall|j: int| 0 <= j < i ==> #[trigger] stack@[j]@ != name@,
        decreases stack@.len() - i,
    {
        if str_eq(stack[i].as_str(), name) {
            assert(crate::parse::strings_view(stack@)[i as int] == name@);
            return true;
        }
        i += 1;
    }
    false
}

fn pushed(stack: &Vec<String>, name: &String) -> (r: Vec<String>)
    ensures
        r@ == stack@.push(*name),
        crate::parse::strings_view(r@) == crate::parse::strings_view(stack@).push(name@),
{
    let mut r: Vec<String> = Vec::new();
    let mut i: usize = 0;
    while i < stack.len()
        invariant
            i <= stack@.len(),
            r@ == stack@.subrange(0, i as int),
        decreases stack@.len() - i,
    {
        r.push(stack[i].clone());
        assert(r@ =~= stack@.subrange(0, i + 1));
        i += 1;
    }
    r.push(name.clone());
    assert(r@ =~= stack@.push(*name));
    assert(crate::parse::strings_view(r@) =~= crate::parse::strings_view(stack@).push(name@));
    r
}

fn resolve_children(
    children: &Vec<Node>,
    stack: &Vec<String>,
    defs: &Vec<Component>,
    slot: &Option<Vec<Node>>,
    fuel: usize,
) -> (r: Result<Vec<Node>, String>)
    ensures
        r matches Ok(v) ==> all_resolved(nodes_view(v@)),
        match resolve_seq(
            nodes_view(children@),
            crate::parse::strings_view(stack@),
            defs@,
            slot_view(*slot),
            fuel as nat,
        ) {
            Ok(cs) => r is Ok && nodes_view(r->Ok_0@) == cs,
            Err(e) => r is Err && r->Err_0@ == e,
        },
    decreases fuel, children,
{
    let ghost st = crate::parse::strings_view(stack@);
    let ghost sv = slot_view(*slot);
    let mut out: Vec<Node> = Vec::new();
    let mut i: usize = 0;
    proof {
        assert(nodes_view(children@.subrange(0, 0)) =~= seq![]);
        assert(nodes_view(out@) =~= seq![]);
    }
    while i < children.len()
        invariant
            i <= children@.len(),
            all_resolved(nodes_view(out@)),
            st == crate::parse::strings_view(stack@),
            sv == slot_view(*slot),
            resolve_seq(nodes_view(children@.subrange(0, i as int)), st, defs@, sv, fuel as nat) == Ok::<
                Seq<NodeV>,
                Seq<char>,
            >(nodes_view(out@)),
        decreases children@.len() - i,
    {
        assert(decreases_to!(children => children@[i as int]));
        proof {
            let pre = children@.subrange(0, i as int);
            assert(children@.subrange(0, i + 1) =~= pre.push(children@[i as int]));
            lemma_nodes_view_push(pre, children@[i as int]);
            lemma_nodes_view_len(pre);
            assert(nodes_view(pre).push(node_view(children@[i as int])).subrange(
                0,
                nodes_view(pre).len() as int,
            ) =~= nodes_view(pre));
        }
        let filled = match resolve_node(&children[i], stack, defs, slot, fuel) {
            Ok(f) => f,
            Err(e) => {
                proof {
                    lemma_resolve_seq_prefix_err(children@, i as int, st, defs@, sv, fuel as nat);
                }
                return Err(e);
            },
        };
        match filled {
            Some(n) => {
                proof {
                    lemma_nodes_view_push(out@, n);
                    lemma_all_resolved_push(nodes_view(out@), node_view(n));
                }
                out.push(n);
            },
            None => {},
        }
        i += 1;
    }
    proof {
        assert(children@.subrange(0, children@.len() as int) =~= children@);
    }
    Ok(out)
}

/// Once a node fails, the whole list fails with that node's error.
proof fn lemma_resolve_seq_prefix_err(
    s: Seq<Node>,
    i: int,
    st: Seq<Seq<char>>,
    defs: Seq<Component>,
    slot: Option<Seq<NodeV>>,
    fuel: nat,
)
    requires
        0 <= i < s.len(),
        resolve_seq(nodes_view(s.subrange(0, i)), st, defs, slot, fuel) is Ok,
        resolve_spec(node_view(s[i]), st, defs, slot, fuel) is Err,
    ensures
        resolve_seq(nodes_view(s), st, defs, slot, fuel) == Err::<Seq<NodeV>, Seq<char>>(
            resolve_spec(node_view(s[i]), st, defs, slot, fuel)->Err_0,
        ),
    decreases s.len() - i,
{
    let pre = s.subrange(0, i + 1);
    assert(pre =~= s.subrange(0, i).push(s[i]));
    lemma_nodes_view_push(s.subrange(0, i), s[i]);
    lemma_nodes_view_len(s.subrange(0, i));
    assert(nodes_view(s.subrange(0, i)).push(node_view(s[i])).subrange(0, i) =~= nodes_view(
        s.subrange(0, i),
    ));
    lemma_resolve_seq_err_extends(s, i + 1, st, defs, slot, fuel);
}

/// An error of a prefix is the error of the whole list.
proof fn lemma_resolve_seq_err_extends(
    s: Seq<Node>,
    k: int,
    st: Seq<Seq<char>>,
    defs: Seq<Component>,
    slot: Option<Seq<NodeV>>,
    fuel: nat,
)
    requires
        0 <= k <= s.len(),
        resolve_seq(nodes_view(s.subrange(0, k)), st, defs, slot, fuel) is Err,
    ensures
        resolve_seq(nodes_view(s), st, defs, slot, fuel) == resolve_seq(
            nodes_view(s.subrange(0, k)),
            st,
            defs,
            slot,
            fuel,
        ),
    decreases s.len() - k,
{
    if k < s.len() {
        let next = s.subrange(0, k + 1);
        assert(next =~= s.subrange(0, k).push(s[k]));
        lemma_nodes_view_push(s.subrange(0, k), s[k]);
        lemma_nodes_view_len(s.subrange(0, k));
        assert(nodes_view(s.subrange(0, k)).push(node_view(s[k])).subrange(0, k) =~= nodes_view(
            s.subrange(0, k),
        ));
        lemma_resolve_seq_err_extends(s, k + 1, st, defs, slot, fuel);
    } else {
        assert(s.subrange(0, k) =~= s);
    }
}

/// Resolves one node: a reference to a component becomes an instance of its
/// definition, a `Children` reference becomes the slot content (or nothing),
/// and the children of other nodes are resolved in turn. `stack` holds the
/// names of the enclosing instances, `slot` the content given to the nearest
/// of them.
pub fn resolve_node(
    node: &Node,
    stack: &Vec<String>,
    defs: &Vec<Component>,
    slot: &Option<Vec<Node>>,
    fuel: usize,
) -> (r: Result<Option<Node>, String>)
    ensures
        r matches Ok(Some(n)) ==> resolved(node_view(n)),
        hole_name(*node) == Some("Children"@) && slot is None ==> r == Ok::<Option<Node>, String>(
            None,
        ),
        hole_name(*node) is Some && hole_name(*node)->Some_0 != "Children"@ && r is Ok
            && r->Ok_0 is Some ==> instance_info(r->Ok_0->Some_0) == Some(
            (
                hole_name(*node)->Some_0,
                hole_props(*node),
                on_stack(stack@, hole_name(*node)->Some_0),
            ),
        ),
        hole_name(*node) is Some && hole_name(*node)->Some_0 != "Children"@ && !is_defined(
            defs@,
            hole_name(*node)->Some_0,
        ) ==> r is Err,
        r is Ok && r->Ok_0 is None ==> hole_name(*node) == Some("Children"@) && slot is None,
        hole_name(*node) is Some && hole_name(*node)->Some_0 != "Children"@ && is_defined(
            defs@,
            hole_name(*node)->Some_0,
        ) && on_stack(stack@, hole_name(*node)->Some_0) ==> (r is Ok && r->Ok_0 is Some
            && instance_info(r->Ok_0->Some_0) == Some(
            (hole_name(*node)->Some_0, hole_props(*node), true),
        ) && exists|j: int|
            0 <= j < defs@.len() && #[trigger] defs@[j].name@ == hole_name(*node)->Some_0
                && nodes_view(r->Ok_0->Some_0->Component_0.children@) == nodes_view(
                defs@[j].children@,
            )),
        hole_name(*node) == Some("Children"@) && slot is Some && r is Ok ==> (r->Ok_0 is Some
            && r->Ok_0->Some_0 is Element && r->Ok_0->Some_0->Element_0.name@.len() == 0),
        node is Element && r is Ok ==> (r->Ok_0 is Some && r->Ok_0->Some_0 is Element
            && r->Ok_0->Some_0->Element_0.name@ == node->Element_0.name@),
        node is Component && r is Ok ==> (r->Ok_0 is Some && instance_info(r->Ok_0->Some_0)
            == instance_info(*node)),
        resolve_result(r) == resolve_spec(
            node_view(*node),
            crate::parse::strings_view(stack@),
            defs@,
            slot_view(*slot),
            fuel as nat,
        ),
        hole_name(*node) is Some && hole_name(*node)->Some_0 != "Children"@ && is_defined(
            defs@,
            hole_name(*node)->Some_0,
        ) && !on_stack(stack@, hole_name(*node)->Some_0) && fuel == 0 ==> (r is Err && r->Err_0@
            == "Component nesting is too deep."@),
        hole_name(*node) == Some("Children"@) && slot is Some && fuel == 0 ==> (r is Err && r->Err_0@
            == "Component nesting is too deep."@),
    decreases fuel, node,
{
    match node {
        Node::ComponentHole { name, position, props, file_contents, children } => {
            let this_slot = match children {
                Some(c) => Some(copy_nodes(c)),
                None => match slot {
                    Some(c) => Some(copy_nodes(c)),
                    None => None,
                },
            };
            if str_eq(name.as_str(), "Children") {
                let wrapper = match fill_children_slot(slot) {
                    Some(w) => w,
                    None => {
                        return Ok(None);
                    },
                };
                if fuel == 0 {
                    return Err(string_from("Component nesting is too deep."));
                }
                return resolve_node(&wrapper, stack, defs, &this_slot, fuel - 1);
            }
            let index = match find_component(defs, name.as_str()) {
                Some(i) => {
                    proof {
                        lemma_def_index_some(defs@, name@, 0, i as int);
                    }
                    i
                },
                None => {
                    proof {
                        lemma_def_index_none(defs@, name@, 0);
                    }
                    let mut message = string_from("Component ");
                    push_str(&mut message, name.as_str());
                    push_str(&mut message, " not found.");
                    let e = CompilerError { position: *position, message };
                    let text = e.format(file_contents.as_str());
                    assert(text@ =~= crate::parse::position_text(file_contents@, *position as int)
                        + " "@ + "Component "@ + name@ + " not found."@);
                    return Err(text);
                },
            };
            let mut instance = copy_component(&defs[index]);
            instance.props = copy_attributes(props);
            instance.recursive = contains_name(stack, name.as_str());
            if instance.recursive {
                return Ok(Some(Node::Component(instance)));
            }
            if fuel == 0 {
                return Err(string_from("Component nesting is too deep."));
            }
            let inner_stack = pushed(stack, name);
            assert(slot_view(this_slot) == (if children is Some {
                slot_view(*children)
            } else {
                slot_view(*slot)
            }));
            assert(nodes_view(instance.children@) == nodes_view(defs@[index as int].children@));
            let children = resolve_children(
                &instance.children,
                &inner_stack,
                defs,
                &this_slot,
                fuel - 1,
            )?;
            instance.children = children;
            Ok(Some(Node::Component(instance)))
        },
        Node::Component(c) => {
            if c.recursive {
                return Ok(Some(Node::Component(copy_component(c))));
            }
            let children = resolve_children(&c.children, stack, defs, slot, fuel)?;
            let n = Node::Component(
                Component {
                    name: c.name.clone(),
                    dialect: c.dialect,
                    props: copy_attributes(&c.props),
                    children,
                    recursive: false,
                },
            );
            Ok(Some(n))
        },
        Node::Element(e) => {
            let children = resolve_children(&e.children, stack, defs, slot, fuel)?;
            let copy = copy_node(node);
            match copy {
                Node::Element(mut c) => {
                    c.children = children;
                    let n = Node::Element(c);
                    Ok(Some(n))
                },
                _ => Ok(None),
            }
        },
        Node::ConditionalElements { condition, children } => {
            let children = resolve_children(children, stack, defs, slot, fuel)?;
            let n = Node::ConditionalElements { condition: condition.clone(), children };
            Ok(Some(n))
        },
        Node::Loop { iterator_variable, iteratable, reactive_list, children } => {
            let children = resolve_children(children, stack, defs, slot, fuel)?;
            let n = Node::Loop {
                iterator_variable: iterator_variable.clone(),
                iteratable: iteratable.clone(),
                reactive_list: *reactive_list,
                children,
            };
            Ok(Some(n))
        },
        _ => {
            let n = copy_node(node);
            assert(resolved(node_view(n)));
            Ok(Some(n))
        },
    }
}

/// Resolves every reference to a component in the tree under `root` against
/// the definitions `defs`.
pub fn fill_holes(root: &mut Node, defs: &Vec<Component>) -> (r: Result<(), String>)
    ensures
        r is Ok ==> resolved(node_view(*final(root))),
        match resolve_spec(node_view(*old(root)), seq![], defs@, None, MAX_NESTING as nat) {
            Ok(Some(n)) => r is Ok && node_view(*final(root)) == n,
            Ok(None) => r is Ok && node_view(*final(root)) == NodeV::Element {
                name: seq![],
                id: None,
                classes: None,
                attributes: seq![],
                children: seq![],
            },
            Err(e) => r is Err && r->Err_0@ == e,
        },
        *old(root) is Component && r is Ok ==> instance_info(*final(root)) == instance_info(
            *old(root),
        ),
        hole_name(*old(root)) is Some && hole_name(*old(root))->Some_0 != "Children"@ && !is_defined(
            defs@,
            hole_name(*old(root))->Some_0,
        ) ==> r is Err,
{
    let stack: Vec<String> = Vec::new();
    assert(crate::parse::strings_view(stack@) =~= seq![]);
    let filled = resolve_node(root, &stack, defs, &None, MAX_NESTING)?;
    match filled {
        Some(n) => {
            *root = n;
            Ok(())
        },
        None => {
            *root = Node::Element(
                Element {
                    name: String::new(),
                    id: None,
                    classes: None,
                    attributes: Vec::new(),
                    children: Vec::new(),
                },
            );
            proof {
                assert(nodes_view(Seq::<Node>::empty()) =~= seq![]);
                assert(attrs_view(Seq::<crate::Attribute>::empty()) =~= seq![]);
            }
            Ok(())
        },
    }
}

} // verus!
