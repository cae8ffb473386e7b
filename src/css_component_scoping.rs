//! Scopes a component's style rules to the component: each simple selector
//! becomes a class named after the component, and the elements it matched
//! receive that class.
use vstd::prelude::*;
use crate::css::{copy_selector, rule_view, sheet_view, Rule, RuleV, Selector, SelectorV, StyleSheet};
use crate::parse::strings_view;
use crate::text::{push_str, str_eq, string_from};
use crate::tree::copy_attributes;
use crate::{ClassList, Component, Element, Id, Node};

verus! {

/// `a ++ b ++ c`.
pub open spec fn cat3(a: Seq<char>, b: Seq<char>, c: Seq<char>) -> Seq<char> {
    a + b + c
}

/// What a rule's selector becomes once scoped with `prefix`: a lone tag,
/// class, id or universal selector turns into a class of its own; other
/// selectors stay as they are.
pub open spec fn scoped_selector(s: SelectorV, prefix: Seq<char>) -> SelectorV {
    match s {
        SelectorV::Tag(t) => SelectorV::Class(cat3("tag"@, prefix, t)),
        SelectorV::Class(c) => SelectorV::Class(cat3("class"@, prefix, c)),
        SelectorV::ID(i) => SelectorV::Class(cat3("id"@, prefix, i)),
        SelectorV::All => SelectorV::Class("all"@ + prefix),
        _ => s,
    }
}

/// The names that lone selectors of kind `kind` name, in rule order.
pub open spec fn selected_names(rules: Seq<RuleV>, kind: int) -> Seq<Seq<char>>
    decreases rules.len(),
{
    if rules.len() == 0 {
        seq![]
    } else {
        let rest = selected_names(rules.drop_last(), kind);
        match rules.last().selector {
            SelectorV::ID(n) if kind == 0 => rest.push(n),
            SelectorV::Class(n) if kind == 1 => rest.push(n),
            SelectorV::Tag(n) if kind == 2 => rest.push(n),
            _ => rest,
        }
    }
}

/// Whether some rule is the universal selector.
pub open spec fn has_all(rules: Seq<RuleV>) -> bool {
    exists|i: int| 0 <= i < rules.len() && #[trigger] rules[i].selector == SelectorV::All
}

fn prefixed(kind: &str, prefix: &str, name: &str) -> (r: String)
    ensures
        r@ == cat3(kind@, prefix@, name@),
{
    let mut r = string_from(kind);
    push_str(&mut r, prefix);
    push_str(&mut r, name);
    r
}

/// Scopes the rules' lone selectors with `prefix`; returns the ids, classes
/// and tags they named, and whether one was the universal selector.
fn handle_css(css: &mut StyleSheet, prefix: &str) -> (r: (Vec<String>, Vec<String>, Vec<String>, bool))
    ensures
        final(css)@.len() == old(css)@.len(),
        forall|i: int|
            0 <= i < old(css)@.len() ==> (#[trigger] final(css)@[i]).selector.view()
                == scoped_selector(old(css)@[i].selector.view(), prefix@)
                && final(css)@[i].properties == old(css)@[i].properties,
        strings_view(r.0@) == selected_names(sheet_view(old(css)@), 0),
        strings_view(r.1@) == selected_names(sheet_view(old(css)@), 1),
        strings_view(r.2@) == selected_names(sheet_view(old(css)@), 2),
        r.3 == has_all(sheet_view(old(css)@)),
{
    let ghost orig = css@;
    let mut ids: Vec<String> = Vec::new();
    let mut classes: Vec<String> = Vec::new();
    let mut tags: Vec<String> = Vec::new();
    let mut all = false;
    let mut out: Vec<Rule> = Vec::new();
    let mut moved: Vec<Rule> = Vec::new();
    std::mem::swap(&mut moved, css);
    let n = moved.len();
    let mut i: usize = 0;
    assert(sheet_view(orig).subrange(0, 0) =~= seq![]);
    assert(strings_view(ids@) =~= seq![]);
    assert(strings_view(classes@) =~= seq![]);
    assert(strings_view(tags@) =~= seq![]);
    while i < n
        invariant
            n == orig.len(),
            moved@.len() == n,
            i <= n,
            out@.len() == i,
            forall|j: int| i <= j < n ==> #[trigger] moved@[j] == orig[j],
            forall|j: int|
                0 <= j < i ==> (#[trigger] out@[j]).selector.view() == scoped_selector(
                    orig[j].selector.view(),
                    prefix@,
                ) && out@[j].properties == orig[j].properties,
            strings_view(ids@) == selected_names(
                sheet_view(orig).subrange(0, i as int),
                0,
            ),
            strings_view(classes@) == selected_names(
                sheet_view(orig).subrange(0, i as int),
                1,
            ),
            strings_view(tags@) == selected_names(
                sheet_view(orig).subrange(0, i as int),
                2,
            ),
            all == has_all(sheet_view(orig).subrange(0, i as int)),
        decreases n - i,
    {
        let mut rule = Rule { selector: Selector::Empty, properties: Vec::new() };
        std::mem::swap(&mut rule, &mut moved[i]);
        let ghost sv = sheet_view(orig).subrange(0, i + 1);
        proof {
            assert(sv.drop_last() =~= sheet_view(orig).subrange(0, i as int));
            assert(sv.last() == rule_view(rule));
        }
        let ghost ids0 = strings_view(ids@);
        let ghost classes0 = strings_view(classes@);
        let ghost tags0 = strings_view(tags@);
        let new_selector = match &rule.selector {
            Selector::Tag(t) => {
                tags.push(t.clone());
                assert(strings_view(tags@) =~= tags0.push(t@));
                Selector::Class(prefixed("tag", prefix, t.as_str()))
            },
            Selector::Class(c) => {
                classes.push(c.clone());
                assert(strings_view(classes@) =~= classes0.push(c@));
                Selector::Class(prefixed("class", prefix, c.as_str()))
            },
            Selector::ID(d) => {
                ids.push(d.clone());
                assert(strings_view(ids@) =~= ids0.push(d@));
                Selector::Class(prefixed("id", prefix, d.as_str()))
            },
            Selector::All => {
                all = true;
                let mut c = string_from("all");
                push_str(&mut c, prefix);
                Selector::Class(c)
            },
            other => copy_selector(other),
        };
        proof {
            let hs = sheet_view(orig).subrange(0, i as int);
            if rule.selector is All {
                assert(sv[i as int].selector == SelectorV::All);
            } else if has_all(sv) {
                let k = choose|k: int| 0 <= k < sv.len() && #[trigger] sv[k].selector == SelectorV::All;
                assert(k < i);
                assert(hs[k] == sv[k]);
            }
            if has_all(hs) {
                let k = choose|k: int| 0 <= k < hs.len() && #[trigger] hs[k].selector == SelectorV::All;
                assert(sv[k] == hs[k]);
            }
        }
        out.push(Rule { selector: new_selector, properties: rule.properties });
        i += 1;
    }
    proof {
        assert(sheet_view(orig).subrange(0, n as int) =~= sheet_view(orig));
    }
    *css = out;
    (ids, classes, tags, all)
}

/// The static class list of an element, if it has one (none counts as empty).
pub open spec fn static_classes(c: Option<ClassList>) -> Option<Seq<Seq<char>>> {
    match c {
        None => Some(seq![]),
        Some(ClassList::Static(v)) => Some(strings_view(v@)),
        Some(ClassList::Reactive(_)) => None,
    }
}

/// The reactive class expression of an element, if it has one.
pub open spec fn reactive_classes(c: Option<ClassList>) -> Option<Seq<char>> {
    match c {
        Some(ClassList::Reactive(x)) => Some(x@),
        _ => None,
    }
}

/// Appends `class` to an element's classes; a reactive class expression
/// gets it appended to its value.
fn add_class(e: &mut Element, class: String)
    ensures
        final(e).name == old(e).name,
        final(e).id == old(e).id,
        final(e).attributes == old(e).attributes,
        final(e).children == old(e).children,
        static_classes(old(e).classes) matches Some(ws) ==> static_classes(final(e).classes) == Some(
            ws.push(class@),
        ) && final(e).classes is Some,
        reactive_classes(old(e).classes) matches Some(x) ==> reactive_classes(final(e).classes)
            == Some("("@ + x + ") + \" "@ + class@ + "\""@),
{
    let mut cur: Option<ClassList> = None;
    std::mem::swap(&mut cur, &mut e.classes);
    e.classes = match cur {
        None => {
            let v = vec![class];
            assert(strings_view(v@) =~= seq![].push(class@));
            Some(ClassList::Static(v))
        },
        Some(ClassList::Static(mut v)) => {
            let ghost before = strings_view(v@);
            let ghost cv = class@;
            v.push(class);
            assert(strings_view(v@) =~= before.push(cv));
            Some(ClassList::Static(v))
        },
        Some(ClassList::Reactive(expr)) => {
            let mut x = string_from("(");
            push_str(&mut x, expr.as_str());
            push_str(&mut x, ") + \" ");
            push_str(&mut x, class.as_str());
            push_str(&mut x, "\"");
            Some(ClassList::Reactive(x))
        },
    };
}

fn contains_str(v: &Vec<String>, s: &str) -> (r: bool)
    ensures
        r == strings_view(v@).contains(s@),
{
    let mut i: usize = 0;
    while i < v.len()
        invariant
            i <= v@.len(),
            forall|j: int| 0 <= j < i ==> #[trigger] v@[j]@ != s@,
        decreases v@.len() - i,
    {
        if str_eq(v[i].as_str(), s) {
            assert(strings_view(v@)[i as int] == s@);
            return true;
        }
        i += 1;
    }
    proof {
        if strings_view(v@).contains(s@) {
            let k = choose|k: int| 0 <= k < v@.len() && #[trigger] strings_view(v@)[k] == s@;
            assert(v@[k]@ == s@);
        }
    }
    false
}

/// The classes that scoping adds for the words `ws` of a class list: one
/// for each word that a scoped class rule names, in order.
pub open spec fn class_adds(ws: Seq<Seq<char>>, classes: Seq<Seq<char>>, prefix: Seq<char>) -> Seq<
    Seq<char>,
>
    decreases ws.len(),
{
    if ws.len() == 0 {
        seq![]
    } else {
        let rest = class_adds(ws.drop_last(), classes, prefix);
        if classes.contains(ws.last()) {
            rest.push(cat3("class"@, prefix, ws.last()))
        } else {
            rest
        }
    }
}

/// The static class list that scoping gives an element whose static class
/// list was `base`.
pub open spec fn scoped_class_list(
    base: Seq<Seq<char>>,
    id: Option<Id>,
    name: Seq<char>,
    prefix: Seq<char>,
    ids: Seq<Seq<char>>,
    classes: Seq<Seq<char>>,
    tags: Seq<Seq<char>>,
    all: bool,
) -> Seq<Seq<char>> {
    let l1 = match id {
        Some(Id::Static(s)) => if ids.contains(s@) {
            base.push(cat3("id"@, prefix, s@))
        } else {
            base
        },
        _ => base,
    };
    let l2 = l1 + class_adds(l1, classes, prefix);
    let l3 = if tags.contains(name) {
        l2.push(cat3("tag"@, prefix, name))
    } else {
        l2
    };
    if all {
        l3.push("all"@ + prefix)
    } else {
        l3
    }
}

/// Gives an element the classes that the scoped rules select it by.
fn scope_element(
    e: &mut Element,
    prefix: &str,
    ids: &Vec<String>,
    classes: &Vec<String>,
    tags: &Vec<String>,
    all: bool,
)
    ensures
        final(e).name == old(e).name,
        final(e).id == old(e).id,
        final(e).attributes == old(e).attributes,
        final(e).children == old(e).children,
        static_classes(old(e).classes) matches Some(base) ==> static_classes(final(e).classes)
            == Some(
            scoped_class_list(
                base,
                old(e).id,
                old(e).name@,
                prefix@,
                strings_view(ids@),
                strings_view(classes@),
                strings_view(tags@),
                all,
            ),
        ),
        reactive_classes(old(e).classes) is Some ==> reactive_classes(final(e).classes) is Some,
{
    let ghost cv = strings_view(classes@);
    match &e.id {
        Some(Id::Static(s)) => {
            if contains_str(ids, s.as_str()) {
                let c = prefixed("id", prefix, s.as_str());
                add_class(e, c);
            }
        },
        _ => {},
    }
    let ghost l1 = static_classes(e.classes);
    let snapshot: Option<Vec<String>> = match &e.classes {
        Some(ClassList::Static(cl)) => {
            let mut copy: Vec<String> = Vec::new();
            let mut k: usize = 0;
            while k < cl.len()
                invariant
                    k <= cl@.len(),
                    copy@ == cl@.subrange(0, k as int),
                decreases cl@.len() - k,
            {
                copy.push(cl[k].clone());
                assert(copy@ =~= cl@.subrange(0, k + 1));
                k += 1;
            }
            assert(copy@ =~= cl@);
            Some(copy)
        },
        _ => None,
    };
    match snapshot {
        Some(list) => {
            let ghost lv = strings_view(list@);
            let mut i: usize = 0;
            assert(lv.subrange(0, 0) =~= seq![]);
            assert(l1 == Some(lv));
            while i < list.len()
                invariant
                    i <= list@.len(),
                    lv == strings_view(list@),
                    cv == strings_view(classes@),
                    static_classes(e.classes) == Some(lv + class_adds(lv.subrange(0, i as int), cv, prefix@)),
                    e.name == old(e).name,
                    e.id == old(e).id,
                    e.attributes == old(e).attributes,
                    e.children == old(e).children,
                decreases list@.len() - i,
            {
                let ghost before = class_adds(lv.subrange(0, i as int), cv, prefix@);
                proof {
                    assert(lv.subrange(0, i + 1).drop_last() =~= lv.subrange(0, i as int));
                    assert(lv.subrange(0, i + 1).last() == list@[i as int]@);
                }
                if contains_str(classes, list[i].as_str()) {
                    let c = prefixed("class", prefix, list[i].as_str());
                    add_class(e, c);
                    assert(lv + before.push(cat3("class"@, prefix@, list@[i as int]@)) =~= (lv
                        + before).push(cat3("class"@, prefix@, list@[i as int]@)));
                }
                i += 1;
            }
            assert(lv.subrange(0, list@.len() as int) =~= lv);
        },
        None => {
            if let Some(ClassList::Reactive(expr)) = &e.classes {
                let mut x = string_from("(");
                push_str(&mut x, expr.as_str());
                push_str(&mut x, ") + \" \" + (");
                push_str(&mut x, expr.as_str());
                push_str(&mut x, ").split(\" \").map((s) => \"class");
                push_str(&mut x, prefix);
                push_str(&mut x, "\" + s).join(\" \")");
                e.classes = Some(ClassList::Reactive(x));
            }
        },
    }
    if contains_str(tags, e.name.as_str()) {
        let c = prefixed("tag", prefix, e.name.as_str());
        add_class(e, c);
    }
    if all {
        let mut c = string_from("all");
        push_str(&mut c, prefix);
        add_class(e, c);
    }
}

fn scope_nodes(
    v: &Vec<Node>,
    prefix: &str,
    ids: &Vec<String>,
    classes: &Vec<String>,
    tags: &Vec<String>,
    all: bool,
) -> (r: Vec<Node>)
    ensures
        r@.len() == v@.len(),
        kids_scoped(
            v@,
            r@,
            prefix@,
            strings_view(ids@),
            strings_view(classes@),
            strings_view(tags@),
            all,
        ),
    decreases v,
{
    let mut out: Vec<Node> = Vec::new();
    let mut i: usize = 0;
    while i < v.len()
        invariant
            i <= v@.len(),
            out@.len() == i,
            kids_scoped(
                v@.subrange(0, i as int),
                out@,
                prefix@,
                strings_view(ids@),
                strings_view(classes@),
                strings_view(tags@),
                all,
            ),
        decreases v@.len() - i,
    {
        assert(decreases_to!(v => v@[i as int]));
        let n = replace_refs(&v[i], prefix, ids, classes, tags, all);
        proof {
            assert(v@.subrange(0, i + 1) =~= v@.subrange(0, i as int).push(v@[i as int]));
            lemma_kids_scoped_push(
                v@.subrange(0, i as int),
                out@,
                v@[i as int],
                n,
                prefix@,
                strings_view(ids@),
                strings_view(classes@),
                strings_view(tags@),
                all,
            );
        }
        out.push(n);
        i += 1;
    }
    proof {
        assert(v@.subrange(0, v@.len() as int) =~= v@);
    }
    out
}

/// Whether `after` is `before` scoped: the same tree, each element keeping
/// its name, id and attributes, and an element with a static class list (or
/// none) getting the scoped class list.
pub open spec fn element_scoped(
    before: Node,
    after: Node,
    prefix: Seq<char>,
    ids: Seq<Seq<char>>,
    classes: Seq<Seq<char>>,
    tags: Seq<Seq<char>>,
    all: bool,
) -> bool
    decreases before,
{
    match before {
        Node::Element(e) => match after {
            Node::Element(f) => f.name == e.name && f.id == e.id && f.attributes@ == e.attributes@ && (
            static_classes(e.classes) is Some ==> static_classes(f.classes) == Some(
                scoped_class_list(
                    static_classes(e.classes)->Some_0,
                    e.id,
                    e.name@,
                    prefix,
                    ids,
                    classes,
                    tags,
                    all,
                ),
            )) && kids_scoped(e.children@, f.children@, prefix, ids, classes, tags, all),
            _ => false,
        },
        Node::Component(c) => match after {
            Node::Component(d) => kids_scoped(c.children@, d.children@, prefix, ids, classes, tags, all),
            _ => false,
        },
        Node::ConditionalElements { children, .. } => match after {
            Node::ConditionalElements { children: c2, .. } => kids_scoped(
                children@,
                c2@,
                prefix,
                ids,
                classes,
                tags,
                all,
            ),
            _ => false,
        },
        Node::Loop { children, .. } => match after {
            Node::Loop { children: c2, .. } => kids_scoped(
                children@,
                c2@,
                prefix,
                ids,
                classes,
                tags,
                all,
            ),
            _ => false,
        },
        _ => !(after is Element) && !(after is Component) && !(after is ConditionalElements)
            && !(after is Loop),
    }
}

/// Whether each node of `after` is the node of `before` at its place, scoped.
pub open spec fn kids_scoped(
    before: Seq<Node>,
    after: Seq<Node>,
    prefix: Seq<char>,
    ids: Seq<Seq<char>>,
    classes: Seq<Seq<char>>,
    tags: Seq<Seq<char>>,
    all: bool,
) -> bool
    decreases before,
{
    before.len() == after.len() && (before.len() > 0 ==> kids_scoped(
        before.subrange(0, before.len() - 1),
        after.subrange(0, after.len() - 1),
        prefix,
        ids,
        classes,
        tags,
        all,
    ) && element_scoped(
        before[before.len() - 1],
        after[after.len() - 1],
        prefix,
        ids,
        classes,
        tags,
        all,
    ))
}

proof fn lemma_kids_scoped_push(
    before: Seq<Node>,
    after: Seq<Node>,
    b: Node,
    a: Node,
    prefix: Seq<char>,
    ids: Seq<Seq<char>>,
    classes: Seq<Seq<char>>,
    tags: Seq<Seq<char>>,
    all: bool,
)
    requires
        kids_scoped(before, after, prefix, ids, classes, tags, all),
        element_scoped(b, a, prefix, ids, classes, tags, all),
    ensures
        kids_scoped(before.push(b), after.push(a), prefix, ids, classes, tags, all),
{
    assert(before.push(b).subrange(0, before.len() as int) =~= before);
    assert(after.push(a).subrange(0, after.len() as int) =~= after);
}

fn copy_element_head(e: &Element) -> (r: Element)
    ensures
        r.name == e.name,
        r.id == e.id,
        r.attributes@ == e.attributes@,
        r.classes == e.classes || (e.classes matches Some(ClassList::Static(v)) && r.classes matches Some(
            ClassList::Static(w),
        ) && w@ == v@),
        r.children@.len() == 0,
{
    let classes = match &e.classes {
        None => None,
        Some(ClassList::Reactive(x)) => Some(ClassList::Reactive(x.clone())),
        Some(ClassList::Static(v)) => {
            let mut w: Vec<String> = Vec::new();
            let mut k: usize = 0;
            while k < v.len()
                invariant
                    k <= v@.len(),
                    w@ == v@.subrange(0, k as int),
                decreases v@.len() - k,
            {
                w.push(v[k].clone());
                assert(w@ =~= v@.subrange(0, k + 1));
                k += 1;
            }
            assert(w@ =~= v@);
            Some(ClassList::Static(w))
        },
    };
    let id = match &e.id {
        None => None,
        Some(Id::Static(s)) => Some(Id::Static(s.clone())),
        Some(Id::Reactive(s)) => Some(Id::Reactive(s.clone())),
    };
    Element { name: e.name.clone(), id, classes, attributes: copy_attributes(&e.attributes), children: Vec::new() }
}

/// A copy of a node in which every element has the classes that the scoped
/// rules select it by.
fn replace_refs(
    node: &Node,
    prefix: &str,
    ids: &Vec<String>,
    classes: &Vec<String>,
    tags: &Vec<String>,
    all: bool,
) -> (r: Node)
    ensures
        node is Element <==> r is Element,
        node is Component <==> r is Component,
        node is Element && static_classes(node->Element_0.classes) is Some ==> (r is Element
            && static_classes(r->Element_0.classes) == Some(
            scoped_class_list(
                static_classes(node->Element_0.classes)->Some_0,
                node->Element_0.id,
                node->Element_0.name@,
                prefix@,
                strings_view(ids@),
                strings_view(classes@),
                strings_view(tags@),
                all,
            ),
        )),
        node matches Node::Component(c) ==> (r matches Node::Component(d) && d.name == c.name
            && d.dialect == c.dialect && d.props@ == c.props@ && d.recursive == c.recursive),
        element_scoped(
            *node,
            r,
            prefix@,
            strings_view(ids@),
            strings_view(classes@),
            strings_view(tags@),
            all,
        ),
    decreases node,
{
    match node {
        Node::Element(e) => {
            let mut head = copy_element_head(e);
            scope_element(&mut head, prefix, ids, classes, tags, all);
            head.children = scope_nodes(&e.children, prefix, ids, classes, tags, all);
            Node::Element(head)
        },
        Node::Component(c) => Node::Component(
            Component {
                name: c.name.clone(),
                dialect: c.dialect,
                props: copy_attributes(&c.props),
                children: scope_nodes(&c.children, prefix, ids, classes, tags, all),
                recursive: c.recursive,
            },
        ),
        Node::ConditionalElements { condition, children } => Node::ConditionalElements {
            condition: condition.clone(),
            children: scope_nodes(children, prefix, ids, classes, tags, all),
        },
        Node::Loop { iterator_variable, iteratable, reactive_list, children } => Node::Loop {
            iterator_variable: iterator_variable.clone(),
            iteratable: iteratable.clone(),
            reactive_list: *reactive_list,
            children: scope_nodes(children, prefix, ids, classes, tags, all),
        },
        _ => crate::tree::copy_node(node),
    }
}

/// The prefix that scopes names to a component: `-Name-`.
pub open spec fn component_prefix(name: Seq<char>) -> Seq<char> {
    cat3("-"@, name, "-"@)
}

/// Scopes a component's rules to it: each lone tag, class, id or universal
/// selector becomes a class named after the component, and each element of
/// the component that the selector matched gets that class.
pub fn scope_css_to_component(component: Component, styles: StyleSheet) -> (r: (StyleSheet, Component))
    ensures
        r.0@.len() == styles@.len(),
        forall|i: int|
            0 <= i < styles@.len() ==> (#[trigger] r.0@[i]).selector.view() == scoped_selector(
                styles@[i].selector.view(),
                component_prefix(component.name@),
            ) && r.0@[i].properties == styles@[i].properties,
        r.1.name == component.name,
        r.1.dialect == component.dialect,
        r.1.props@ == component.props@,
        r.1.recursive == component.recursive,
        r.1.children@.len() == component.children@.len(),
        kids_scoped(
            component.children@,
            r.1.children@,
            component_prefix(component.name@),
            selected_names(sheet_view(styles@), 0),
            selected_names(sheet_view(styles@), 1),
            selected_names(sheet_view(styles@), 2),
            has_all(sheet_view(styles@)),
        ),
{
    let prefix = prefixed("-", component.name.as_str(), "-");
    let mut styles = styles;
    let (ids, classes, tags, all) = handle_css(&mut styles, prefix.as_str());
    let node = Node::Component(component);
    let scoped = replace_refs(&node, prefix.as_str(), &ids, &classes, &tags, all);
    match scoped {
        Node::Component(c) => (styles, c),
        _ => (styles, Component {
            name: String::new(),
            dialect: crate::Dialect::JsLilac,
            props: Vec::new(),
            children: Vec::new(),
            recursive: false,
        }),
    }
}

} // verus!
