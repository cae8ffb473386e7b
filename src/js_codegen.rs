//! The web generator: static HTML where a subtree never changes, and DOM
//! construction code with subscriptions to reactive cells where it does.
use vstd::prelude::*;
use crate::css::{Rule, Selector, StyleSheet};
use crate::js_component_scoping::{
    find_and_replace_js_identifiers, rename_all, scan_js, ComponentVariableRenamer, JsKind,
};
use crate::parse::strings_view;
use crate::parse::{is_void_element, is_void_name};
use crate::tree::{lemma_nodes_view_push, node_view, nodes_view, ClassListV, IdV, NodeV};
use crate::text::{decimal, push_str, str_eq, string_from};
use crate::utils::{bumped, uid, IdCounter};
use crate::{
    attrs_view, Attribute, AttributeV, ClassList, Component, Dialect, Element, Id, JSExpression, Node, ReactiveAttribute,
    ScriptTag, StaticAttribute,
};

verus! {

/// The version written into generated documents.
pub const LILAC_VERSION: &'static str = "0.1.0";

type CVR = ComponentVariableRenamer;

/// Where generated code goes: into static HTML, or into DOM construction
/// statements that append to the element held by a variable.
pub enum CodegenType {
    HTML,
    JSDom { parent_elem_var_name: String },
}

/// The variable of the element that construction code appends to; none for
/// static markup.
pub open spec fn parent_of(ty: CodegenType) -> Seq<char> {
    match ty {
        CodegenType::JSDom { parent_elem_var_name } => parent_elem_var_name@,
        CodegenType::HTML => seq![],
    }
}

impl CodegenType {
    pub fn is_html(&self) -> (r: bool)
        ensures
            r == (self is HTML),
    {
        match self {
            CodegenType::HTML => true,
            _ => false,
        }
    }
}

/// The creation functions of the recursive components being generated, by
/// component name; a later entry hides an earlier one.
pub type RecursiveMap = Vec<(String, String)>;

/// The concatenation of `parts`.
pub open spec fn concat(parts: Seq<Seq<char>>) -> Seq<char>
    decreases parts.len(),
{
    if parts.len() == 0 {
        seq![]
    } else {
        concat(parts.drop_last()) + parts.last()
    }
}

pub open spec fn strs_view(v: Seq<&str>) -> Seq<Seq<char>> {
    v.map_values(|s: &str| s@)
}

/// The concatenation of `parts`.
pub fn cat(parts: &Vec<&str>) -> (r: String)
    ensures
        r@ == concat(strs_view(parts@)),
{
    let mut r = String::new();
    let mut i: usize = 0;
    while i < parts.len()
        invariant
            i <= parts@.len(),
            r@ == concat(strs_view(parts@).subrange(0, i as int)),
        decreases parts@.len() - i,
    {
        proof {
            assert(strs_view(parts@).subrange(0, i + 1).drop_last() =~= strs_view(parts@).subrange(
                0,
                i as int,
            ));
        }
        push_str(&mut r, parts[i]);
        i += 1;
    }
    proof {
        assert(strs_view(parts@).subrange(0, parts@.len() as int) =~= strs_view(parts@));
    }
    r
}

/// The statement that throws a runtime error with `message`.
pub open spec fn rt_error(message: Seq<char>) -> Seq<char> {
    "throw new Error(\"[Lilac runtime error]: "@ + message + "\")"@
}

fn throw_rt_error(message: &str) -> (r: String)
    ensures
        r@ == rt_error(message@),
{
    let mut r = string_from("throw new Error(\"[Lilac runtime error]: ");
    push_str(&mut r, message);
    push_str(&mut r, "\")");
    r
}

/// The CSS text of a selector.
pub open spec fn selector_css(s: crate::css::SelectorV) -> Seq<char>
    decreases s,
{
    match s {
        crate::css::SelectorV::Empty => seq![],
        crate::css::SelectorV::All => "*"@,
        crate::css::SelectorV::ID(i) => "#"@ + i,
        crate::css::SelectorV::Class(c) => "."@ + c,
        crate::css::SelectorV::Tag(t) => t,
        crate::css::SelectorV::Pseudo(p) => ":"@ + p,
        crate::css::SelectorV::Descendant(a, b) => selector_css(*a) + " "@ + selector_css(*b),
        crate::css::SelectorV::Child(a, b) => selector_css(*a) + " > "@ + selector_css(*b),
        crate::css::SelectorV::NextSibling(a, b) => selector_css(*a) + " + "@ + selector_css(*b),
    }
}

impl Selector {
    /// The CSS text of the selector.
    pub fn codegen(&self) -> (r: String)
        ensures
            r@ == selector_css(self.view()),
        decreases self,
    {
        match self {
            Selector::Empty => String::new(),
            Selector::All => string_from("*"),
            Selector::ID(id) => {
                let mut r = string_from("#");
                push_str(&mut r, id.as_str());
                r
            },
            Selector::Class(class) => {
                let mut r = string_from(".");
                push_str(&mut r, class.as_str());
                r
            },
            Selector::Tag(tag) => tag.clone(),
            Selector::Pseduo(p) => {
                let mut r = string_from(":");
                push_str(&mut r, p.as_str());
                r
            },
            Selector::Descendant(a, b) => {
                let mut r = a.codegen();
                push_str(&mut r, " ");
                push_str(&mut r, b.codegen().as_str());
                r
            },
            Selector::Child(a, b) => {
                let mut r = a.codegen();
                push_str(&mut r, " > ");
                push_str(&mut r, b.codegen().as_str());
                r
            },
            Selector::NextSibling(a, b) => {
                let mut r = a.codegen();
                push_str(&mut r, " + ");
                push_str(&mut r, b.codegen().as_str());
                r
            },
        }
    }
}

/// The words of a property value joined with single spaces.
pub open spec fn joined_words(ws: Seq<Seq<char>>) -> Seq<char>
    decreases ws.len(),
{
    if ws.len() == 0 {
        seq![]
    } else if ws.len() == 1 {
        ws[0]
    } else {
        joined_words(ws.drop_last()) + " "@ + ws.last()
    }
}

/// The declarations of a rule's properties: `name:value;` each.
pub open spec fn properties_css(ps: Seq<crate::css::PropertyV>) -> Seq<char>
    decreases ps.len(),
{
    if ps.len() == 0 {
        seq![]
    } else {
        properties_css(ps.drop_last()) + ps.last().name + ":"@ + joined_words(ps.last().value)
            + ";"@
    }
}

/// The CSS text of a rule.
pub open spec fn rule_css(r: crate::css::RuleV) -> Seq<char> {
    selector_css(r.selector) + " {"@ + properties_css(r.properties) + "} "@
}

/// The CSS text of a stylesheet.
pub open spec fn sheet_css(rs: Seq<crate::css::RuleV>) -> Seq<char>
    decreases rs.len(),
{
    if rs.len() == 0 {
        seq![]
    } else {
        sheet_css(rs.drop_last()) + rule_css(rs.last())
    }
}

fn join_words(ws: &Vec<String>) -> (r: String)
    ensures
        r@ == joined_words(crate::parse::strings_view(ws@)),
{
    let ghost wv = crate::parse::strings_view(ws@);
    let mut r = String::new();
    let mut i: usize = 0;
    while i < ws.len()
        invariant
            i <= ws@.len(),
            wv == crate::parse::strings_view(ws@),
            r@ == joined_words(wv.subrange(0, i as int)),
        decreases ws@.len() - i,
    {
        proof {
            assert(wv.subrange(0, i + 1).drop_last() =~= wv.subrange(0, i as int));
        }
        if i > 0 {
            push_str(&mut r, " ");
        }
        push_str(&mut r, ws[i].as_str());
        i += 1;
    }
    proof {
        assert(wv.subrange(0, ws@.len() as int) =~= wv);
    }
    r
}

impl Rule {
    /// The CSS text of the rule.
    pub fn codegen(&self) -> (r: String)
        ensures
            r@ == rule_css(crate::css::rule_view(*self)),
    {
        let ghost pv = self.properties@.map_values(|p| crate::css::property_view(p));
        let mut code = self.selector.codegen();
        push_str(&mut code, " {");
        let ghost head = code@;
        let mut i: usize = 0;
        while i < self.properties.len()
            invariant
                i <= self.properties@.len(),
                pv == self.properties@.map_values(|p| crate::css::property_view(p)),
                code@ == head + properties_css(pv.subrange(0, i as int)),
            decreases self.properties@.len() - i,
        {
            proof {
                assert(pv.subrange(0, i + 1).drop_last() =~= pv.subrange(0, i as int));
            }
            let prop = &self.properties[i];
            push_str(&mut code, prop.name.as_str());
            push_str(&mut code, ":");
            let words = join_words(&prop.value);
            push_str(&mut code, words.as_str());
            push_str(&mut code, ";");
            i += 1;
        }
        proof {
            assert(pv.subrange(0, self.properties@.len() as int) =~= pv);
        }
        push_str(&mut code, "} ");
        code
    }
}

/// The CSS text of a stylesheet: its rules in order.
pub fn codegen_stylesheet(ss: &Vec<Rule>) -> (r: String)
    ensures
        r@ == sheet_css(crate::css::sheet_view(ss@)),
{
    let ghost sv = crate::css::sheet_view(ss@);
    let mut r = String::new();
    let mut i: usize = 0;
    while i < ss.len()
        invariant
            i <= ss@.len(),
            sv == crate::css::sheet_view(ss@),
            r@ == sheet_css(sv.subrange(0, i as int)),
        decreases ss@.len() - i,
    {
        proof {
            assert(sv.subrange(0, i + 1).drop_last() =~= sv.subrange(0, i as int));
        }
        push_str(&mut r, ss[i].codegen().as_str());
        i += 1;
    }
    proof {
        assert(sv.subrange(0, ss@.len() as int) =~= sv);
    }
    r
}

/// Whether one of the attributes is reactive.
pub fn has_reactive_attributes(attrs: &Vec<Attribute>) -> (r: bool)
    ensures
        r == exists|i: int| 0 <= i < attrs@.len() && #[trigger] attrs@[i] is Reactive,
{
    let mut i: usize = 0;
    while i < attrs.len()
        invariant
            i <= attrs@.len(),
            forall|j: int| 0 <= j < i ==> !(#[trigger] attrs@[j] is Reactive),
        decreases attrs@.len() - i,
    {
        if attrs[i].is_reactive() {
            return true;
        }
        i += 1;
    }
    false
}

fn starts_with_dollar(s: &str) -> (r: bool)
    ensures
        r == (s@.len() > 0 && s@[0] == '$'),
{
    s.unicode_len() > 0 && s.get_char(0) == '$'
}

/// The cells that the tokens `toks[i..]` read, as (name, namespace) pairs,
/// after the pairs `deps`: a `$name` identifier reads cell `name`, reached
/// through the dotted path that precedes it; each pair is kept once, in the
/// order of its first read. `last` is the previous name as it is read, `ns`
/// the path read so far.
pub open spec fn dep_scan(
    toks: Seq<crate::js_component_scoping::JsTokenV>,
    i: int,
    last: Seq<char>,
    ns: Seq<char>,
    deps: Seq<(Seq<char>, Seq<char>)>,
) -> Seq<(Seq<char>, Seq<char>)>
    decreases toks.len() - i,
{
    if i < 0 || i >= toks.len() {
        deps
    } else {
        let t = toks[i];
        if t.0 == JsKind::Ident {
            if t.1.len() > 0 && t.1[0] == '$' {
                let dep = t.1.subrange(crate::text::run_end(t.1, '$', 0), t.1.len() as int);
                dep_scan(
                    toks,
                    i + 1,
                    dep + ".get()"@,
                    seq![],
                    if deps.contains((dep, ns)) {
                        deps
                    } else {
                        deps.push((dep, ns))
                    },
                )
            } else {
                dep_scan(toks, i + 1, t.1, ns, deps)
            }
        } else if t.0 == JsKind::Period {
            dep_scan(toks, i + 1, last, ns + last + "."@, deps)
        } else {
            dep_scan(toks, i + 1, last, seq![], deps)
        }
    }
}

pub open spec fn deps_view(v: Seq<(String, String)>) -> Seq<(Seq<char>, Seq<char>)> {
    v.map_values(|d: (String, String)| (d.0@, d.1@))
}

fn contains_pair(deps: &Vec<(String, String)>, dep: &str, ns: &str) -> (r: bool)
    ensures
        r == deps_view(deps@).contains((dep@, ns@)),
{
    let mut i: usize = 0;
    while i < deps.len()
        invariant
            i <= deps@.len(),
            forall|j: int| 0 <= j < i ==> #[trigger] deps_view(deps@)[j] != (dep@, ns@),
        decreases deps@.len() - i,
    {
        if str_eq(deps[i].0.as_str(), dep) && str_eq(deps[i].1.as_str(), ns) {
            assert(deps_view(deps@)[i as int] == (dep@, ns@));
            return true;
        }
        i += 1;
    }
    false
}

/// The cells that a script's tokens read, once each, in the order of
/// their first read, with the dotted path each is reached through.
pub fn reactive_dependencies(toks: &Vec<crate::js_component_scoping::JsToken>) -> (r: Vec<(String, String)>)
    ensures
        deps_view(r@) == dep_scan(crate::js_component_scoping::js_tokens_view(toks@), 0, seq![], seq![], seq![]),
{
    let ghost tv = crate::js_component_scoping::js_tokens_view(toks@);
    let mut deps: Vec<(String, String)> = Vec::new();
    let mut last_name = String::new();
    let mut namespace = String::new();
    let mut i: usize = 0;
    assert(deps_view(deps@) =~= seq![]);
    while i < toks.len()
        invariant
            i <= toks@.len(),
            tv == crate::js_component_scoping::js_tokens_view(toks@),
            dep_scan(tv, i as int, last_name@, namespace@, deps_view(deps@)) == dep_scan(
                tv,
                0,
                seq![],
                seq![],
                seq![],
            ),
        decreases toks@.len() - i,
    {
        let t = &toks[i];
        assert(tv[i as int] == (t.kind, t.text@, t.start, t.end));
        if t.kind == JsKind::Ident {
            let name = t.text.as_str();
            if starts_with_dollar(name) {
                let dep = crate::text::trim_leading(name, '$');
                let mut read = dep.clone();
                push_str(&mut read, ".get()");
                if !contains_pair(&deps, dep.as_str(), namespace.as_str()) {
                    let ghost before = deps_view(deps@);
                    let ghost pair = (dep@, namespace@);
                    deps.push((dep, namespace));
                    assert(deps_view(deps@) =~= before.push(pair));
                }
                last_name = read;
                namespace = String::new();
            } else {
                last_name = t.text.clone();
            }
        } else if t.kind == JsKind::Period {
            push_str(&mut namespace, last_name.as_str());
            push_str(&mut namespace, ".");
        } else {
            namespace = String::new();
        }
        i += 1;
    }
    deps
}

/// `e` with each `$dep` read of `deps` turned into `dep.get()`, in turn.
pub open spec fn reads_rewritten(e: Seq<char>, deps: Seq<(Seq<char>, Seq<char>)>) -> Seq<char>
    decreases deps.len(),
{
    if deps.len() == 0 {
        e
    } else {
        let d = deps.last().0;
        crate::js_component_scoping::renamed(
            reads_rewritten(e, deps.drop_last()),
            "$"@ + d,
            d + ".get()"@,
        )
    }
}

/// For a cell `dep` reached through `ns`: a check that fails when the code
/// runs unless it is a cell, and a subscription that calls `update_fn` with
/// `value` whenever it changes.
pub open spec fn subscription_line(dep: Seq<char>, ns: Seq<char>, update_fn: Seq<char>, value: Seq<char>) -> Seq<
    char,
> {
    concat(
        seq![
            "if (("@,
            ns,
            dep,
            ").__STATE !== true) "@,
            rt_error(ns + "$"@ + dep + " can only be used with a state type."@),
            ";\n ("@,
            ns,
            dep,
            ").subscribe(() => ("@,
            update_fn,
            ")("@,
            value,
            "));"@,
        ],
    )
}

/// The lines for all cells of `deps`, one per line.
pub open spec fn subscription_lines(
    deps: Seq<(Seq<char>, Seq<char>)>,
    update_fn: Seq<char>,
    value: Seq<char>,
) -> Seq<char>
    decreases deps.len(),
{
    if deps.len() == 0 {
        seq![]
    } else if deps.len() == 1 {
        subscription_line(deps[0].0, deps[0].1, update_fn, value)
    } else {
        subscription_lines(deps.drop_last(), update_fn, value) + "\n"@ + subscription_line(
            deps.last().0,
            deps.last().1,
            update_fn,
            value,
        )
    }
}

fn subscription_for(dep: &str, ns: &str, update_fn: &str, value: &str) -> (r: String)
    ensures
        r@ == subscription_line(dep@, ns@, update_fn@, value@),
{
    proof {
        reveal_with_fuel(concat, 14);
    }
    let message = cat(&vec![ns, "$", dep, " can only be used with a state type."]);
    let not_state_err = throw_rt_error(message.as_str());
    cat(
        &vec![
            "if ((",
            ns,
            dep,
            ").__STATE !== true) ",
            not_state_err.as_str(),
            ";\n (",
            ns,
            dep,
            ").subscribe(() => (",
            update_fn,
            ")(",
            value,
            "));",
        ],
    )
}

/// The cells that an expression reads after renaming by `cvr`: none when
/// it holds text on which the scanner can panic, which is not scanned.
pub open spec fn expression_deps(e: Seq<char>) -> Seq<(Seq<char>, Seq<char>)> {
    if crate::js_component_scoping::trips_scanner(e) {
        seq![]
    } else {
        dep_scan(crate::js_component_scoping::js_tokens(e), 0, seq![], seq![], seq![])
    }
}

/// The subscriptions and the value of a reactive expression: `expr`, its
/// declared identifiers renamed by `cvr`, with its `$name` reads turned into
/// reads of reactive cells; and for each cell read, once, a check that it is
/// a cell (a value that is not fails when the code runs) and a subscription
/// that calls `update_fn` with the value again when it changes.
fn reactive_parts(expr: &JSExpression, update_fn: &str, cvr: &CVR) -> (r: (String, String))
    ensures
        ({
            let e0 = rename_all(expr@, strings_view(cvr.identifiers@), cvr.prefix@);
            let deps = expression_deps(e0);
            r.1@ == reads_rewritten(e0, deps) && r.0@ == subscription_lines(deps, update_fn@, r.1@)
        }),
{
    let mut e = cvr.process_no_declared(expr);
    let ghost e0 = e@;
    let deps = if crate::js_component_scoping::may_trip_scanner(e.as_str()) {
        let d: Vec<(String, String)> = Vec::new();
        assert(deps_view(d@) =~= seq![]);
        d
    } else {
        let toks = scan_js(e.as_str());
        reactive_dependencies(&toks)
    };
    let ghost dv = deps_view(deps@);
    let mut k: usize = 0;
    while k < deps.len()
        invariant
            k <= deps@.len(),
            dv == deps_view(deps@),
            e@ == reads_rewritten(e0, dv.subrange(0, k as int)),
        decreases deps@.len() - k,
    {
        proof {
            assert(dv.subrange(0, k + 1).drop_last() =~= dv.subrange(0, k as int));
            assert(dv[k as int] == (deps@[k as int].0@, deps@[k as int].1@));
        }
        let mut find = string_from("$");
        push_str(&mut find, deps[k].0.as_str());
        let mut read = deps[k].0.clone();
        push_str(&mut read, ".get()");
        e = find_and_replace_js_identifiers(e.as_str(), find.as_str(), read.as_str());
        k += 1;
    }
    proof {
        assert(dv.subrange(0, deps@.len() as int) =~= dv);
    }
    let mut subscriptions = String::new();
    let mut j: usize = 0;
    while j < deps.len()
        invariant
            j <= deps@.len(),
            dv == deps_view(deps@),
            subscriptions@ == subscription_lines(dv.subrange(0, j as int), update_fn@, e@),
        decreases deps@.len() - j,
    {
        proof {
            assert(dv.subrange(0, j + 1).drop_last() =~= dv.subrange(0, j as int));
            assert(dv[j as int] == (deps@[j as int].0@, deps@[j as int].1@));
        }
        if j > 0 {
            push_str(&mut subscriptions, "\n");
        }
        let line = subscription_for(deps[j].0.as_str(), deps[j].1.as_str(), update_fn, e.as_str());
        push_str(&mut subscriptions, line.as_str());
        j += 1;
    }
    proof {
        assert(dv.subrange(0, deps@.len() as int) =~= dv);
    }
    (subscriptions, e)
}

/// The call of `update_fn` with `value`, after `subscriptions`.
fn bind_call(update_fn: &str, subscriptions: &String, value: &String) -> (r: String)
    ensures
        r@ == bound_call(update_fn@, subscriptions@, value@),
{
    let r = cat(
        &vec![
            "\n        ",
            subscriptions.as_str(),
            "\n        (",
            update_fn,
            ")(",
            value.as_str(),
            "); \n        ",
        ],
    );
    proof {
        reveal_with_fuel(concat, 8);
    }
    r
}

/// Code that evaluates `expr` with its `$name` reads turned into reads of
/// reactive cells, passes the value to `update_fn`, and calls `update_fn`
/// again whenever one of those cells changes.
fn reactive_expression(expr: &JSExpression, update_fn: &str, cvr: &CVR) -> (r: JSExpression)
    ensures
        exists|subscriptions: Seq<char>, value: Seq<char>|
            r@ == #[trigger] bound_call(update_fn@, subscriptions, value),
        ({
            let e0 = rename_all(expr@, strings_view(cvr.identifiers@), cvr.prefix@);
            let value = reads_rewritten(e0, expression_deps(e0));
            r@ == bound_call(
                update_fn@,
                subscription_lines(expression_deps(e0), update_fn@, value),
                value,
            )
        }),
{
    let (subscriptions, value) = reactive_parts(expr, update_fn, cvr);
    bind_call(update_fn, &subscriptions, &value)
}

/// The statement that sets one prop of an instance.
pub open spec fn prop_line(a: AttributeV, ids: Seq<Seq<char>>, prefix: Seq<char>) -> Seq<char> {
    match a {
        AttributeV::Static(n, Some(v)) => "props."@ + n + " = \""@ + v + "\";"@,
        AttributeV::Static(n, None) => "props."@ + n + " = true;"@,
        AttributeV::Reactive(n, v) => "props."@ + n + " = "@ + rename_all(v, ids, prefix) + ";"@,
    }
}

/// The statements that set the props, one per line.
pub open spec fn prop_lines(ps: Seq<AttributeV>, ids: Seq<Seq<char>>, prefix: Seq<char>) -> Seq<char>
    decreases ps.len(),
{
    if ps.len() == 0 {
        seq![]
    } else if ps.len() == 1 {
        prop_line(ps[0], ids, prefix)
    } else {
        prop_lines(ps.drop_last(), ids, prefix) + "\n"@ + prop_line(ps.last(), ids, prefix)
    }
}

/// The code that builds the props object of an instance: nothing when it
/// has no props.
pub open spec fn props_set(ps: Seq<AttributeV>, ids: Seq<Seq<char>>, prefix: Seq<char>) -> Seq<char> {
    if ps.len() == 0 {
        seq![]
    } else {
        "const props = {};\n"@ + prop_lines(ps, ids, prefix) + "\n"@
    }
}

/// The statements that set the props of an instance, its reactive values
/// renamed by `cvr`: empty when it has none.
fn codegen_props_set(props: &Vec<Attribute>, cvr: &CVR) -> (r: JSExpression)
    ensures
        r@ == props_set(attrs_view(props@), strings_view(cvr.identifiers@), cvr.prefix@),
{
    let ghost pv = attrs_view(props@);
    let ghost ids = strings_view(cvr.identifiers@);
    if props.len() == 0 {
        return String::new();
    }
    let mut sets = String::new();
    let mut i: usize = 0;
    while i < props.len()
        invariant
            i <= props@.len(),
            pv == attrs_view(props@),
            ids == strings_view(cvr.identifiers@),
            sets@ == prop_lines(pv.subrange(0, i as int), ids, cvr.prefix@),
        decreases props@.len() - i,
    {
        proof {
            assert(pv.subrange(0, i + 1).drop_last() =~= pv.subrange(0, i as int));
            assert(pv[i as int] == props@[i as int].view());
            reveal_with_fuel(concat, 6);
        }
        if i > 0 {
            push_str(&mut sets, "\n");
        }
        let line = match &props[i] {
            Attribute::Static(StaticAttribute { name, value }) => match value {
                Some(v) => cat(&vec!["props.", name.as_str(), " = \"", v.as_str(), "\";"]),
                None => cat(&vec!["props.", name.as_str(), " = true;"]),
            },
            Attribute::Reactive(ReactiveAttribute { name, value }) => {
                let expr = cvr.process_no_declared(value);
                cat(&vec!["props.", name.as_str(), " = ", expr.as_str(), ";"])
            },
        };
        assert(line@ == prop_line(pv[i as int], ids, cvr.prefix@));
        push_str(&mut sets, line.as_str());
        i += 1;
    }
    proof {
        assert(pv.subrange(0, props@.len() as int) =~= pv);
        reveal_with_fuel(concat, 4);
    }
    cat(&vec!["const props = {};\n", sets.as_str(), "\n"])
}

fn rrm_get(rrm: &RecursiveMap, name: &str) -> (r: Option<String>)
    ensures
        match r {
            Some(f) => exists|i: int|
                0 <= i < rrm@.len() && #[trigger] rrm@[i].0@ == name@ && rrm@[i].1 == f && forall|
                    j: int,
                | i < j < rrm@.len() ==> #[trigger] rrm@[j].0@ != name@,
            None => forall|j: int| 0 <= j < rrm@.len() ==> #[trigger] rrm@[j].0@ != name@,
        },
{
    let mut i = rrm.len();
    while i > 0
        invariant
            i <= rrm@.len(),
            forall|j: int| i <= j < rrm@.len() ==> #[trigger] rrm@[j].0@ != name@,
        decreases i,
    {
        i -= 1;
        if str_eq(rrm[i].0.as_str(), name) {
            return Some(rrm[i].1.clone());
        }
    }
    None
}

fn rrm_with(rrm: &RecursiveMap, name: &String, f: &String) -> (r: RecursiveMap)
    ensures
        r@ == rrm@.push((*name, *f)),
{
    let mut r: RecursiveMap = Vec::new();
    let mut i: usize = 0;
    while i < rrm.len()
        invariant
            i <= rrm@.len(),
            r@ == rrm@.subrange(0, i as int),
        decreases rrm@.len() - i,
    {
        r.push((rrm[i].0.clone(), rrm[i].1.clone()));
        assert(r@ =~= rrm@.subrange(0, i + 1));
        i += 1;
    }
    r.push((name.clone(), f.clone()));
    assert(r@ =~= rrm@.push((*name, *f)));
    r
}

/// The markup of one static attribute: ` name="value"`, or ` name`.
pub open spec fn attr_markup(a: AttributeV) -> Seq<char> {
    match a {
        AttributeV::Static(n, Some(v)) => " "@ + n + "=\""@ + v + "\""@,
        AttributeV::Static(n, None) => " "@ + n,
        AttributeV::Reactive(_, _) => seq![],
    }
}

/// The markup of a list of static attributes.
pub open spec fn attrs_markup(a: Seq<AttributeV>) -> Seq<char>
    decreases a.len(),
{
    if a.len() == 0 {
        seq![]
    } else {
        attrs_markup(a.drop_last()) + attr_markup(a.last())
    }
}

/// Whether no attribute of the list is reactive.
pub open spec fn all_static(a: Seq<AttributeV>) -> bool {
    forall|i: int| 0 <= i < a.len() ==> !(#[trigger] a[i] is Reactive)
}

/// The static markup of a tree made of text and of elements whose id,
/// classes and attributes are all static; none for any other tree.
pub open spec fn static_markup(n: NodeV) -> Option<Seq<char>>
    decreases n,
{
    match n {
        NodeV::Text(t) => Some(t),
        NodeV::Element { name, id, classes, attributes, children } => if name.len() == 0 {
            seq_markup(children)
        } else if !all_static(attributes) || id matches Some(IdV::Reactive(_)) || classes matches Some(
            ClassListV::Reactive(_),
        ) {
            None
        } else {
            let head = "<"@ + name + match id {
                Some(IdV::Static(i)) => " id=\""@ + i + "\""@,
                _ => seq![],
            } + match classes {
                Some(ClassListV::Static(cs)) => " class=\""@ + joined_words(cs) + "\""@,
                _ => seq![],
            } + attrs_markup(attributes) + ">"@;
            if is_void_name(name) {
                Some(head)
            } else {
                match seq_markup(children) {
                    Some(inner) => Some(head + inner + "</"@ + name + ">"@),
                    None => None,
                }
            }
        },
        _ => None,
    }
}

/// The static markup of a list of nodes, one after the other.
pub open spec fn seq_markup(s: Seq<NodeV>) -> Option<Seq<char>>
    decreases s,
{
    if s.len() == 0 {
        Some(seq![])
    } else {
        match (seq_markup(s.subrange(0, s.len() - 1)), static_markup(s[s.len() - 1])) {
            (Some(a), Some(b)) => Some(a + b),
            _ => None,
        }
    }
}

proof fn lemma_seq_markup_push(s: Seq<NodeV>, n: NodeV)
    ensures
        seq_markup(s.push(n)) == match (seq_markup(s), static_markup(n)) {
            (Some(a), Some(b)) => Some(a + b),
            _ => None::<Seq<char>>,
        },
{
    assert(s.push(n).subrange(0, s.len() as int) =~= s);
}

/// The markup of an element's id, if it is static.
pub open spec fn id_markup(id: Option<Id>) -> Seq<char> {
    match id {
        Some(Id::Static(i)) => " id=\""@ + i@ + "\""@,
        _ => seq![],
    }
}

/// The markup of an element's class list, if it is static.
pub open spec fn class_markup(c: Option<ClassList>) -> Seq<char> {
    match c {
        Some(ClassList::Static(cs)) => " class=\""@ + joined_words(crate::parse::strings_view(cs@))
            + "\""@,
        _ => seq![],
    }
}

fn static_attrs_html(attrs: &Vec<Attribute>, code: &mut String) -> (r: Result<(), String>)
    ensures
        all_static(attrs_view(attrs@)) ==> r is Ok && final(code)@ == old(code)@ + attrs_markup(
            attrs_view(attrs@),
        ),
{
    let ghost av = attrs_view(attrs@);
    let ghost start = code@;
    let mut i: usize = 0;
    while i < attrs.len()
        invariant
            i <= attrs@.len(),
            av == attrs_view(attrs@),
            all_static(av) ==> code@ == start + attrs_markup(av.subrange(0, i as int)),
        decreases attrs@.len() - i,
    {
        proof {
            assert(av.subrange(0, i + 1).drop_last() =~= av.subrange(0, i as int));
            assert(av[i as int] == attrs@[i as int].view());
            reveal_with_fuel(concat, 6);
        }
        match &attrs[i] {
            Attribute::Static(StaticAttribute { name, value }) => match value {
                Some(v) => push_str(code, cat(&vec![" ", name.as_str(), "=\"", v.as_str(), "\""]).as_str()),
                None => push_str(code, cat(&vec![" ", name.as_str()]).as_str()),
            },
            Attribute::Reactive(_) => {
                return Err(string_from("Reactive attribute in static markup."));
            },
        }
        i += 1;
    }
    proof {
        assert(av.subrange(0, attrs@.len() as int) =~= av);
    }
    Ok(())
}

/// The statements that create a text node holding `t` and append it to the
/// element held by `parent`; `n` numbers the node's variable.
pub open spec fn text_node_js(t: Seq<char>, parent: Seq<char>, n: Seq<char>) -> Seq<char> {
    let v = "__textNode"@ + n;
    "const "@ + v + " = document.createTextNode(`"@ + t + "`);\n"@ + parent + ".appendChild("@ + v
        + ");\n"@
}

/// Generates one node. Text is passed through in static markup; reactive
/// text, conditionals and loops always become construction code.
pub fn codegen_js(
    node: &Node,
    ty: &CodegenType,
    cvr: &mut CVR,
    rrm: &RecursiveMap,
    ids: &mut IdCounter,
) -> (r: Result<String, String>)
    ensures
        ty is HTML && static_markup(node_view(*node)) is Some ==> (r matches Ok(s) && Some(s@)
            == static_markup(node_view(*node))),
        ty is HTML && static_markup(node_view(*node)) is Some ==> final(ids).next == old(ids).next,
        crate::compile::hole_name(*node) == Some("Children"@) ==> (r matches Ok(s) && s@.len() == 0),
        node is StyleTag ==> r is Err,
        crate::compile::hole_name(*node) is Some && crate::compile::hole_name(*node)->Some_0
            != "Children"@ && (ty is HTML || !(exists|i: int|
            0 <= i < rrm@.len() && #[trigger] rrm@[i].0@ == crate::compile::hole_name(
                *node,
            )->Some_0)) ==> r is Err,
        ty is JSDom && node is Text ==> (r is Ok && r->Ok_0@ == text_node_js(
            node->Text_0@,
            ty->JSDom_parent_elem_var_name@,
            decimal(old(ids).next as nat),
        )),
        ty is HTML && static_component(*node) ==> (r is Ok && Some(r->Ok_0@) == seq_markup(
            nodes_view(node->Component_0.children@),
        )),
        node is Component && node->Component_0.dialect != Dialect::RsLilac && !(
        node->Component_0.recursive && ty is HTML) && node->Component_0.children@.len() == 0 ==> r is Ok,
        ty is HTML && node is Component && node->Component_0.recursive && node->Component_0.dialect
            != Dialect::RsLilac ==> (r is Err && r->Err_0@ == recursion_message(
            node->Component_0.name@,
        )),
    decreases node, 3nat,
{
    match node {
        Node::Component(c) => component_codegen(c, ty, cvr, rrm, ids),
        Node::Element(e) => element_codegen(e, ty, cvr, rrm, ids),
        Node::Text(t) => match ty {
            CodegenType::HTML => Ok(t.clone()),
            CodegenType::JSDom { parent_elem_var_name } => {
                proof {
                    reveal_with_fuel(concat, 10);
                }
                let n = uid(ids);
                let v = cat(&vec!["__textNode", n.as_str()]);
                Ok(
                    cat(
                        &vec![
                            "const ",
                            v.as_str(),
                            " = document.createTextNode(`",
                            t.as_str(),
                            "`);\n",
                            parent_elem_var_name.as_str(),
                            ".appendChild(",
                            v.as_str(),
                            ");\n",
                        ],
                    ),
                )
            },
        },
        Node::ReactiveText(t) => Ok(reactive_text_codegen(t, ty, cvr, ids)),
        Node::Loop { iterator_variable, reactive_list, iteratable, children } => loop_codegen(
            *reactive_list,
            iterator_variable,
            iteratable,
            children,
            ty,
            cvr,
            rrm,
            ids,
        ),
        Node::ConditionalElements { condition, children } => conditional_elements_codegen(
            condition,
            children,
            ty,
            cvr,
            rrm,
            ids,
        ),
        Node::ComponentHole { name, props, .. } => {
            if str_eq(name.as_str(), "Children") {
                return Ok(String::new());
            }
            match rrm_get(rrm, name.as_str()) {
                Some(create_fn_name) => match ty {
                    CodegenType::JSDom { parent_elem_var_name } => {
                        let props_set = codegen_props_set(props, cvr);
                        Ok(
                            cat(
                                &vec![
                                    "{ ",
                                    props_set.as_str(),
                                    ";\n ",
                                    create_fn_name.as_str(),
                                    "(props, ",
                                    parent_elem_var_name.as_str(),
                                    "); }",
                                ],
                            ),
                        )
                    },
                    CodegenType::HTML => Err(
                        cat(&vec!["Recursive component ", name.as_str(), " in non-conditional context."]),
                    ),
                },
                None => Err(cat(&vec!["Component ", name.as_str(), " not replaced."])),
            }
        },
        Node::ScriptTag(st) => script_tag_codegen(st, ty, cvr),
        Node::StyleTag(_) => Err(string_from("Style blocks must be collected before generation.")),
    }
}

/// A script block: in static markup, a `<script>` element whose code has the
/// instance's declared identifiers renamed; in construction code, the code
/// itself as a statement.
fn script_tag_codegen(tag: &ScriptTag, ty: &CodegenType, cvr: &mut CVR) -> (r: Result<String, String>)
    ensures
        ty is JSDom ==> (r is Ok && r->Ok_0@ == tag.code@ + ";\n"@),
        ty is HTML && all_static(attrs_view(tag.attributes@)) ==> (r is Ok && r->Ok_0@ == "<script"@
            + attrs_markup(attrs_view(tag.attributes@)) + ">"@ + rename_all(
            tag.code@,
            strings_view(final(cvr).identifiers@),
            old(cvr).prefix@,
        ) + "</script>"@),
{
    proof {
        reveal_with_fuel(concat, 3);
    }
    match ty {
        CodegenType::HTML => {
            let code = cvr.process(&tag.code);
            let mut html = string_from("<script");
            static_attrs_html(&tag.attributes, &mut html)?;
            push_str(&mut html, ">");
            push_str(&mut html, code.as_str());
            push_str(&mut html, "</script>");
            Ok(html)
        },
        CodegenType::JSDom { .. } => Ok(cat(&vec![tag.code.as_str(), ";\n"])),
    }
}

fn children_codegen(
    children: &Vec<Node>,
    ty: &CodegenType,
    cvr: &mut CVR,
    rrm: &RecursiveMap,
    ids: &mut IdCounter,
) -> (r: Result<String, String>)
    ensures
        ty is HTML && seq_markup(nodes_view(children@)) is Some ==> (r matches Ok(s) && Some(s@)
            == seq_markup(nodes_view(children@))),
        ty is HTML && seq_markup(nodes_view(children@)) is Some ==> final(ids).next == old(ids).next,
        children@.len() == 0 ==> (r is Ok && r->Ok_0@.len() == 0),
    decreases children, 2nat,
{
    let ghost cv = nodes_view(children@);
    let mut code = String::new();
    let mut i: usize = 0;
    while i < children.len()
        invariant
            i <= children@.len(),
            cv == nodes_view(children@),
            ty is HTML && seq_markup(cv) is Some ==> seq_markup(
                nodes_view(children@.subrange(0, i as int)),
            ) == Some(code@),
            ty is HTML && seq_markup(cv) is Some ==> ids.next == old(ids).next,
            children@.len() == 0 ==> code@.len() == 0,
        decreases children@.len() - i,
    {
        assert(decreases_to!(children => children@[i as int]));
        proof {
            let pre = children@.subrange(0, i as int);
            assert(children@.subrange(0, i + 1) =~= pre.push(children@[i as int]));
            lemma_nodes_view_push(pre, children@[i as int]);
            lemma_seq_markup_push(nodes_view(pre), node_view(children@[i as int]));
            if ty is HTML && seq_markup(cv) is Some {
                lemma_seq_markup_prefix(children@, i as int + 1);
            }
        }
        let c = codegen_js(&children[i], ty, cvr, rrm, ids)?;
        push_str(&mut code, c.as_str());
        i += 1;
    }
    proof {
        assert(children@.subrange(0, children@.len() as int) =~= children@);
    }
    Ok(code)
}

/// A prefix of a list with static markup has static markup too.
proof fn lemma_seq_markup_prefix(s: Seq<Node>, k: int)
    requires
        0 <= k <= s.len(),
        seq_markup(nodes_view(s)) is Some,
    ensures
        seq_markup(nodes_view(s.subrange(0, k))) is Some,
        k > 0 ==> static_markup(node_view(s[k - 1])) is Some,
    decreases s.len() - k,
{
    if s.len() > 0 {
        assert(s.subrange(0, s.len() - 1).push(s[s.len() - 1]) =~= s);
        lemma_nodes_view_push(s.subrange(0, s.len() - 1), s[s.len() - 1]);
        lemma_seq_markup_push(nodes_view(s.subrange(0, s.len() - 1)), node_view(s[s.len() - 1]));
        if k < s.len() {
            lemma_seq_markup_prefix(s.subrange(0, s.len() - 1), k);
            assert(s.subrange(0, s.len() - 1).subrange(0, k) =~= s.subrange(0, k));
            if k > 0 {
                assert(s.subrange(0, s.len() - 1)[k - 1] == s[k - 1]);
            }
        } else {
            assert(s.subrange(0, k) =~= s);
        }
    }
}

fn element_codegen(
    e: &Element,
    ty: &CodegenType,
    cvr: &mut CVR,
    rrm: &RecursiveMap,
    ids: &mut IdCounter,
) -> (r: Result<String, String>)
    ensures
        ty is HTML && static_markup(node_view(Node::Element(*e))) is Some ==> (r matches Ok(s)
            && Some(s@) == static_markup(node_view(Node::Element(*e)))),
        ty is HTML && static_markup(node_view(Node::Element(*e))) is Some ==> final(ids).next == old(
            ids,
        ).next,
    decreases e, 2nat,
{
    if e.name.as_str().unicode_len() == 0 {
        return children_codegen(&e.children, ty, cvr, rrm, ids);
    }
    match ty {
        CodegenType::HTML => html_codegen(e, cvr, rrm, ids),
        CodegenType::JSDom { parent_elem_var_name } => jsdom_codegen(
            e,
            parent_elem_var_name,
            cvr,
            rrm,
            ids,
        ),
    }
}

/// Whether an element has a reactive id, class list or attribute.
pub open spec fn has_reactive_parts(e: Element) -> bool {
    (exists|i: int| 0 <= i < e.attributes@.len() && #[trigger] e.attributes@[i] is Reactive) || (
    e.id matches Some(Id::Reactive(_))) || (e.classes matches Some(ClassList::Reactive(_)))
}

/// In static markup, an element that must be built by code: a placeholder
/// with id `id`, and a script that finds it, holds it in `elem` and runs `js`.
pub open spec fn reactive_anchor(id: Seq<char>, elem: Seq<char>, js: Seq<char>) -> Seq<char> {
    concat(
        seq![
            "<span id=\""@,
            id,
            "\"></span>\n                <script>\n                    const "@,
            elem,
            " = document.getElementById(\""@,
            id,
            "\");\n                    "@,
            js,
            "\n                </script>"@,
        ],
    )
}

fn html_codegen(e: &Element, cvr: &mut CVR, rrm: &RecursiveMap, ids: &mut IdCounter) -> (r: Result<
    String,
    String,
>)
    requires
        e.name@.len() > 0,
    ensures
        static_markup(node_view(Node::Element(*e))) is Some ==> (r matches Ok(s) && Some(s@)
            == static_markup(node_view(Node::Element(*e)))),
        static_markup(node_view(Node::Element(*e))) is Some ==> final(ids).next == old(ids).next,
        has_reactive_parts(*e) && e.children@.len() == 0 && (e.name@ == "input"@ || forall|i: int|
            0 <= i < e.attributes@.len() ==> !(#[trigger] e.attributes@[i] is Reactive
                && e.attributes@[i]->Reactive_0.name@ == "bind"@)) ==> r is Ok,
        has_reactive_parts(*e) && r is Ok ==> exists|body: Seq<char>|
            r->Ok_0@ == #[trigger] reactive_anchor(
                "r"@ + decimal(bumped(old(ids).next) as nat),
                "__elem_reactive_html_"@ + decimal(old(ids).next as nat),
                element_js(
                    e.name@,
                    "__elem_reactive_html_"@ + decimal(old(ids).next as nat),
                    "__elem"@ + decimal(bumped(bumped(old(ids).next)) as nat),
                    body,
                ),
            ),
    decreases e, 1nat,
{
    let ghost n0 = ids.next;
    let ghost nv = node_view(Node::Element(*e));
    proof {
        reveal_with_fuel(concat, 4);
        if static_markup(nv) is Some {
            assert forall|i: int| 0 <= i < e.attributes@.len() implies !(#[trigger] e.attributes@[i] is Reactive) by {
                assert(attrs_view(e.attributes@)[i] == e.attributes@[i].view());
            }
            assert(!(e.id matches Some(Id::Reactive(_))));
            assert(!(e.classes matches Some(ClassList::Reactive(_))));
        }
    }
    let id_reactive = match &e.id {
        Some(id) => id.is_reactive(),
        None => false,
    };
    let classes_reactive = match &e.classes {
        Some(c) => c.is_reactive(),
        None => false,
    };
    if has_reactive_attributes(&e.attributes) || id_reactive || classes_reactive {
        let n1 = uid(ids);
        let elem_var_name = cat(&vec!["__elem_reactive_html_", n1.as_str()]);
        let n2 = uid(ids);
        let id = cat(&vec!["r", n2.as_str()]);
        let js = jsdom_codegen(e, &elem_var_name, cvr, rrm, ids)?;
        let result = cat(
            &vec![
                "<span id=\"",
                id.as_str(),
                "\"></span>\n                <script>\n                    const ",
                elem_var_name.as_str(),
                " = document.getElementById(\"",
                id.as_str(),
                "\");\n                    ",
                js.as_str(),
                "\n                </script>",
            ],
        );
        proof {
            reveal_with_fuel(concat, 10);
        }
        assert(elem_var_name@ == "__elem_reactive_html_"@ + decimal(n0 as nat));
        assert(id@ == "r"@ + decimal(bumped(n0) as nat));
        assert(result@ == reactive_anchor(id@, elem_var_name@, js@));
        return Ok(result);
    }
    let mut code = string_from("<");
    push_str(&mut code, e.name.as_str());
    let ghost id_part = id_markup(e.id);
    let ghost c0 = code@;
    match &e.id {
        Some(Id::Static(id)) => push_str(&mut code, cat(&vec![" id=\"", id.as_str(), "\""]).as_str()),
        _ => {},
    }
    assert(code@ == c0 + id_part);
    let ghost class_part = class_markup(e.classes);
    let ghost c1 = code@;
    match &e.classes {
        Some(ClassList::Static(classes)) => {
            let joined = join_words(classes);
            push_str(&mut code, cat(&vec![" class=\"", joined.as_str(), "\""]).as_str());
        },
        _ => {},
    }
    assert(code@ == c1 + class_part);
    static_attrs_html(&e.attributes, &mut code)?;
    push_str(&mut code, ">");
    proof {
        if static_markup(nv) is Some {
            assert(code@ == "<"@ + e.name@ + id_part + class_part + attrs_markup(attrs_view(e.attributes@)) + ">"@);
        }
    }
    if is_void_element(e.name.as_str()) {
        return Ok(code);
    }
    let inner = children_codegen(&e.children, &CodegenType::HTML, cvr, rrm, ids)?;
    push_str(&mut code, inner.as_str());
    push_str(&mut code, cat(&vec!["</", e.name.as_str(), ">"]).as_str());
    Ok(code)
}

/// Construction code for an element named `name`, held by `elem`: its
/// creation, then `body` (its id, classes, attributes and children), then
/// its appending to the element held by `parent`.
pub open spec fn element_js(name: Seq<char>, parent: Seq<char>, elem: Seq<char>, body: Seq<char>) -> Seq<
    char,
> {
    "const "@ + elem + " = document.createElement(\""@ + name + "\");\n"@ + body + parent
        + ".appendChild("@ + elem + ");\n"@
}

fn jsdom_codegen(
    e: &Element,
    parent_elem_var_name: &String,
    cvr: &mut CVR,
    rrm: &RecursiveMap,
    ids: &mut IdCounter,
) -> (r: Result<String, String>)
    ensures
        e.children@.len() == 0 && (e.name@ == "input"@ || forall|i: int|
            0 <= i < e.attributes@.len() ==> !(#[trigger] e.attributes@[i] is Reactive
                && e.attributes@[i]->Reactive_0.name@ == "bind"@)) ==> r is Ok,
        r is Ok ==> exists|body: Seq<char>|
            r->Ok_0@ == #[trigger] element_js(
                e.name@,
                parent_elem_var_name@,
                "__elem"@ + decimal(old(ids).next as nat),
                body,
            ),
    decreases e, 0nat,
{
    let ghost n0 = ids.next;
    proof {
        reveal_with_fuel(concat, 7);
    }
    let n = uid(ids);
    let elem_var_name = cat(&vec!["__elem", n.as_str()]);
    let head = cat(
        &vec!["const ", elem_var_name.as_str(), " = document.createElement(\"", e.name.as_str(), "\");\n"],
    );
    let mut code = String::new();
    match &e.id {
        Some(Id::Static(id)) => push_str(
            &mut code,
            cat(&vec![elem_var_name.as_str(), ".id = \"", id.as_str(), "\";\n"]).as_str(),
        ),
        Some(Id::Reactive(expr)) => {
            let k = uid(ids);
            let update_fn = cat(&vec!["__", k.as_str(), "update_id"]);
            let r = reactive_expression(expr, update_fn.as_str(), cvr);
            push_str(
                &mut code,
                cat(
                    &vec![
                        "const ",
                        update_fn.as_str(),
                        " = (val) => ",
                        elem_var_name.as_str(),
                        ".id = val;\n",
                        r.as_str(),
                        "\n",
                    ],
                ).as_str(),
            );
        },
        None => {},
    }
    match &e.classes {
        Some(ClassList::Static(classes)) => {
            let joined = join_words(classes);
            push_str(
                &mut code,
                cat(&vec![elem_var_name.as_str(), ".className = \"", joined.as_str(), "\";\n"]).as_str(),
            );
        },
        Some(ClassList::Reactive(expr)) => {
            let k = uid(ids);
            let update_fn = cat(&vec!["__", k.as_str(), "update_classes"]);
            let r = reactive_expression(expr, update_fn.as_str(), cvr);
            push_str(
                &mut code,
                cat(
                    &vec![
                        "const ",
                        update_fn.as_str(),
                        " = (val) => ",
                        elem_var_name.as_str(),
                        ".className = val;\n",
                        r.as_str(),
                        "\n",
                    ],
                ).as_str(),
            );
        },
        None => {},
    }
    let mut i: usize = 0;
    while i < e.attributes.len()
        invariant
            i <= e.attributes@.len(),
        decreases e.attributes@.len() - i,
    {
        handle_attr(&e.attributes[i], &elem_var_name, &mut code, cvr, &e.name, &e.attributes, ids)?;
        i += 1;
    }
    let child_type = CodegenType::JSDom { parent_elem_var_name: elem_var_name.clone() };
    let inner = children_codegen(&e.children, &child_type, cvr, rrm, ids)?;
    push_str(&mut code, inner.as_str());
    let result = cat(
        &vec![
            head.as_str(),
            code.as_str(),
            parent_elem_var_name.as_str(),
            ".appendChild(",
            elem_var_name.as_str(),
            ");\n",
        ],
    );
    assert(elem_var_name@ == "__elem"@ + decimal(n0 as nat));
    assert(result@ == element_js(e.name@, parent_elem_var_name@, elem_var_name@, code@));
    Ok(result)
}

fn handle_attr(
    attr: &Attribute,
    elem_var_name: &String,
    code: &mut String,
    cvr: &CVR,
    elem_name: &String,
    attributes_all: &Vec<Attribute>,
    ids: &mut IdCounter,
) -> (r: Result<(), String>)
    ensures
        attr matches Attribute::Static(sa) ==> (r is Ok && final(code)@ == old(code)@
            + elem_var_name@ + ".setAttribute(\""@ + sa.name@ + "\", \""@ + match sa.value {
            Some(v) => v@,
            None => seq![],
        } + "\");\n"@),
        attr is Reactive && (attr->Reactive_0.name@ != "bind"@ || elem_name@ == "input"@) ==> r is Ok,
{
    proof {
        reveal_with_fuel(concat, 7);
        reveal_strlit("");
    }
    match attr {
        Attribute::Static(StaticAttribute { name, value }) => {
            let v = match value {
                Some(v) => v.as_str(),
                None => "",
            };
            push_str(
                code,
                cat(
                    &vec![elem_var_name.as_str(), ".setAttribute(\"", name.as_str(), "\", \"", v, "\");\n"],
                ).as_str(),
            );
            Ok(())
        },
        Attribute::Reactive(ReactiveAttribute { name, value }) => {
            if handle_special_attr(elem_var_name, code, cvr, elem_name, attributes_all, name, value)? {
                return Ok(());
            }
            let k = uid(ids);
            let update_fn = cat(&vec!["__", k.as_str(), "update_attr"]);
            let r = reactive_expression(value, update_fn.as_str(), cvr);
            push_str(
                code,
                cat(
                    &vec![
                        "const ",
                        update_fn.as_str(),
                        " = (val) => ",
                        elem_var_name.as_str(),
                        ".setAttribute(\"",
                        name.as_str(),
                        "\", val);\n",
                        r.as_str(),
                        "\n",
                    ],
                ).as_str(),
            );
            Ok(())
        },
    }
}

/// The value of the first static `type` attribute.
fn input_type(attrs: &Vec<Attribute>) -> (r: Option<String>)
    ensures
        r matches Some(v) ==> exists|i: int|
            0 <= i < attrs@.len() && #[trigger] attrs@[i].view() == AttributeV::Static(
                "type"@,
                Some(v@),
            ),
{
    let mut i: usize = 0;
    while i < attrs.len()
        invariant
            i <= attrs@.len(),
        decreases attrs@.len() - i,
    {
        match &attrs[i] {
            Attribute::Static(StaticAttribute { name, value }) => {
                if str_eq(name.as_str(), "type") {
                    return match value {
                        Some(v) => {
                            assert(attrs@[i as int].view() == AttributeV::Static("type"@, Some(v@)));
                            Some(v.clone())
                        },
                        None => None,
                    };
                }
            },
            _ => {},
        }
        i += 1;
    }
    None
}

/// `onclick` and `bind` wire events directly; returns whether `name` was one
/// of them.
fn handle_special_attr(
    elem_var_name: &String,
    code: &mut String,
    cvr: &CVR,
    elem_name: &String,
    attributes_all: &Vec<Attribute>,
    name: &String,
    value: &JSExpression,
) -> (r: Result<bool, String>)
    ensures
        name@ != "onclick"@ && name@ != "bind"@ ==> r == Ok::<bool, String>(false),
        name@ == "bind"@ && elem_name@ != "input"@ ==> r is Err,
        name@ != "bind"@ || elem_name@ == "input"@ ==> r is Ok,
{
    proof {
        reveal_strlit("onclick");
        reveal_strlit("bind");
        assert("onclick"@.len() != "bind"@.len());
    }
    if str_eq(name.as_str(), "onclick") {
        let v = cvr.process_no_declared(value);
        push_str(code, cat(&vec![elem_var_name.as_str(), ".onclick = (", v.as_str(), ");"]).as_str());
        return Ok(true);
    }
    if !str_eq(name.as_str(), "bind") {
        return Ok(false);
    }
    let v = cvr.process_no_declared(value);
    if !str_eq(elem_name.as_str(), "input") {
        return Err(string_from("The bind attribute can only be used on input elements."));
    }
    let ty = match input_type(attributes_all) {
        Some(t) => t,
        None => {
            return Ok(false);
        },
    };
    let not_state_err = throw_rt_error("bind attribute can only be used with a state type.");
    let (prop, event, field) = if str_eq(ty.as_str(), "text") {
        ("value", "oninput", "value")
    } else if str_eq(ty.as_str(), "checkbox") {
        ("checked", "onchange", "checked")
    } else {
        return Ok(true);
    };
    push_str(
        code,
        cat(
            &vec![
                "{\n                const value = ",
                v.as_str(),
                ";\n                if (value.__STATE === true) {\n                    const update_fn = () => (",
                elem_var_name.as_str(),
                ").",
                prop,
                " = value.get();\n                    value.subscribe(update_fn);\n                    update_fn();\n                    ",
                elem_var_name.as_str(),
                ".",
                event,
                " = (e) => {\n                        value.set(() => e.target.",
                field,
                ");\n                    };\n                } else {\n                    ",
                not_state_err.as_str(),
                "\n                }\n            }",
            ],
        ).as_str(),
    );
    Ok(true)
}

/// The error for a component whose dialect the web target cannot generate.
pub open spec fn unsupported_dialect_message(name: Seq<char>) -> Seq<char> {
    "Unsupported dialect for component "@ + name
        + ". Valid dialects for web are JsLilac and TsLilac. The target is determined by the dialect of the Root componenet"@
}

/// The error for a recursive instance outside a conditional or a loop.
pub open spec fn recursion_message(name: Seq<char>) -> Seq<char> {
    "Recursive component "@ + name + " in non-conditional context."@
}

fn component_codegen(
    c: &Component,
    ty: &CodegenType,
    cvr: &mut CVR,
    rrm: &RecursiveMap,
    ids: &mut IdCounter,
) -> (r: Result<String, String>)
    ensures
        c.dialect != Dialect::RsLilac && !(c.recursive && ty is HTML) && c.children@.len() == 0 ==> r is Ok,
        c.dialect == Dialect::RsLilac ==> (r matches Err(m) && m@ == unsupported_dialect_message(
            c.name@,
        )),
        c.dialect != Dialect::RsLilac && c.recursive && ty is HTML ==> (r matches Err(m) && m@
            == recursion_message(c.name@)),
        c.dialect != Dialect::RsLilac && c.recursive && ty is JSDom && r is Ok ==> exists|
            inner: Seq<char>,
            props: Seq<char>,
        |
            r->Ok_0@ == #[trigger] recursive_routine(
                "__create"@ + c.name@ + decimal(old(ids).next as nat),
                parent_of(*ty),
                inner,
                props,
            ),
        c.dialect != Dialect::RsLilac && !c.recursive && ty is HTML && c.props@.len() == 0
            && seq_markup(nodes_view(c.children@)) is Some ==> (r is Ok && Some(r->Ok_0@)
            == seq_markup(nodes_view(c.children@))),
    decreases c, 2nat,
{
    proof {
        reveal_with_fuel(concat, 4);
    }
    let ghost cv = nodes_view(c.children@);
    if c.dialect != Dialect::JsLilac && c.dialect != Dialect::TsLilac {
        return Err(
            cat(
                &vec![
                    "Unsupported dialect for component ",
                    c.name.as_str(),
                    ". Valid dialects for web are JsLilac and TsLilac. The target is determined by the dialect of the Root componenet",
                ],
            ),
        );
    }
    if c.recursive && ty.is_html() {
        return Err(cat(&vec!["Recursive component ", c.name.as_str(), " in non-conditional context."]));
    }
    let ghost n0 = ids.next;
    let n = uid(ids);
    let create_fn_name = cat(&vec!["__create", c.name.as_str(), n.as_str()]);
    assert(create_fn_name@ == "__create"@ + c.name@ + decimal(n0 as nat));
    let inner_rrm = if c.recursive {
        rrm_with(rrm, &c.name, &create_fn_name)
    } else {
        rrm_with(rrm, &String::new(), &String::new())
    };
    let mut props_set = codegen_props_set(&c.props, cvr);
    let mut child_cvr = CVR::new(&c.name, ids);
    if ty.is_html() && props_set.as_str().unicode_len() > 0 {
        props_set = child_cvr.process(&props_set);
    }
    let mut inner = String::new();
    let mut i: usize = 0;
    while i < c.children.len()
        invariant
            i <= c.children@.len(),
            c.dialect != Dialect::RsLilac,
            !(c.recursive && ty is HTML),
            cv == nodes_view(c.children@),
            c.props@.len() == 0 ==> props_set@.len() == 0,
            ty is HTML && seq_markup(cv) is Some ==> seq_markup(
                nodes_view(c.children@.subrange(0, i as int)),
            ) == Some(inner@),
        decreases c.children@.len() - i,
    {
        assert(decreases_to!(c => c.children@[i as int]));
        proof {
            let pre = c.children@.subrange(0, i as int);
            assert(c.children@.subrange(0, i + 1) =~= pre.push(c.children@[i as int]));
            lemma_nodes_view_push(pre, c.children@[i as int]);
            lemma_seq_markup_push(nodes_view(pre), node_view(c.children@[i as int]));
            if ty is HTML && seq_markup(cv) is Some {
                lemma_seq_markup_prefix(c.children@, i as int + 1);
            }
        }
        let code = codegen_js(&c.children[i], ty, &mut child_cvr, &inner_rrm, ids)?;
        push_str(&mut inner, code.as_str());
        i += 1;
    }
    proof {
        assert(c.children@.subrange(0, c.children@.len() as int) =~= c.children@);
    }
    match ty {
        CodegenType::HTML => {
            if props_set.as_str().unicode_len() == 0 {
                Ok(inner)
            } else {
                Ok(cat(&vec!["<script>\n", props_set.as_str(), "\n</script>\n", inner.as_str()]))
            }
        },
        CodegenType::JSDom { parent_elem_var_name } => {
            if c.recursive {
                let result = cat(
                        &vec![
                            "\n                        const ",
                            create_fn_name.as_str(),
                            " = (props, parent_elem) => {\n                            const ",
                            parent_elem_var_name.as_str(),
                            " = parent_elem;\n                            ",
                            inner.as_str(),
                            "\n                        };\n                        {\n                            ",
                            props_set.as_str(),
                            ";\n                            ",
                            create_fn_name.as_str(),
                            "(props, ",
                            parent_elem_var_name.as_str(),
                            ");\n                        }\n                        ",
                        ],
                    );
                proof {
                    reveal_with_fuel(concat, 14);
                }
                assert(result@ == recursive_routine(
                    create_fn_name@,
                    parent_elem_var_name@,
                    inner@,
                    props_set@,
                ));
                assert(parent_of(*ty) == parent_elem_var_name@);
                assert(result@ == recursive_routine(
                    create_fn_name@,
                    parent_of(*ty),
                    inner@,
                    props_set@,
                ));
                Ok(result)
            } else {
                Ok(cat(&vec!["{\n", props_set.as_str(), ";", inner.as_str(), "}\n"]))
            }
        },
    }
}

/// The code of a recursive instance in construction code: a creation
/// function `create_fn` that builds the instance's children under the
/// element it is handed (instances of the same component inside it call
/// `create_fn` again), then a call of it with the instance's props on the
/// element held by `parent`.
pub open spec fn recursive_routine(
    create_fn: Seq<char>,
    parent: Seq<char>,
    inner: Seq<char>,
    props: Seq<char>,
) -> Seq<char> {
    concat(
        seq![
            "\n                        const "@,
            create_fn,
            " = (props, parent_elem) => {\n                            const "@,
            parent,
            " = parent_elem;\n                            "@,
            inner,
            "\n                        };\n                        {\n                            "@,
            props,
            ";\n                            "@,
            create_fn,
            "(props, "@,
            parent,
            ");\n                        }\n                        "@,
        ],
    )
}

/// Code for reactive text `id`: a text node whose value an update function
/// sets, bound by `call` to the expression; in static markup it is appended
/// to a placeholder, in construction code to the element held by `parent`.
pub open spec fn reactive_text_js(html: bool, parent: Seq<char>, id: Seq<char>, call: Seq<char>) -> Seq<
    char,
> {
    let update_fn = "__"@ + id + "setTextNode"@;
    let text_node = "__"@ + id + "textNode"@;
    let js = "\n    let "@ + text_node + " = document.createTextNode(``);\n    const "@ + update_fn
        + " = (text) => "@ + text_node + ".nodeValue = text;\n    "@ + call + "\n    "@;
    if html {
        "<span id=\""@ + id + "\"></span>\n<script>\n"@ + js + "\ndocument.getElementById(\""@ + id
            + "\").appendChild("@ + text_node + ");\n</script>"@
    } else {
        js + "\n"@ + parent + ".appendChild("@ + text_node + ");"@
    }
}

fn reactive_text_codegen(exp: &JSExpression, ty: &CodegenType, cvr: &CVR, ids: &mut IdCounter) -> (r: String)
    ensures
        ({
            let id = "r"@ + decimal(old(ids).next as nat);
            let update_fn = "__"@ + id + "setTextNode"@;
            let e0 = rename_all(exp@, strings_view(cvr.identifiers@), cvr.prefix@);
            let value = reads_rewritten(e0, expression_deps(e0));
            r@ == reactive_text_js(
                ty is HTML,
                parent_of(*ty),
                id,
                bound_call(update_fn, subscription_lines(expression_deps(e0), update_fn, value), value),
            )
        }),
{
    proof {
        reveal_with_fuel(concat, 12);
    }
    let n = uid(ids);
    let id = cat(&vec!["r", n.as_str()]);
    let update_fn = cat(&vec!["__", id.as_str(), "setTextNode"]);
    let text_node = cat(&vec!["__", id.as_str(), "textNode"]);
    let (subs, value) = reactive_parts(exp, update_fn.as_str(), cvr);
    let r = bind_call(update_fn.as_str(), &subs, &value);
    let js = cat(
        &vec![
            "\n    let ",
            text_node.as_str(),
            " = document.createTextNode(``);\n    const ",
            update_fn.as_str(),
            " = (text) => ",
            text_node.as_str(),
            ".nodeValue = text;\n    ",
            r.as_str(),
            "\n    ",
        ],
    );
    let result = match ty {
        CodegenType::HTML => cat(
            &vec![
                "<span id=\"",
                id.as_str(),
                "\"></span>\n<script>\n",
                js.as_str(),
                "\ndocument.getElementById(\"",
                id.as_str(),
                "\").appendChild(",
                text_node.as_str(),
                ");\n</script>",
            ],
        ),
        CodegenType::JSDom { parent_elem_var_name } => cat(
            &vec![js.as_str(), "\n", parent_elem_var_name.as_str(), ".appendChild(", text_node.as_str(), ");"],
        ),
    };
    assert(result@ == reactive_text_js(ty is HTML, parent_of(*ty), id@, r@));
    result
}

/// A call of `f` with the value of an expression, after the subscriptions
/// that call it again whenever a cell the expression reads changes.
pub open spec fn bound_call(f: Seq<char>, subscriptions: Seq<char>, value: Seq<char>) -> Seq<char> {
    "\n        "@ + subscriptions + "\n        ("@ + f + ")("@ + value + "); \n        "@
}

/// The toggle function of a conditional block `id`: it empties the anchor
/// `elem` and, when its argument holds, runs `inner` to rebuild the children.
pub open spec fn toggle_fn(id: Seq<char>, elem: Seq<char>, inner: Seq<char>) -> Seq<char> {
    concat(
        seq![
            "const "@,
            id,
            "cond = (c) => {\n        "@,
            elem,
            ".innerHTML = \"\";\n        if (c) {\n            "@,
            inner,
            "\n        }    \n    };"@,
        ],
    )
}

/// The code of a conditional block `id` anchored at `elem`: in static markup
/// a placeholder and a script, in construction code an anchor appended to
/// `parent`; either way the toggle function, bound to the condition.
pub open spec fn conditional_js(
    html: bool,
    parent: Seq<char>,
    id: Seq<char>,
    elem: Seq<char>,
    func: Seq<char>,
    call: Seq<char>,
) -> Seq<char> {
    if html {
        concat(
            seq![
                "<span id=\""@,
                id,
                "\"></span>\n<script>\n    const "@,
                elem,
                " = document.getElementById(\""@,
                id,
                "\");\n    "@,
                func,
                "\n    "@,
                call,
                " \n</script>\n"@,
            ],
        )
    } else {
        concat(
            seq![
                "\nconst "@,
                elem,
                " = document.createElement(\"span\");\n"@,
                func,
                "\n"@,
                call,
                "\n"@,
                parent,
                ".appendChild("@,
                elem,
                ");\n"@,
            ],
        )
    }
}

fn conditional_elements_codegen(
    condition: &JSExpression,
    children: &Vec<Node>,
    ty: &CodegenType,
    cvr: &mut CVR,
    rrm: &RecursiveMap,
    ids: &mut IdCounter,
) -> (r: Result<String, String>)
    ensures
        children@.len() == 0 ==> r is Ok,
        r is Ok ==> ({
            let id = concat(seq!["r"@, decimal(old(ids).next as nat)]);
            let elem = concat(seq!["__elem"@, decimal(crate::utils::bumped(old(ids).next) as nat)]);
            exists|inner: Seq<char>, subscriptions: Seq<char>, value: Seq<char>|
                r->Ok_0@ == conditional_js(
                    ty is HTML,
                    parent_of(*ty),
                    id,
                    elem,
                    toggle_fn(id, elem, inner),
                    bound_call(concat(seq![id, "cond"@]), subscriptions, value),
                )
        }),
    decreases children, 3nat,
{
    let ghost n0 = ids.next;
    let n1 = uid(ids);
    let id = cat(&vec!["r", n1.as_str()]);
    let n2 = uid(ids);
    let elem_var_name = cat(&vec!["__elem", n2.as_str()]);
    let child_type = CodegenType::JSDom { parent_elem_var_name: elem_var_name.clone() };
    let inner = children_codegen(children, &child_type, cvr, rrm, ids)?;
    let func = cat(
        &vec![
            "const ",
            id.as_str(),
            "cond = (c) => {\n        ",
            elem_var_name.as_str(),
            ".innerHTML = \"\";\n        if (c) {\n            ",
            inner.as_str(),
            "\n        }    \n    };",
        ],
    );
    let cond_fn = cat(&vec![id.as_str(), "cond"]);
    let (subs, value) = reactive_parts(condition, cond_fn.as_str(), cvr);
    let r = bind_call(cond_fn.as_str(), &subs, &value);
    proof {
        reveal_with_fuel(concat, 12);
    }
    let ghost bound = bound_call(concat(seq![id@, "cond"@]), subs@, value@);
    assert(func@ == toggle_fn(id@, elem_var_name@, inner@));
    assert(r@ == bound);
    assert(id@ == concat(seq!["r"@, decimal(n0 as nat)]));
    assert(elem_var_name@ == concat(seq!["__elem"@, decimal(crate::utils::bumped(n0) as nat)]));
    match ty {
        CodegenType::HTML => {
            let result = cat(
                &vec![
                    "<span id=\"",
                    id.as_str(),
                    "\"></span>\n<script>\n    const ",
                    elem_var_name.as_str(),
                    " = document.getElementById(\"",
                    id.as_str(),
                    "\");\n    ",
                    func.as_str(),
                    "\n    ",
                    r.as_str(),
                    " \n</script>\n",
                ],
            );
            assert(result@ == conditional_js(true, seq![], id@, elem_var_name@, func@, r@));
            Ok(result)
        },
        CodegenType::JSDom { parent_elem_var_name } => {
            let result = cat(
                &vec![
                    "\nconst ",
                    elem_var_name.as_str(),
                    " = document.createElement(\"span\");\n",
                    func.as_str(),
                    "\n",
                    r.as_str(),
                    "\n",
                    parent_elem_var_name.as_str(),
                    ".appendChild(",
                    elem_var_name.as_str(),
                    ");\n",
                ],
            );
            assert(result@ == conditional_js(
                false,
                parent_elem_var_name@,
                id@,
                elem_var_name@,
                func@,
                r@,
            ));
            Ok(result)
        },
    }
}

/// The render function of loop `id`: it empties the anchor `elem` and runs
/// `inner` once per element of the array, bound to `iv`.
pub open spec fn loop_render_fn(id: Seq<char>, elem: Seq<char>, iv: Seq<char>, inner: Seq<char>) -> Seq<
    char,
> {
    concat(
        seq![
            "const "@,
            id,
            "loop = (arr) => {\n        "@,
            elem,
            ".innerHTML = \"\";\n        for (let __i = 0; __i < arr.length; __i++) {\n            const "@,
            iv,
            " = arr[__i];\n            "@,
            inner,
            "\n        }\n    };"@,
        ],
    )
}

/// How a loop over list state `list` follows it: it fails unless `list` is
/// list state; an added item is built by `inner` in a wrapper of its own and
/// inserted at its position, before the item there, and the others are left
/// alone; a removed item's wrapper is removed; and `render` first builds all
/// items.
pub open spec fn list_subscriptions(
    list: Seq<char>,
    iv: Seq<char>,
    elem: Seq<char>,
    inner: Seq<char>,
    render: Seq<char>,
    not_list_error: Seq<char>,
) -> Seq<char> {
    concat(
        seq![
            "\n            if ("@,
            list,
            ".__LSTATE !== true) "@,
            not_list_error,
            "\n\n            "@,
            list,
            ".subscribeAdd((value, position) => {\n                const "@,
            iv,
            " = value;\n                let wrapper_span = undefined;\n                {\n                    const "@,
            elem,
            " = document.createElement(\"span\");\n                    "@,
            inner,
            "\n                    wrapper_span = "@,
            elem,
            ";\n                }\n                if ("@,
            elem,
            ".childNodes.length === 0) {\n                    "@,
            elem,
            ".appendChild(wrapper_span);\n                } else {\n                    "@,
            elem,
            ".insertBefore(wrapper_span, "@,
            elem,
            ".childNodes[position]);\n                }\n            });\n\n            "@,
            list,
            ".subscribeRemove((position) => {\n                "@,
            elem,
            ".removeChild("@,
            elem,
            ".childNodes[position]);\n            });\n\n            "@,
            render,
            "("@,
            list,
            ".get());\n        "@,
        ],
    )
}

/// The code of loop `id` anchored at `elem`, around its render function and
/// the code that keeps it up to date.
pub open spec fn loop_js(
    html: bool,
    parent: Seq<char>,
    id: Seq<char>,
    elem: Seq<char>,
    func: Seq<char>,
    follow: Seq<char>,
) -> Seq<char> {
    if html {
        concat(
            seq![
                "<span id=\""@,
                id,
                "\"></span>\n                <script>\n                    const "@,
                elem,
                " = document.getElementById(\""@,
                id,
                "\");\n                    \n                    "@,
                func,
                "\n                    "@,
                follow,
                " \n                </script>"@,
            ],
        )
    } else {
        concat(
            seq![
                "\n                const "@,
                elem,
                " = document.createElement(\"span\");\n                "@,
                func,
                "\n                "@,
                follow,
                "\n                "@,
                parent,
                ".appendChild("@,
                elem,
                ");\n                "@,
            ],
        )
    }
}

fn render_fn(id: &String, elem: &String, iv: &String, inner: &String) -> (r: String)
    ensures
        r@ == loop_render_fn(id@, elem@, iv@, inner@),
{
    proof {
        reveal_with_fuel(concat, 10);
    }
    cat(
        &vec![
            "const ",
            id.as_str(),
            "loop = (arr) => {\n        ",
            elem.as_str(),
            ".innerHTML = \"\";\n        for (let __i = 0; __i < arr.length; __i++) {\n            const ",
            iv.as_str(),
            " = arr[__i];\n            ",
            inner.as_str(),
            "\n        }\n    };",
        ],
    )
}

#[verifier::rlimit(50)]
fn list_follow(
    list: &String,
    iv: &String,
    elem: &String,
    inner: &String,
    render: &String,
    not_list_error: &String,
) -> (r: String)
    ensures
        r@ == list_subscriptions(list@, iv@, elem@, inner@, render@, not_list_error@),
{
    proof {
        reveal_with_fuel(concat, 36);
    }
    cat(
        &vec![
            "\n            if (",
            list.as_str(),
            ".__LSTATE !== true) ",
            not_list_error.as_str(),
            "\n\n            ",
            list.as_str(),
            ".subscribeAdd((value, position) => {\n                const ",
            iv.as_str(),
            " = value;\n                let wrapper_span = undefined;\n                {\n                    const ",
            elem.as_str(),
            " = document.createElement(\"span\");\n                    ",
            inner.as_str(),
            "\n                    wrapper_span = ",
            elem.as_str(),
            ";\n                }\n                if (",
            elem.as_str(),
            ".childNodes.length === 0) {\n                    ",
            elem.as_str(),
            ".appendChild(wrapper_span);\n                } else {\n                    ",
            elem.as_str(),
            ".insertBefore(wrapper_span, ",
            elem.as_str(),
            ".childNodes[position]);\n                }\n            });\n\n            ",
            list.as_str(),
            ".subscribeRemove((position) => {\n                ",
            elem.as_str(),
            ".removeChild(",
            elem.as_str(),
            ".childNodes[position]);\n            });\n\n            ",
            render.as_str(),
            "(",
            list.as_str(),
            ".get());\n        ",
        ],
    )
}

fn loop_codegen(
    reactive_list: bool,
    iterator_variable: &String,
    iteratable: &JSExpression,
    children: &Vec<Node>,
    ty: &CodegenType,
    cvr: &mut CVR,
    rrm: &RecursiveMap,
    ids: &mut IdCounter,
) -> (r: Result<String, String>)
    ensures
        children@.len() == 0 ==> r is Ok,
        r is Ok ==> ({
            let id = concat(seq!["r"@, decimal(old(ids).next as nat)]);
            let elem = concat(seq!["__elem"@, decimal(crate::utils::bumped(old(ids).next) as nat)]);
            let render = concat(seq![id, "loop"@]);
            exists|inner: Seq<char>, follow: Seq<char>|
                r->Ok_0@ == #[trigger] loop_js(
                    ty is HTML,
                    parent_of(*ty),
                    id,
                    elem,
                    loop_render_fn(id, elem, iterator_variable@, inner),
                    follow,
                ) && (reactive_list ==> follow == list_subscriptions(
                    rename_all(
                        iteratable@,
                        strings_view(final(cvr).identifiers@),
                        final(cvr).prefix@,
                    ),
                    iterator_variable@,
                    elem,
                    inner,
                    render,
                    rt_error("$lstate can only be used with an lstate type."@),
                )) && (!reactive_list ==> exists|subscriptions: Seq<char>, value: Seq<char>|
                    follow == #[trigger] bound_call(render, subscriptions, value))
        }),
    decreases children, 3nat,
{
    let ghost n0 = ids.next;
    let n1 = uid(ids);
    let id = cat(&vec!["r", n1.as_str()]);
    let n2 = uid(ids);
    let elem_var_name = cat(&vec!["__elem", n2.as_str()]);
    let child_type = CodegenType::JSDom { parent_elem_var_name: elem_var_name.clone() };
    let inner = children_codegen(children, &child_type, cvr, rrm, ids)?;
    proof {
        reveal_with_fuel(concat, 14);
    }
    let func = render_fn(&id, &elem_var_name, iterator_variable, &inner);
    let not_lstate_err = throw_rt_error("$lstate can only be used with an lstate type.");
    let loop_fn = cat(&vec![id.as_str(), "loop"]);
    let ghost mut follow_subs: Seq<char> = seq![];
    let ghost mut follow_value: Seq<char> = seq![];
    let instantiate_and_subscribe = if reactive_list {
        let list = cvr.process_no_declared(iteratable);
        list_follow(&list, iterator_variable, &elem_var_name, &inner, &loop_fn, &not_lstate_err)
    } else {
        let (subs, value) = reactive_parts(iteratable, loop_fn.as_str(), cvr);
        proof {
            follow_subs = subs@;
            follow_value = value@;
        }
        bind_call(loop_fn.as_str(), &subs, &value)
    };
    assert(!reactive_list ==> instantiate_and_subscribe@ == bound_call(
        loop_fn@,
        follow_subs,
        follow_value,
    ));
    assert(reactive_list ==> instantiate_and_subscribe@ == list_subscriptions(
        rename_all(iteratable@, strings_view(cvr.identifiers@), cvr.prefix@),
        iterator_variable@,
        elem_var_name@,
        inner@,
        loop_fn@,
        rt_error("$lstate can only be used with an lstate type."@),
    ));
    assert(func@ == loop_render_fn(id@, elem_var_name@, iterator_variable@, inner@));
    assert(id@ == concat(seq!["r"@, decimal(n0 as nat)]));
    assert(elem_var_name@ == concat(seq!["__elem"@, decimal(crate::utils::bumped(n0) as nat)]));
    assert(loop_fn@ == concat(seq![id@, "loop"@]));
    match ty {
        CodegenType::HTML => {
            let result = cat(
                &vec![
                    "<span id=\"",
                    id.as_str(),
                    "\"></span>\n                <script>\n                    const ",
                    elem_var_name.as_str(),
                    " = document.getElementById(\"",
                    id.as_str(),
                    "\");\n                    \n                    ",
                    func.as_str(),
                    "\n                    ",
                    instantiate_and_subscribe.as_str(),
                    " \n                </script>",
                ],
            );
            assert(result@ == loop_js(true, seq![], id@, elem_var_name@, func@, instantiate_and_subscribe@));
            assert(parent_of(*ty) == Seq::<char>::empty());
            assert(result@ == loop_js(
                ty is HTML,
                parent_of(*ty),
                id@,
                elem_var_name@,
                loop_render_fn(id@, elem_var_name@, iterator_variable@, inner@),
                instantiate_and_subscribe@,
            ));
            Ok(result)
        },
        CodegenType::JSDom { parent_elem_var_name } => {
            let result = cat(
                &vec![
                    "\n                const ",
                    elem_var_name.as_str(),
                    " = document.createElement(\"span\");\n                ",
                    func.as_str(),
                    "\n                ",
                    instantiate_and_subscribe.as_str(),
                    "\n                ",
                    parent_elem_var_name.as_str(),
                    ".appendChild(",
                    elem_var_name.as_str(),
                    ");\n                ",
                ],
            );
            assert(result@ == loop_js(
                false,
                parent_elem_var_name@,
                id@,
                elem_var_name@,
                func@,
                instantiate_and_subscribe@,
            ));
            assert(parent_of(*ty) == parent_elem_var_name@);
            assert(result@ == loop_js(
                ty is HTML,
                parent_of(*ty),
                id@,
                elem_var_name@,
                loop_render_fn(id@, elem_var_name@, iterator_variable@, inner@),
                instantiate_and_subscribe@,
            ));
            Ok(result)
        },
    }
}

/// Whether a node is a component instance of a web dialect, without props,
/// not recursive, whose children are static markup.
pub open spec fn static_component(n: Node) -> bool {
    n is Component && n->Component_0.dialect != Dialect::RsLilac && !n->Component_0.recursive
        && n->Component_0.props@.len() == 0 && seq_markup(nodes_view(n->Component_0.children@)) is Some
}

/// The document that `runtime`, the stylesheet's CSS and the page's markup make.
pub open spec fn web_document(runtime: Seq<char>, css: Seq<char>, html: Seq<char>) -> Seq<char> {
    "<!DOCTYPE html>\n<!-- This file was generated by Lilac v"@ + LILAC_VERSION@
        + ". -->\n<head>\n    <meta charset=\"UTF-8\">\n</head>\n<script>"@ + runtime
        + "</script>\n<style>"@ + css + "</style>\n"@ + html
}

impl Node {
    /// Generates the web page for a resolved tree: the runtime support
    /// script `runtime`, the stylesheet, and the tree's markup and code.
    pub fn full_js_codegen(&self, stylesheet: &StyleSheet, runtime: &str, ids: &mut IdCounter) -> (r:
        Result<String, String>)
        ensures
            r matches Ok(s) ==> exists|html: Seq<char>|
                s@ == web_document(
                    runtime@,
                    sheet_css(crate::css::sheet_view(stylesheet@)),
                    html,
                ),
            static_component(*self) ==> (r is Ok && r->Ok_0@ == web_document(
                runtime@,
                sheet_css(crate::css::sheet_view(stylesheet@)),
                seq_markup(nodes_view(self->Component_0.children@))->Some_0,
            )),
    {
        let mut root_cvr = CVR::new(&string_from("root"), ids);
        let rrm: RecursiveMap = Vec::new();
        let html = codegen_js(self, &CodegenType::HTML, &mut root_cvr, &rrm, ids)?;
        let css = codegen_stylesheet(stylesheet);
        let doc = cat(
            &vec![
                "<!DOCTYPE html>\n<!-- This file was generated by Lilac v",
                LILAC_VERSION,
                ". -->\n<head>\n    <meta charset=\"UTF-8\">\n</head>\n<script>",
                runtime,
                "</script>\n<style>",
                css.as_str(),
                "</style>\n",
                html.as_str(),
            ],
        );
        proof {
            reveal_with_fuel(concat, 9);
        }
        assert(doc@ == web_document(runtime@, css@, html@));
        Ok(doc)
    }
}

} // verus!
