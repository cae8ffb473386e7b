//! The scene-graph generator: Rust statements that build retained-mode
//! nodes of an external rendering runtime, with subscriptions to its
//! reactive cells that are dropped when the nodes are cleaned up.
use vstd::prelude::*;
use crate::css::{Property, Selector, StyleSheet};
use crate::js_codegen::{cat, concat};
use crate::text::{is_all_whitespace, push_str, str_eq, string_from};
use crate::text::decimal;
use crate::css::{property_view, PropertyV};
use crate::parse::words_from;
use crate::tree::{lemma_nodes_view_push, node_view, nodes_view, NodeV};
use crate::utils::{bumped, uid, without_blank_text, IdCounter};
use crate::{Attribute, ClassList, Component, Element, Node, ReactiveAttribute, ScriptTag, StaticAttribute};

verus! {

/// The kinds of Rust token that dependency analysis tells apart.
#[derive(PartialEq, Eq, Structural, Clone, Copy, Debug)]
pub enum RsKind {
    Dollar,
    Ident,
    Other,
}

/// A Rust token: its kind and its text.
pub struct RsToken {
    pub kind: RsKind,
    pub text: String,
}

pub open spec fn rs_tokens_view(v: Seq<RsToken>) -> Seq<(RsKind, Seq<char>)> {
    v.map_values(|t: RsToken| (t.kind, t.text@))
}

/// The tokens that the Rust lexer reads from an expression.
pub uninterp spec fn rust_tokens(src: Seq<char>) -> Seq<(RsKind, Seq<char>)>;

/// Relies on `rustc_lexer::tokenize`: the tokens of an expression in order,
/// each with its kind and the text it spans (cut off the input by its length
/// with `str::split_at`), white space and comments included.
#[verifier::external_body]
fn lex_rust(src: &str) -> (r: Vec<RsToken>)
    ensures
        rs_tokens_view(r@) == rust_tokens(src@),
{
    let mut out = Vec::new();
    let mut rest = src;
    for token in rustc_lexer::tokenize(src) {
        let (text, tail) = rest.split_at(token.len);
        rest = tail;
        let kind = match token.kind {
            rustc_lexer::TokenKind::Dollar => RsKind::Dollar,
            rustc_lexer::TokenKind::Ident => RsKind::Ident,
            _ => RsKind::Other,
        };
        out.push(RsToken { kind, text: text.to_string() });
    }
    out
}

/// Whether the scene-graph target can generate a node: no style block and
/// no unresolved reference anywhere in it.
pub open spec fn gl_generates(n: NodeV) -> bool
    decreases n,
{
    match n {
        NodeV::Style(_) => false,
        NodeV::Hole { .. } => false,
        NodeV::Component { children, .. } => all_gl(children),
        NodeV::Element { children, .. } => all_gl(children),
        NodeV::Conditional { children, .. } => all_gl(children),
        NodeV::Loop { children, .. } => all_gl(children),
        _ => true,
    }
}

/// Whether the scene-graph target can generate every node of a list.
pub open spec fn all_gl(s: Seq<NodeV>) -> bool
    decreases s,
{
    if s.len() == 0 {
        true
    } else {
        all_gl(s.subrange(0, s.len() - 1)) && gl_generates(s[s.len() - 1])
    }
}

pub proof fn lemma_all_gl_push(s: Seq<NodeV>, n: NodeV)
    ensures
        all_gl(s.push(n)) == (all_gl(s) && gl_generates(n)),
{
    assert(s.push(n).subrange(0, s.len() as int) =~= s);
}

/// A prefix of a list that the target can generate can be generated, and
/// so can its last node.
pub proof fn lemma_all_gl_prefix(s: Seq<Node>, k: int)
    requires
        0 <= k <= s.len(),
        all_gl(nodes_view(s)),
    ensures
        all_gl(nodes_view(s.subrange(0, k))),
        k > 0 ==> gl_generates(node_view(s[k - 1])),
    decreases s.len() - k,
{
    if s.len() > 0 {
        assert(s.subrange(0, s.len() - 1).push(s[s.len() - 1]) =~= s);
        lemma_nodes_view_push(s.subrange(0, s.len() - 1), s[s.len() - 1]);
        lemma_all_gl_push(nodes_view(s.subrange(0, s.len() - 1)), node_view(s[s.len() - 1]));
        if k < s.len() {
            lemma_all_gl_prefix(s.subrange(0, s.len() - 1), k);
            assert(s.subrange(0, s.len() - 1).subrange(0, k) =~= s.subrange(0, k));
            if k > 0 {
                assert(s.subrange(0, s.len() - 1)[k - 1] == s[k - 1]);
            }
        } else {
            assert(s.subrange(0, k) =~= s);
        }
    }
}

/// The code that a node generates, and the names of the variables that
/// hold what it built (comma-separated; empty when it built nothing).
pub struct ElementCode {
    pub creation_code: String,
    pub elem_var_name: String,
}

/// `__` followed by `expr` with each `.` spelled `dot`.
pub open spec fn renamed_var(expr: Seq<char>) -> Seq<char>
    decreases expr.len(),
{
    if expr.len() == 0 {
        "__"@
    } else {
        renamed_var(expr.drop_last()) + if expr.last() == '.' {
            "dot"@
        } else {
            seq![expr.last()]
        }
    }
}

/// A variable name for a reactive cell reached through a dotted path.
pub fn rename_var(expr: &str) -> (r: String)
    ensures
        r@ == renamed_var(expr@),
{
    let n = expr.unicode_len();
    let mut r = string_from("__");
    let mut i: usize = 0;
    while i < n
        invariant
            n == expr@.len(),
            i <= n,
            r@ == renamed_var(expr@.subrange(0, i as int)),
        decreases n - i,
    {
        proof {
            assert(expr@.subrange(0, i + 1).drop_last() =~= expr@.subrange(0, i as int));
            reveal_strlit("__");
        }
        let c = expr.get_char(i);
        if c == '.' {
            push_str(&mut r, "dot");
        } else {
            crate::text::push_char(&mut r, c);
            assert(seq![c] =~= seq![].push(c));
        }
        i += 1;
    }
    proof {
        assert(expr@.subrange(0, n as int) =~= expr@);
    }
    r
}

fn create_text_node(text: &str, ids: &mut IdCounter) -> (r: ElementCode)
    ensures
        r.elem_var_name@ == "__text"@ + decimal(old(ids).next as nat),
        final(ids).next == bumped(old(ids).next),
{
    proof {
        reveal_with_fuel(crate::js_codegen::concat, 3);
    }
    let n = uid(ids);
    let elem_var_name = cat(&vec!["__text", n.as_str()]);
    let creation_code = cat(
        &vec![
            "\n        let ",
            elem_var_name.as_str(),
            " = Text::new(\n            gl,\n            \"",
            text,
            "\".to_string(),\n            10.0,\n            &globals.main_font,\n            c(\"ffffff\"),\n            p(0., 0.),\n            frame_ref.clone(),\n        );\n    ",
        ],
    );
    ElementCode { creation_code, elem_var_name }
}

/// The style properties that the scene-graph target can set.
pub open spec fn is_supported_property(name: Seq<char>) -> bool {
    name == "background-color"@ || name == "border"@ || name == "color"@ || name == "font-size"@
        || name == "font-family"@ || name == "alt"@
}

fn value_at(p: &Property, i: usize) -> (r: Result<String, String>)
    ensures
        i < p.value@.len() ==> r == Ok::<String, String>(p.value@[i as int]),
        r is Ok ==> i < p.value@.len(),
{
    if i < p.value.len() {
        Ok(p.value[i].clone())
    } else {
        Err(cat(&vec!["Missing value for style property ", p.name.as_str(), "."]))
    }
}

/// Whether the scene-graph target can set a style property with the values
/// it has: one value for most properties, two words in the value of
/// `border`, three values for `alt`.
pub open spec fn property_ok(p: PropertyV) -> bool {
    if p.name == "background-color"@ {
        p.value.len() >= 1
    } else if p.name == "border"@ {
        p.value.len() >= 1 && words_from(p.value[0], 0, seq![], seq![]).len() >= 2
    } else if p.name == "color"@ || p.name == "font-size"@ || p.name == "font-family"@ {
        p.value.len() >= 1
    } else if p.name == "alt"@ {
        p.value.len() >= 3
    } else {
        false
    }
}

/// Whether every property of a list can be set.
pub open spec fn properties_ok(ps: Seq<Property>) -> bool {
    forall|j: int| 0 <= j < ps.len() ==> #[trigger] property_ok(property_view(ps[j]))
}

/// The part of a hex colour after its leading `#`s.
pub open spec fn hex(s: Seq<char>) -> Seq<char> {
    s.subrange(crate::text::run_end(s, '#', 0), s.len() as int)
}

/// The statement that sets one style property.
pub open spec fn rule_statement(p: PropertyV) -> Seq<char> {
    let w = words_from(if p.value.len() > 0 { p.value[0] } else { seq![] }, 0, seq![], seq![]);
    if p.name == "background-color"@ {
        concat(
            seq![
                "\n                                    __s.set_property(\"background-color\", StyleProperty::BackgroundColour(c(\""@,
                hex(p.value[0]),
                "\")));\n                                "@,
            ],
        )
    } else if p.name == "border"@ {
        concat(
            seq![
                "\n                                    __s.set_property(\"border\", StyleProperty::Border { width: "@,
                w[0],
                ", colour: c(\""@,
                hex(w[1]),
                "\") } );\n                                "@,
            ],
        )
    } else if p.name == "color"@ {
        concat(
            seq![
                "\n                                    __s.set_property(\"color\", StyleProperty::Color(c(\""@,
                hex(p.value[0]),
                "\")));\n                                "@,
            ],
        )
    } else if p.name == "font-size"@ {
        concat(
            seq![
                "\n                                    __s.set_property(\"font-size\", StyleProperty::FontSize("@,
                p.value[0],
                "));\n                                "@,
            ],
        )
    } else if p.name == "font-family"@ {
        concat(
            seq![
                "\n                                    __s.set_property(\"font-family\", StyleProperty::FontFamily(\""@,
                p.value[0],
                "\".to_string()));\n                                "@,
            ],
        )
    } else if p.name == "alt"@ {
        concat(
            seq![
                "\n                                    __s.set_property(\"alt\", StyleProperty::Alt(Some(("@,
                p.value[0],
                ", "@,
                p.value[1],
                ", c(\""@,
                hex(p.value[2]),
                "\")))));\n                                "@,
            ],
        )
    } else {
        seq![]
    }
}

/// The statements that set a list of style properties.
pub open spec fn rule_statements(ps: Seq<PropertyV>) -> Seq<char>
    decreases ps.len(),
{
    if ps.len() == 0 {
        seq![]
    } else {
        rule_statements(ps.drop_last()) + rule_statement(ps.last())
    }
}

pub open spec fn properties_view(ps: Seq<Property>) -> Seq<PropertyV> {
    ps.map_values(|p: Property| property_view(p))
}

/// Statements that build a style from the properties of a rule: they are
/// generated exactly when the target can set every property.
pub fn codegen_rules(styles: &Vec<Property>) -> (r: Result<String, String>)
    ensures
        (exists|i: int|
            0 <= i < styles@.len() && !is_supported_property(#[trigger] styles@[i].name@)) ==> r is Err,
        r is Ok <==> properties_ok(styles@),
        r is Ok ==> r->Ok_0@ == "let mut __s = Style::default();"@ + rule_statements(
            properties_view(styles@),
        ),
{
    let mut code = string_from("let mut __s = Style::default();");
    let mut i: usize = 0;
    while i < styles.len()
        invariant
            i <= styles@.len(),
            forall|j: int| 0 <= j < i ==> is_supported_property(#[trigger] styles@[j].name@),
            forall|j: int| 0 <= j < i ==> #[trigger] property_ok(property_view(styles@[j])),
            code@ == "let mut __s = Style::default();"@ + rule_statements(
                properties_view(styles@).subrange(0, i as int),
            ),
        decreases styles@.len() - i,
    {
        let ghost pv = property_view(styles@[i as int]);
        proof {
            reveal_with_fuel(concat, 8);
            assert(properties_view(styles@).subrange(0, i + 1).drop_last() =~= properties_view(
                styles@,
            ).subrange(0, i as int));
            assert(properties_view(styles@)[i as int] == pv);
        }
        assert(pv.value.len() == styles@[i as int].value@.len());
        let style = &styles[i];
        let name = style.name.as_str();
        if str_eq(name, "background-color") {
            assert(property_ok(pv) <==> styles@[i as int].value@.len() >= 1);
            let col_hex = crate::text::trim_leading(value_at(style, 0)?.as_str(), '#');
            let stmt = cat(
                &vec![
                        "\n                                    __s.set_property(\"background-color\", StyleProperty::BackgroundColour(c(\"",
                    col_hex.as_str(),
                    "\")));\n                                ",
                ],
            );
            assert(stmt@ == rule_statement(pv));
            push_str(&mut code, stmt.as_str());
        } else if str_eq(name, "border") {
            assert(styles@[i as int].value@.len() >= 1 ==> pv.value[0] == styles@[i as int].value@[0]@);
            assert(styles@[i as int].value@.len() < 1 ==> !property_ok(pv));
            let v = value_at(style, 0)?;
            let split = crate::parse::split_words(v.as_str());
            assert(v@ == pv.value[0]);
            assert(crate::parse::strings_view(split@).len() == split@.len());
            assert(words_from(pv.value[0], 0, seq![], seq![]).len() == split@.len());
            if split.len() < 2 {
                assert(!property_ok(pv));
                assert(!properties_ok(styles@));
                return Err(cat(&vec!["Missing value for style property ", name, "."]));
            }
            let col_hex = crate::text::trim_leading(split[1].as_str(), '#');
            let stmt = cat(
                &vec![
                        "\n                                    __s.set_property(\"border\", StyleProperty::Border { width: ",
                    split[0].as_str(),
                    ", colour: c(\"",
                    col_hex.as_str(),
                    "\") } );\n                                ",
                ],
            );
            assert(stmt@ == rule_statement(pv));
            push_str(&mut code, stmt.as_str());
        } else if str_eq(name, "color") {
            assert(property_ok(pv) <==> styles@[i as int].value@.len() >= 1);
            let col_hex = crate::text::trim_leading(value_at(style, 0)?.as_str(), '#');
            let stmt = cat(
                &vec![
                        "\n                                    __s.set_property(\"color\", StyleProperty::Color(c(\"",
                    col_hex.as_str(),
                    "\")));\n                                ",
                ],
            );
            assert(stmt@ == rule_statement(pv));
            push_str(&mut code, stmt.as_str());
        } else if str_eq(name, "font-size") {
            assert(property_ok(pv) <==> styles@[i as int].value@.len() >= 1);
            let v = value_at(style, 0)?;
            let stmt = cat(
                &vec![
                        "\n                                    __s.set_property(\"font-size\", StyleProperty::FontSize(",
                    v.as_str(),
                    "));\n                                ",
                ],
            );
            assert(stmt@ == rule_statement(pv));
            push_str(&mut code, stmt.as_str());
        } else if str_eq(name, "font-family") {
            assert(property_ok(pv) <==> styles@[i as int].value@.len() >= 1);
            let v = value_at(style, 0)?;
            let stmt = cat(
                &vec![
                        "\n                                    __s.set_property(\"font-family\", StyleProperty::FontFamily(\"",
                    v.as_str(),
                    "\".to_string()));\n                                ",
                ],
            );
            assert(stmt@ == rule_statement(pv));
            push_str(&mut code, stmt.as_str());
        } else if str_eq(name, "alt") {
            assert(property_ok(pv) <==> styles@[i as int].value@.len() >= 3);
            let width = value_at(style, 0)?;
            let offset = value_at(style, 1)?;
            let col_hex = crate::text::trim_leading(value_at(style, 2)?.as_str(), '#');
            let stmt = cat(
                &vec![
                        "\n                                    __s.set_property(\"alt\", StyleProperty::Alt(Some((",
                    width.as_str(),
                    ", ",
                    offset.as_str(),
                    ", c(\"",
                    col_hex.as_str(),
                    "\")))));\n                                ",
                ],
            );
            assert(stmt@ == rule_statement(pv));
            push_str(&mut code, stmt.as_str());
        } else {
            assert(!property_ok(pv));
            return Err(cat(&vec!["Unsupported style property ", name, "."]));
        }
        assert(property_ok(pv));
        i += 1;
    }
    proof {
        assert(properties_view(styles@).subrange(0, styles@.len() as int) =~= properties_view(
            styles@,
        ));
    }
    Ok(code)
}

/// The statement that copies the cell reached by `v` into its own variable.
pub open spec fn clone_text(v: Seq<char>) -> Seq<char> {
    "let "@ + renamed_var(v) + " = "@ + v + ".clone();\n"@
}

/// The statements that subscribe `update_fn` to the cell reached by `v`, and
/// that unsubscribe it when `point` is cleaned up.
pub open spec fn subscription_text(v: Seq<char>, update_fn: Seq<char>, point: Seq<char>) -> Seq<char> {
    concat(
        seq![
            "\n            let __sub = {\n                let "@,
            update_fn,
            " = "@,
            update_fn,
            ".clone();\n                \n                "@,
            v,
            ".clone().subscribe(Box::new(move |_| {\n                    ("@,
            update_fn,
            ".clone())();\n                }))\n            };\n\n            let "@,
            renamed_var(v),
            " = "@,
            v,
            ".clone();\n\n            "@,
            point,
            ".add_cleanup_fn(Box::new(move || {\n                "@,
            renamed_var(v),
            ".unsubscribe(__sub);\n            }));\n            "@,
        ],
    )
}

/// The copies of the cells that `vars` reach.
pub open spec fn clones_of(vars: Seq<Seq<char>>) -> Seq<char>
    decreases vars.len(),
{
    if vars.len() == 0 {
        seq![]
    } else {
        clones_of(vars.drop_last()) + clone_text(vars.last())
    }
}

/// The subscriptions, each with its unsubscription, to the cells that
/// `vars` reach.
pub open spec fn subscriptions_of(vars: Seq<Seq<char>>, update_fn: Seq<char>, point: Seq<char>) -> Seq<
    char,
>
    decreases vars.len(),
{
    if vars.len() == 0 {
        seq![]
    } else {
        subscriptions_of(vars.drop_last(), update_fn, point) + subscription_text(
            vars.last(),
            update_fn,
            point,
        )
    }
}

fn clone_for(v: &str) -> (r: String)
    ensures
        r@ == clone_text(v@),
{
    proof {
        reveal_with_fuel(concat, 6);
    }
    let no_dots = rename_var(v);
    cat(&vec!["let ", no_dots.as_str(), " = ", v, ".clone();\n"])
}

#[verifier::rlimit(80)]
fn subscription_for(v: &str, update_fn: &str, unsub_point: &str) -> (r: String)
    ensures
        r@ == subscription_text(v@, update_fn@, unsub_point@),
{
    proof {
        reveal_with_fuel(concat, 18);
    }
    let no_dots = rename_var(v);
    cat(
        &vec![
            "\n            let __sub = {\n                let ",
            update_fn,
            " = ",
            update_fn,
            ".clone();\n                \n                ",
            v,
            ".clone().subscribe(Box::new(move |_| {\n                    (",
            update_fn,
            ".clone())();\n                }))\n            };\n\n            let ",
            no_dots.as_str(),
            " = ",
            v,
            ".clone();\n\n            ",
            unsub_point,
            ".add_cleanup_fn(Box::new(move || {\n                ",
            no_dots.as_str(),
            ".unsubscribe(__sub);\n            }));\n            ",
        ],
    )
}

/// Reads of reactive cells in a Rust expression: each `$path` becomes a read
/// of a copy of the cell. Returns the rewritten expression, the statements
/// that copy the cells, and the statements that subscribe `update_fn` to
/// each cell and unsubscribe it when `unsub_point` is cleaned up.
fn reactive_expression(expr: &str, unsub_point: &str, update_fn: &str) -> (r: (String, String, String))
    ensures
        exists|vars: Seq<Seq<char>>|
            r.1@ == #[trigger] clones_of(vars) && r.2@ == subscriptions_of(vars, update_fn@, unsub_point@),
{
    let toks = lex_rust(expr);
    let mut vars: Vec<String> = Vec::new();
    let mut seen: Vec<String> = Vec::new();
    let mut last_was_dollar_sign = false;
    let mut i: usize = 0;
    while i < toks.len()
        invariant
            i <= toks@.len(),
        decreases toks@.len() - i,
    {
        let t = &toks[i];
        if t.kind == RsKind::Dollar {
            last_was_dollar_sign = true;
        } else {
            if t.kind == RsKind::Ident && last_was_dollar_sign {
                let mut var_name = t.text.clone();
                let mut looking_for_dot = true;
                while seen.len() > 0
                    invariant
                        true,
                    decreases seen@.len(),
                {
                    let c = match seen.pop() {
                        Some(c) => c,
                        None => {
                            break;
                        },
                    };
                    if is_all_whitespace(c.as_str()) {
                        continue;
                    }
                    if looking_for_dot && !str_eq(c.as_str(), ".") {
                        seen.push(c);
                        break;
                    }
                    let mut joined = c;
                    push_str(&mut joined, var_name.as_str());
                    var_name = joined;
                    looking_for_dot = !looking_for_dot;
                }
                let mut read = rename_var(var_name.as_str());
                push_str(&mut read, ".get_copy()");
                vars.push(var_name);
                seen.push(read);
            } else {
                seen.push(t.text.clone());
            }
            last_was_dollar_sign = false;
        }
        i += 1;
    }
    let ghost vv = crate::parse::strings_view(vars@);
    let mut clones = String::new();
    let mut subscribes = String::new();
    let mut k: usize = 0;
    while k < vars.len()
        invariant
            k <= vars@.len(),
            vv == crate::parse::strings_view(vars@),
            clones@ == clones_of(vv.subrange(0, k as int)),
            subscribes@ == subscriptions_of(vv.subrange(0, k as int), update_fn@, unsub_point@),
        decreases vars@.len() - k,
    {
        proof {
            assert(vv.subrange(0, k + 1).drop_last() =~= vv.subrange(0, k as int));
        }
        let v = vars[k].as_str();
        push_str(&mut clones, clone_for(v).as_str());
        push_str(&mut subscribes, subscription_for(v, update_fn, unsub_point).as_str());
        k += 1;
    }
    proof {
        assert(vv.subrange(0, vars@.len() as int) =~= vv);
    }
    let mut out = String::new();
    let mut j: usize = 0;
    while j < seen.len()
        invariant
            j <= seen@.len(),
        decreases seen@.len() - j,
    {
        push_str(&mut out, seen[j].as_str());
        j += 1;
    }
    (out, clones, subscribes)
}

/// Whether every rule of a stylesheet has a class selector and properties
/// the target can set.
pub open spec fn sheet_ok(ss: Seq<crate::css::Rule>) -> bool {
    forall|i: int|
        0 <= i < ss.len() ==> (#[trigger] ss[i].selector is Class) && properties_ok(ss[i].properties@)
}

/// The statements that put the style of each class rule of `ss` in the map.
pub open spec fn style_entries(ss: Seq<crate::css::Rule>) -> Seq<char>
    decreases ss.len(),
{
    if ss.len() == 0 {
        seq![]
    } else {
        style_entries(ss.drop_last()) + concat(
            seq![
                "\n                    let mut __s = Style::default();\n                    "@,
                "let mut __s = Style::default();"@ + rule_statements(
                    properties_view(ss.last().properties@),
                ),
                "\n                    stylesheet.insert(\""@,
                match ss.last().selector {
                    Selector::Class(c) => c@,
                    _ => seq![],
                },
                "\".to_string(), __s);\n                "@,
            ],
        )
    }
}

/// Statements that build the name-to-style map of a stylesheet: they are
/// generated exactly when every rule has a class selector and properties
/// the target can set.
pub fn codegen_stylesheet(ss: &StyleSheet) -> (r: Result<String, String>)
    ensures
        (exists|i: int| 0 <= i < ss@.len() && !(#[trigger] ss@[i].selector is Class)) ==> r is Err,
        r is Ok <==> sheet_ok(ss@),
        r is Ok ==> r->Ok_0@ == "let mut stylesheet: HashMap<String, Style> = HashMap::new();"@
            + style_entries(ss@),
{
    let mut code = string_from("let mut stylesheet: HashMap<String, Style> = HashMap::new();");
    let mut i: usize = 0;
    while i < ss.len()
        invariant
            i <= ss@.len(),
            forall|j: int| 0 <= j < i ==> (#[trigger] ss@[j].selector is Class),
            forall|j: int| 0 <= j < i ==> properties_ok(#[trigger] ss@[j].properties@),
            code@ == "let mut stylesheet: HashMap<String, Style> = HashMap::new();"@ + style_entries(
                ss@.subrange(0, i as int),
            ),
        decreases ss@.len() - i,
    {
        proof {
            assert(ss@.subrange(0, i + 1).drop_last() =~= ss@.subrange(0, i as int));
            reveal_with_fuel(concat, 6);
        }
        match &ss[i].selector {
            Selector::Class(class) => {
                let rules = codegen_rules(&ss[i].properties)?;
                push_str(
                    &mut code,
                    cat(
                        &vec![
                            "\n                    let mut __s = Style::default();\n                    ",
                            rules.as_str(),
                            "\n                    stylesheet.insert(\"",
                            class.as_str(),
                            "\".to_string(), __s);\n                ",
                        ],
                    ).as_str(),
                );
            },
            _ => {
                return Err(string_from("The scene-graph target supports class selectors only."));
            },
        }
        i += 1;
    }
    proof {
        assert(ss@.subrange(0, ss@.len() as int) =~= ss@);
    }
    Ok(code)
}

/// The children's construction code, one after the other on lines of
/// their own.
pub open spec fn joined_code(codes: Seq<Seq<char>>) -> Seq<char>
    decreases codes.len(),
{
    if codes.len() == 0 {
        seq![]
    } else if codes.len() == 1 {
        codes[0]
    } else {
        joined_code(codes.drop_last()) + "\n"@ + codes.last()
    }
}

/// The children's variable names that are not empty, joined with `, `.
pub open spec fn joined_names(names: Seq<Seq<char>>) -> Seq<char>
    decreases names.len(),
{
    if names.len() == 0 {
        seq![]
    } else {
        let rest = joined_names(names.drop_last());
        if names.last().len() == 0 {
            rest
        } else if rest.len() == 0 {
            names.last()
        } else {
            rest + ", "@ + names.last()
        }
    }
}

fn codegen_children(children: &Vec<Node>, ids: &mut IdCounter) -> (r: Result<(String, String), String>)
    ensures
        children@.len() == 0 ==> (r is Ok && r->Ok_0.0@.len() == 0 && r->Ok_0.1@.len() == 0),
        r is Ok <==> all_gl(nodes_view(children@)),
        r is Ok ==> exists|codes: Seq<Seq<char>>, names: Seq<Seq<char>>|
            codes.len() == children@.len() && names.len() == children@.len() && r->Ok_0.1@
                == #[trigger] joined_code(codes) && r->Ok_0.0@ == #[trigger] joined_names(names),
    decreases children, 1nat,
{
    let ghost all = nodes_view(children@);
    let ghost mut codes: Seq<Seq<char>> = seq![];
    let ghost mut var_names: Seq<Seq<char>> = seq![];
    let mut names = String::new();
    let mut code = String::new();
    let mut i: usize = 0;
    while i < children.len()
        invariant
            children@.len() == 0 ==> names@.len() == 0 && code@.len() == 0,
            i <= children@.len(),
            all == nodes_view(children@),
            all_gl(nodes_view(children@.subrange(0, i as int))),
            codes.len() == i && var_names.len() == i,
            code@ == joined_code(codes),
            names@ == joined_names(var_names),
        decreases children@.len() - i,
    {
        assert(decreases_to!(children => children@[i as int]));
        proof {
            let pre = children@.subrange(0, i as int);
            assert(children@.subrange(0, i + 1) =~= pre.push(children@[i as int]));
            lemma_nodes_view_push(pre, children@[i as int]);
            lemma_all_gl_push(nodes_view(pre), node_view(children@[i as int]));
            if all_gl(all) {
                lemma_all_gl_prefix(children@, i as int + 1);
            }
        }
        let c = gl_codegen(&children[i], ids)?;
        if i > 0 {
            push_str(&mut code, "\n");
        }
        push_str(&mut code, c.creation_code.as_str());
        if c.elem_var_name.as_str().unicode_len() > 0 {
            if names.as_str().unicode_len() > 0 {
                push_str(&mut names, ", ");
            }
            push_str(&mut names, c.elem_var_name.as_str());
        }
        proof {
            assert(codes.push(c.creation_code@).drop_last() =~= codes);
            assert(var_names.push(c.elem_var_name@).drop_last() =~= var_names);
            codes = codes.push(c.creation_code@);
            var_names = var_names.push(c.elem_var_name@);
        }
        i += 1;
    }
    proof {
        assert(children@.subrange(0, children@.len() as int) =~= children@);
    }
    assert(code@ == joined_code(codes) && names@ == joined_names(var_names));
    Ok((names, code))
}

/// Generates the construction code of one node.
pub fn gl_codegen(node: &Node, ids: &mut IdCounter) -> (r: Result<ElementCode, String>)
    ensures
        node is StyleTag ==> r is Err,
        node is ComponentHole ==> r is Err,
        r is Ok <==> gl_generates(node_view(*node)),
        node is Text ==> (r is Ok && r->Ok_0.elem_var_name@ == "__text"@ + decimal(
            old(ids).next as nat,
        )),
        node is ScriptTag ==> (r is Ok && r->Ok_0.creation_code@ == node->ScriptTag_0.code@
            && r->Ok_0.elem_var_name@.len() == 0),
    decreases node, 2nat,
{
    match node {
        Node::Component(c) => component_rs_codegen(c, ids),
        Node::Element(e) => element_rs_codegen(e, ids),
        Node::Text(t) => Ok(create_text_node(t.as_str(), ids)),
        Node::ReactiveText(expr) => Ok(create_reactive_text(expr, ids)),
        Node::Loop { iterator_variable, iteratable, reactive_list, children } => loop_codegen(
            iterator_variable,
            iteratable,
            *reactive_list,
            children,
            ids,
        ),
        Node::ConditionalElements { condition, children } => conditional_codegen(
            condition,
            children,
            ids,
        ),
        Node::ScriptTag(ScriptTag { code, .. }) => Ok(
            ElementCode { creation_code: code.clone(), elem_var_name: String::new() },
        ),
        Node::StyleTag(_) => Err(string_from("Style blocks must be collected before generation.")),
        Node::ComponentHole { name, .. } => Err(cat(&vec!["Component ", name.as_str(), " not replaced."])),
    }
}

fn loop_codegen(
    iterator_variable: &String,
    iteratable: &String,
    reactive_list: bool,
    children: &Vec<Node>,
    ids: &mut IdCounter,
) -> (r: Result<ElementCode, String>)
    ensures
        r is Ok ==> r->Ok_0.elem_var_name@ == "__loop_container"@ + decimal(
            bumped(old(ids).next) as nat,
        ),
        r is Ok <==> all_gl(nodes_view(children@)),
    decreases children, 2nat,
{
    proof {
        reveal_with_fuel(concat, 3);
    }
    let n1 = uid(ids);
    let create_fn_var_name = cat(&vec!["__loop", n1.as_str()]);
    let n2 = uid(ids);
    let container = cat(&vec!["__loop_container", n2.as_str()]);
    let (iter_expr, clones, subscribes) = reactive_expression(
        iteratable.as_str(),
        container.as_str(),
        "create_list",
    );
    let (children_var_names, children_code) = codegen_children(children, ids)?;
    let create_fn_call = if reactive_list {
        cat(
            &vec![
                "\n            let (key, item) = i;\n\n            let children = ",
                create_fn_var_name.as_str(),
                "_cpy(item, gl, globals);\n            let pe = PhantomElement::new(children, frame_ref.clone());\n            \n            node_id_map_cpy.as_ref().borrow_mut().insert(key, pe.clone());\n\n            vec![pe]\n        ",
            ],
        )
    } else {
        cat(&vec![create_fn_var_name.as_str(), "_cpy(i, gl, globals)"])
    };
    let f = create_fn_var_name.as_str();
    let ct = container.as_str();
    let mut creation_code = cat(
        &vec![
            "\n            let frame_ref_cpy = frame_ref.clone();\n            let ",
            f,
            " = move |",
            iterator_variable.as_str(),
            ", gl: &glow::Context, globals: &Globals| {\n                let frame_ref = frame_ref_cpy.clone();\n                ",
            children_code.as_str(),
            "\n                vec![",
            children_var_names.as_str(),
            "]\n            };\n\n            let ",
            ct,
            " = PhantomElement::new(vec![], frame_ref.clone());\n            \n            let ",
            ct,
            "_cpy = ",
            ct,
            ".clone();\n            let ",
            f,
            "_cpy = ",
            f,
            ".clone();\n            let iteratable = ",
            iter_expr.as_str(),
            ".clone();\n\n\n            let frame_ref_cpy = frame_ref.clone();\n            let create_list = move |gl: &glow::Context, globals: &Globals| {\n                let frame_ref = frame_ref_cpy.clone();\n\n                ",
            clones.as_str(),
            "\n\n                let children = iteratable.into_iter().map(|i| {\n                    ",
            create_fn_call.as_str(),
            "\n                }).flatten().collect::<Vec<Node>>();\n\n                ",
            ct,
            "_cpy.mutate(move |pe: &mut PhantomElement| {\n                    pe.children = children;\n                });\n            };\n\n            create_list(gl, globals);\n\n            ",
            subscribes.as_str(),
            "\n        ",
        ],
    );
    if reactive_list {
        creation_code = cat(
            &vec![
                "\n            let node_id_map: RcRefCell<HashMap<ReactiveListKey, Node>> =\n                rc_ref_cell(HashMap::new());\n            let node_id_map_cpy = node_id_map.clone();\n\n            ",
                creation_code.as_str(),
                "\n\n            let ",
                f,
                "_cpy = ",
                f,
                ".clone();\n            let ",
                ct,
                "_cpy = ",
                ct,
                ".clone();\n            let node_id_map_cpy = node_id_map.clone();\n\n            let frame_ref_cpy = frame_ref.clone();\n            let push_sub = (",
                iter_expr.as_str(),
                ").subscribe_to_push(Box::new(move |key, item| {\n                let frame_ref = frame_ref_cpy.clone();\n\n                let key = *key;\n                let item = item.clone();\n                let ",
                f,
                "_cpy = ",
                f,
                "_cpy.clone();\n                let node_id_map_cpy = node_id_map_cpy.clone();\n\n                let frame_ref_cpy = frame_ref.clone();\n                let create_element: CreateElementFn =\n                    Box::new(move |gl: &glow::Context, globals: &mut Globals| {\n                        let frame_ref = frame_ref_cpy.clone();\n\n                        let children = ",
                f,
                "_cpy(item, gl, globals);\n                        let pe = PhantomElement::new(children, frame_ref.clone());\n                        node_id_map_cpy.as_ref().borrow_mut().insert(key, pe.clone());\n                        pe\n                    });\n\n                queue_element(create_element, ",
                ct,
                "_cpy.clone());\n            }));\n\n            let ",
                ct,
                "_cpy = ",
                ct,
                ".clone();\n            let node_id_map_cpy = node_id_map.clone();\n\n            let rem_sub = (",
                iter_expr.as_str(),
                ").subscribe_to_remove(Box::new(move |key, ()| {\n                if let Some(pe) = node_id_map_cpy.as_ref().borrow_mut().remove(&key) {\n                    let uid = pe.uid.clone();\n\n                    ",
                ct,
                "_cpy.mutate(move |container: &mut PhantomElement| {\n                        container.children.retain(|c| c.uid != uid);\n                    });\n                }\n            }));\n        ",
            ],
        );
    }
    Ok(ElementCode { creation_code, elem_var_name: container })
}

fn conditional_codegen(condition: &String, children: &Vec<Node>, ids: &mut IdCounter) -> (r: Result<
    ElementCode,
    String,
>)
    ensures
        r is Ok ==> r->Ok_0.elem_var_name@ == "__cond_container"@ + decimal(
            bumped(old(ids).next) as nat,
        ),
        r is Ok <==> all_gl(nodes_view(children@)),
    decreases children, 2nat,
{
    proof {
        reveal_with_fuel(concat, 3);
    }
    let n1 = uid(ids);
    let f = cat(&vec!["__cond", n1.as_str()]);
    let n2 = uid(ids);
    let ct = cat(&vec!["__cond_container", n2.as_str()]);
    let (cond, clones, subscribes) = reactive_expression(condition.as_str(), ct.as_str(), "rerun_cond");
    let (children_var_names, children_code) = codegen_children(children, ids)?;
    let creation_code = cat(
        &vec![
            "\n\n        let frame_ref_cpy = frame_ref.clone();\n        let ",
            f.as_str(),
            " = move |gl: &glow::Context, globals: &mut Globals| {\n            let frame_ref = frame_ref_cpy.clone();\n\n            ",
            children_code.as_str(),
            "\n            vec![",
            children_var_names.as_str(),
            "]\n        };\n\n        ",
            clones.as_str(),
            "\n\n        let init_children = if ",
            cond.as_str(),
            " {\n            ",
            f.as_str(),
            "(gl, globals)\n        } else {\n            vec![]\n        };\n\n        let ",
            ct.as_str(),
            " = PhantomElement::new(init_children, frame_ref.clone());\n\n        let ",
            ct.as_str(),
            "_cpy = ",
            ct.as_str(),
            ".clone();\n        let ",
            f.as_str(),
            "_cpy = ",
            f.as_str(),
            ".clone();\n        let prev_cond_result: RcRefCell<Option<bool>> = rc_ref_cell(None);\n\n        let frame_ref_cpy = frame_ref.clone();\n        let rerun_cond = move || {\n            let prev_cond_result = prev_cond_result.clone();\n            let frame_ref = frame_ref_cpy.clone();\n        \n            let cond_result = ",
            cond.as_str(),
            ";\n            \n            let prev = prev_cond_result.borrow().clone();\n            prev_cond_result.borrow_mut().replace(cond_result);\n\n            if let Some(prev) = prev {\n                if prev == cond_result {\n                    return;\n                }\n            }\n    \n            if cond_result {\n                queue_element(Box::new(move |gl, globals| PhantomElement::new(",
            f.as_str(),
            "_cpy(gl, globals), frame_ref.clone())), ",
            ct.as_str(),
            "_cpy);\n            } else {\n                \n                ",
            ct.as_str(),
            "_cpy.mutate(move |pe: &mut PhantomElement| {\n                    pe.children = vec![];\n                });\n            };\n        };\n\n        ",
            subscribes.as_str(),
            "\n    ",
        ],
    );
    Ok(ElementCode { creation_code, elem_var_name: ct })
}

fn create_reactive_text(expr: &String, ids: &mut IdCounter) -> (r: ElementCode)
    ensures
        r.elem_var_name@ == "__text"@ + decimal(old(ids).next as nat),
{
    let text_node = create_text_node("", ids);
    let tn = text_node.elem_var_name.as_str();
    let (e, clones, subscribes) = reactive_expression(expr.as_str(), tn, "update_text");
    let creation_code = cat(
        &vec![
            "\n        ",
            text_node.creation_code.as_str(),
            "\n       \n        let ",
            tn,
            "_cpy = ",
            tn,
            ".clone();\n\n        ",
            clones.as_str(),
            "\n\n        let update_text = move || {\n            ",
            tn,
            "_cpy.mutate(move |t: &mut Text| {\n                t.mutate_text(move |t: &mut String| {\n                    *t = format!(\"{}\", ",
            e.as_str(),
            ");\n                })\n            });\n        };\n\n        ",
            subscribes.as_str(),
            "\n        \n        update_text();\n    ",
        ],
    );
    ElementCode { creation_code, elem_var_name: text_node.elem_var_name }
}

fn first_named<'a>(attrs: &'a Vec<Attribute>, name: &str) -> (r: Option<&'a Attribute>)
    ensures
        match r {
            Some(a) => exists|i: int|
                0 <= i < attrs@.len() && #[trigger] attrs@[i] == *a && a.spec_name() == name@
                    && forall|j: int| 0 <= j < i ==> #[trigger] attrs@[j].spec_name() != name@,
            None => forall|j: int| 0 <= j < attrs@.len() ==> #[trigger] attrs@[j].spec_name() != name@,
        },
{
    let mut i: usize = 0;
    while i < attrs.len()
        invariant
            i <= attrs@.len(),
            forall|j: int| 0 <= j < i ==> #[trigger] attrs@[j].spec_name() != name@,
        decreases attrs@.len() - i,
    {
        if str_eq(attrs[i].name().as_str(), name) {
            return Some(&attrs[i]);
        }
        i += 1;
    }
    None
}

fn element_rs_codegen(e: &Element, ids: &mut IdCounter) -> (r: Result<ElementCode, String>)
    ensures
        r is Ok ==> r->Ok_0.elem_var_name@ == "__elem"@ + decimal(old(ids).next as nat),
        r is Ok <==> all_gl(nodes_view(e.children@)),
    decreases e, 1nat,
{
    proof {
        reveal_with_fuel(concat, 3);
    }
    let n = uid(ids);
    let elem_var_name = cat(&vec!["__elem", n.as_str()]);
    let ev = elem_var_name.as_str();
    let (children_var_names, children_code) = codegen_children(&e.children, ids)?;
    let on_click = match first_named(&e.attributes, "onclick") {
        Some(Attribute::Reactive(ReactiveAttribute { value, .. })) => cat(
            &vec![
                "\n                        let bb = ",
                ev,
                ".borrow::<Element>().bounding_box.clone();\n                        \n                        let __onclick_callback = ",
                value.as_str(),
                ".clone();\n                        globals.subscriptions.subscribe_click_in_area(bb, rc_ref_cell(move |_, _| {\n                            __onclick_callback();\n                        }));\n                    ",
            ],
        ),
        _ => String::new(),
    };
    let mut classes_code = String::new();
    let mut update_class = String::new();
    match &e.classes {
        Some(ClassList::Static(classes)) => {
            let mut k: usize = 0;
            while k < classes.len()
                invariant
                    k <= classes@.len(),
                decreases classes@.len() - k,
            {
                if k > 0 {
                    push_str(&mut classes_code, ", ");
                }
                push_str(&mut classes_code, cat(&vec!["\"", classes[k].as_str(), "\".to_string()"]).as_str());
                k += 1;
            }
        },
        Some(ClassList::Reactive(expr)) => {
            let (x, clones, subs) = reactive_expression(expr.as_str(), ev, "update_class");
            update_class = cat(
                &vec![
                    "\n                        ",
                    clones.as_str(),
                    "\n                        let ",
                    ev,
                    "_cpy = ",
                    ev,
                    ".clone();\n                        let update_class = move || {\n                            ",
                    ev,
                    "_cpy.mutate(move |e: &mut Element| { \n                                e.class_list = (",
                    x.as_str(),
                    ").split_whitespace().map(|s| s.to_string()).collect();\n                            });\n                        };\n                        ",
                    subs.as_str(),
                    "\n                        update_class();\n                    ",
                ],
            );
        },
        None => {},
    }
    let mut creation_code = cat(
        &vec![
            "\n            ",
            children_code.as_str(),
            "\n\n            let ",
            ev,
            " = Element::new(\n                gl,\n                vec![",
            children_var_names.as_str(),
            "],\n                p(20., 20.),\n                d(20., 20.),\n                vec![",
            classes_code.as_str(),
            "],\n                frame_ref.clone(),\n            );\n            \n            ",
            update_class.as_str(),
            "\n            ",
        ],
    );
    push_str(&mut creation_code, on_click.as_str());
    let bound = vec![
        ("x", "properties.position.x"),
        ("y", "properties.position.y"),
        ("w", "properties.dimensions.width"),
        ("h", "properties.dimensions.height"),
    ];
    let mut b: usize = 0;
    while b < bound.len()
        invariant
            b <= bound@.len(),
        decreases bound@.len() - b,
    {
        let (attr_name, property_name) = bound[b];
        match first_named(&e.attributes, attr_name) {
            Some(Attribute::Static(StaticAttribute { value, .. })) => {
                let v = match value {
                    Some(v) => v.as_str(),
                    None => "true",
                };
                push_str(
                    &mut creation_code,
                    cat(
                        &vec![
                            "\n",
                            ev,
                            ".mutate(move |e: &mut Element| { e.",
                            property_name,
                            " = ",
                            v,
                            ";});\n",
                        ],
                    ).as_str(),
                );
            },
            Some(Attribute::Reactive(ReactiveAttribute { value, .. })) => {
                let k = uid(ids);
                let update_fn = cat(&vec!["__attr_update_", k.as_str()]);
                let (x, clones, subs) = reactive_expression(value.as_str(), ev, update_fn.as_str());
                push_str(
                    &mut creation_code,
                    cat(
                        &vec![
                            "\n                            ",
                            clones.as_str(),
                            "\n                            let ",
                            ev,
                            "_cpy = ",
                            ev,
                            ".clone();\n                            let ",
                            update_fn.as_str(),
                            " = move || {\n                                ",
                            ev,
                            "_cpy.mutate(move |e: &mut Element| { e.",
                            property_name,
                            " = ",
                            x.as_str(),
                            "; });\n                            };\n                            ",
                            subs.as_str(),
                            "\n\n                            ",
                            update_fn.as_str(),
                            "();",
                        ],
                    ).as_str(),
                );
            },
            None => {},
        }
        b += 1;
    }
    Ok(ElementCode { creation_code, elem_var_name })
}

fn component_rs_codegen(c: &Component, ids: &mut IdCounter) -> (r: Result<ElementCode, String>)
    ensures
        c.children@.len() == 0 ==> (r is Ok && r->Ok_0.elem_var_name@.len() == 0),
        r is Ok <==> all_gl(nodes_view(c.children@)),
    decreases c, 1nat,
{
    let (children_var_names, children_code) = codegen_children(&c.children, ids)?;
    let mut props = String::new();
    let mut i: usize = 0;
    while i < c.props.len()
        invariant
            i <= c.props@.len(),
        decreases c.props@.len() - i,
    {
        let (name, value) = match &c.props[i] {
            Attribute::Static(StaticAttribute { name, value }) => (
                name,
                match value {
                    Some(v) => cat(&vec!["\"", v.as_str(), "\".to_string()"]),
                    None => string_from("true"),
                },
            ),
            Attribute::Reactive(ReactiveAttribute { name, value }) => (name, value.clone()),
        };
        push_str(&mut props, cat(&vec!["let prop_", name.as_str(), " = (", value.as_str(), ").clone();\n"]).as_str());
        i += 1;
    }
    let creation_code = cat(
        &vec![" \n            ", props.as_str(), "\n            ", children_code.as_str(), "\n        "],
    );
    Ok(ElementCode { creation_code, elem_var_name: children_var_names })
}

/// The text of the generated entry function, around the construction code
/// of the root, the statements that build the styles, and the root's
/// variable names.
pub open spec fn gl_program(creation: Seq<char>, styles: Seq<char>, names: Seq<char>) -> Seq<char> {
    "\nuse std::collections::HashMap;\n\nuse crate::{\n    d,\n    element::{Element, PhantomElement},\n    global::Globals,\n    node::{FrameRef, Node},\n    p,\n    reactive::Reactive,\n    reactive_list::{ReactiveList, ReactiveListKey},\n    style::{c, Colour, Style, StyleProperty},\n    text::{Font, Text},\n    utils::{rc_ref_cell, RcRefCell},\n    BoundingBoxRef, Coordinate, Size,\n    element_creation_queue::{queue_element, CreateElementFn}\n};\n\npub fn root(\n    gl: &glow::Context,\n    globals: &mut Globals,\n    frame_ref: FrameRef,\n) -> (Vec<Node>, HashMap<String, Style>) {\n\n    "@
        + creation + "\n\n    "@ + styles + "\n\n    return (vec!["@ + names
        + "], stylesheet);\n}\n        "@
}

impl Node {
    /// Generates the entry function of the scene-graph target for a
    /// resolved tree: it builds the root's nodes and the style map.
    pub fn full_gl_codegen(&self, stylesheet: &StyleSheet, ids: &mut IdCounter) -> (r: Result<
        String,
        String,
    >)
        ensures
            r matches Ok(s) ==> exists|c: Seq<char>, st: Seq<char>, n: Seq<char>|
                s@ == gl_program(c, st, n),
            (exists|i: int|
                0 <= i < stylesheet@.len() && !(#[trigger] stylesheet@[i].selector is Class)) ==> r is Err,
            r is Ok <==> sheet_ok(stylesheet@) && gl_generates(node_view(*self)),
            r is Ok ==> exists|c: Seq<char>, n: Seq<char>|
                r->Ok_0@ == #[trigger] gl_program(
                    c,
                    "let mut stylesheet: HashMap<String, Style> = HashMap::new();"@ + style_entries(
                        stylesheet@,
                    ),
                    n,
                ),
    {
        let styles = codegen_stylesheet(stylesheet)?;
        let root = without_blank_text(self);
        proof {
            crate::utils::lemma_filtered_gl(node_view(*self));
        }
        let rs = gl_codegen(&root, ids)?;
        let program = cat(
            &vec![
                "\nuse std::collections::HashMap;\n\nuse crate::{\n    d,\n    element::{Element, PhantomElement},\n    global::Globals,\n    node::{FrameRef, Node},\n    p,\n    reactive::Reactive,\n    reactive_list::{ReactiveList, ReactiveListKey},\n    style::{c, Colour, Style, StyleProperty},\n    text::{Font, Text},\n    utils::{rc_ref_cell, RcRefCell},\n    BoundingBoxRef, Coordinate, Size,\n    element_creation_queue::{queue_element, CreateElementFn}\n};\n\npub fn root(\n    gl: &glow::Context,\n    globals: &mut Globals,\n    frame_ref: FrameRef,\n) -> (Vec<Node>, HashMap<String, Style>) {\n\n    ",
                rs.creation_code.as_str(),
                "\n\n    ",
                styles.as_str(),
                "\n\n    return (vec![",
                rs.elem_var_name.as_str(),
                "], stylesheet);\n}\n        ",
            ],
        );
        proof {
            reveal_with_fuel(crate::js_codegen::concat, 8);
        }
        assert(program@ == gl_program(rs.creation_code@, styles@, rs.elem_var_name@));
        Ok(program)
    }
}

} // verus!
