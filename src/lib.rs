//! A compiler for a component-based markup language: it parses components,
//! fills in references between them, scopes their names and styles, and
//! generates code for a web page or for a retained-mode scene graph.
use vstd::prelude::*;

pub mod codegen;
pub mod compile;
pub mod config;
pub mod css;
pub mod css_component_scoping;
pub mod job;
pub mod js_codegen;
pub mod js_component_scoping;
pub mod parse;
pub mod rs_codegen;
pub mod scan;
pub mod text;
pub mod tree;
pub mod utils;

pub use crate::job::wasm_compile_;

verus! {

/// Embedded script text: a JavaScript or Rust expression, or a block of code.
pub type JSExpression = String;

/// One node of a component's tree.
#[allow(inconsistent_fields)]
pub enum Node {
    Component(Component),
    ComponentHole {
        name: String,
        position: usize,
        props: Vec<Attribute>,
        file_contents: String,
        children: Option<Vec<Node>>,
    },
    Element(Element),
    ScriptTag(ScriptTag),
    StyleTag(css::StyleSheet),
    Text(String),
    ReactiveText(JSExpression),
    ConditionalElements { condition: JSExpression, children: Vec<Node> },
    Loop {
        iterator_variable: String,
        iteratable: JSExpression,
        reactive_list: bool,
        children: Vec<Node>,
    },
}

/// An element of the markup: `<name ...>children</name>`.
pub struct Element {
    pub name: String,
    pub id: Option<Id>,
    pub classes: Option<ClassList>,
    pub attributes: Vec<Attribute>,
    pub children: Vec<Node>,
}

#[derive(Clone, Debug)]
pub enum Id {
    Static(String),
    Reactive(JSExpression),
}

impl Id {
    pub fn is_reactive(&self) -> (r: bool)
        ensures
            r == (self is Reactive),
    {
        match self {
            Id::Reactive(_) => true,
            _ => false,
        }
    }
}

#[derive(Clone, Debug)]
pub enum ClassList {
    Static(Vec<String>),
    Reactive(JSExpression),
}

impl ClassList {
    pub fn is_reactive(&self) -> (r: bool)
        ensures
            r == (self is Reactive),
    {
        match self {
            ClassList::Reactive(_) => true,
            _ => false,
        }
    }
}

#[derive(Clone, Debug)]
pub struct ScriptTag {
    pub attributes: Vec<Attribute>,
    pub code: JSExpression,
}

#[derive(Clone, Debug)]
pub enum Attribute {
    Static(StaticAttribute),
    Reactive(ReactiveAttribute),
}

/// An attribute with its texts as character sequences.
pub enum AttributeV {
    Static(Seq<char>, Option<Seq<char>>),
    Reactive(Seq<char>, Seq<char>),
}

impl AttributeV {
    pub open spec fn name(self) -> Seq<char> {
        match self {
            AttributeV::Static(n, _) => n,
            AttributeV::Reactive(n, _) => n,
        }
    }
}

pub open spec fn opt_view(o: Option<String>) -> Option<Seq<char>> {
    match o {
        Some(s) => Some(s@),
        None => None,
    }
}

pub open spec fn attrs_view(v: Seq<Attribute>) -> Seq<AttributeV> {
    v.map_values(|a: Attribute| a.view())
}

impl Attribute {
    pub open spec fn view(&self) -> AttributeV {
        match self {
            Attribute::Static(sa) => AttributeV::Static(sa.name@, opt_view(sa.value)),
            Attribute::Reactive(ra) => AttributeV::Reactive(ra.name@, ra.value@),
        }
    }

    /// A copy of the attribute.
    pub fn duplicate(&self) -> (r: Attribute)
        ensures
            r == *self,
    {
        match self {
            Attribute::Static(sa) => Attribute::Static(
                StaticAttribute {
                    name: sa.name.clone(),
                    value: match &sa.value {
                        Some(v) => Some(v.clone()),
                        None => None,
                    },
                },
            ),
            Attribute::Reactive(ra) => Attribute::Reactive(
                ReactiveAttribute { name: ra.name.clone(), value: ra.value.clone() },
            ),
        }
    }

    /// The attribute's name, whatever its kind.
    pub open spec fn spec_name(&self) -> Seq<char> {
        match self {
            Attribute::Reactive(ra) => ra.name@,
            Attribute::Static(sa) => sa.name@,
        }
    }

    pub fn is_reactive(&self) -> (r: bool)
        ensures
            r == (self is Reactive),
    {
        match self {
            Attribute::Reactive(_) => true,
            _ => false,
        }
    }

    pub fn name(&self) -> (r: &String)
        ensures
            r@ == self.spec_name(),
    {
        match self {
            Attribute::Reactive(ra) => &ra.name,
            Attribute::Static(sa) => &sa.name,
        }
    }
}

/// `name="value"`, or a bare `name` when the value is absent.
#[derive(Clone, Debug)]
pub struct StaticAttribute {
    pub name: String,
    pub value: Option<String>,
}

/// `name={expression}`.
#[derive(Clone, Debug)]
pub struct ReactiveAttribute {
    pub name: String,
    pub value: JSExpression,
}

/// The source flavour of a component; it selects the generation target.
#[derive(PartialEq, Eq, Structural, Clone, Copy, Debug)]
pub enum Dialect {
    JsLilac,
    TsLilac,
    RsLilac,
}

/// A component definition, or an instance of one.
pub struct Component {
    pub name: String,
    pub dialect: Dialect,
    pub props: Vec<Attribute>,
    pub children: Vec<Node>,
    /// Set on an instance that occurs inside an instance of the same component.
    pub recursive: bool,
}

/// A named source text, as handed over by a host page.
#[derive(Clone, Debug)]
pub struct File {
    pub name: String,
    pub contents: String,
}

} // verus!
