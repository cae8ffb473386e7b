//! Dispatch of a resolved tree to the generator of its target.
use vstd::prelude::*;
use crate::css::{sheet_view, StyleSheet};
use crate::js_codegen::{seq_markup, sheet_css, static_component, web_document};
use crate::tree::nodes_view;
use crate::rs_codegen::{gl_generates, gl_program, sheet_ok};
use crate::job::Target;
use crate::text::string_from;
use crate::utils::IdCounter;
use crate::Node;

verus! {

impl Node {
    /// Generates the output of `target` for a resolved tree. The web page
    /// embeds the runtime support script `runtime`.
    pub fn codegen(&self, target: Target, stylesheet: StyleSheet, runtime: &str, ids: &mut IdCounter) -> (r:
        Result<String, String>)
        ensures
            target == Target::Unknown ==> (r matches Err(m) && m@ == "Unknown target"@),
            target == Target::Unknown ==> final(ids).next == old(ids).next,
            target == Target::Web && r is Ok ==> exists|html: Seq<char>|
                r->Ok_0@ == web_document(runtime@, sheet_css(sheet_view(stylesheet@)), html),
            target == Target::Web && static_component(*self) ==> (r is Ok && r->Ok_0@ == web_document(
                runtime@,
                sheet_css(sheet_view(stylesheet@)),
                seq_markup(nodes_view(self->Component_0.children@))->Some_0,
            )),
            target == Target::GL && r is Ok ==> exists|c: Seq<char>, st: Seq<char>, n: Seq<char>|
                r->Ok_0@ == gl_program(c, st, n),
            target == Target::GL ==> (r is Ok <==> sheet_ok(stylesheet@) && gl_generates(
                crate::tree::node_view(*self),
            )),
    {
        match target {
            Target::Unknown => Err(string_from("Unknown target")),
            Target::Web => self.full_js_codegen(&stylesheet, runtime, ids),
            Target::GL => self.full_gl_codegen(&stylesheet, ids),
        }
    }
}

} // verus!
