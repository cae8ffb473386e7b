//! Renaming of the identifiers that a component instance declares in its
//! scripts and expressions, so that instances never share a binding name.
use vstd::prelude::*;
use ress::tokens::{Punct, Token};
use crate::text::{
    chars_of, decimal, occurs_at, push_str, starts_with_at, str_eq, string_from, string_of_range,
};
use crate::utils::{bumped, uid, IdCounter};
use crate::JSExpression;

verus! {

/// The kinds of script token that renaming and dependency analysis tell apart.
#[derive(PartialEq, Eq, Structural, Clone, Copy, Debug)]
pub enum JsKind {
    Ident,
    Keyword,
    Period,
    Other,
}

/// A script token: its kind, its text and its span in bytes.
pub struct JsToken {
    pub kind: JsKind,
    pub text: String,
    pub start: usize,
    pub end: usize,
}

pub type JsTokenV = (JsKind, Seq<char>, usize, usize);

pub open spec fn js_tokens_view(v: Seq<JsToken>) -> Seq<JsTokenV> {
    v.map_values(|t: JsToken| (t.kind, t.text@, t.start, t.end))
}

/// The tokens that the JavaScript scanner reads from a script.
pub uninterp spec fn js_tokens(src: Seq<char>) -> Seq<JsTokenV>;

/// Whether a script holds text on which the JavaScript scanner can panic:
/// an HTML-style comment opened as `<!-->` or `<!--->` (the scanner slices
/// its text backwards), or a `\u{` escape (the scanner sums its hex digits
/// in a `u32` that nine or more digits overflow).
pub open spec fn trips_scanner(s: Seq<char>) -> bool {
    exists|i: int|
        0 <= i < s.len() && (#[trigger] occurs_at(s, i, "<!-->"@) || occurs_at(s, i, "<!--->"@)
            || occurs_at(s, i, "\\u{"@))
}

/// Whether a script holds text on which the JavaScript scanner can panic;
/// such text is not scanned.
pub fn may_trip_scanner(s: &str) -> (r: bool)
    ensures
        r == trips_scanner(s@),
{
    let chars = chars_of(s);
    let mut i: usize = 0;
    while i < chars.len()
        invariant
            chars@ == s@,
            i <= chars@.len(),
            forall|j: int|
                0 <= j < i ==> !(#[trigger] occurs_at(s@, j, "<!-->"@) || occurs_at(s@, j, "<!--->"@)
                    || occurs_at(s@, j, "\\u{"@)),
        decreases chars@.len() - i,
    {
        if starts_with_at(&chars, i, "<!-->") || starts_with_at(&chars, i, "<!--->")
            || starts_with_at(&chars, i, "\\u{") {
            return true;
        }
        i += 1;
    }
    false
}

/// Relies on `ress::Scanner`: the tokens of a script in order, each with its
/// kind, its text and its byte span, up to the first token it cannot read.
/// Text on which the scanner can panic is left out (see `trips_scanner`).
#[verifier::external_body]
pub(crate) fn scan_js(src: &str) -> (r: Vec<JsToken>)
    requires
        !trips_scanner(src@),
    ensures
        js_tokens_view(r@) == js_tokens(src@),
{
    let mut out = Vec::new();
    for item in ress::Scanner::new(src) {
        let item = match item {
            Ok(i) => i,
            Err(_) => break,
        };
        let kind = match &item.token {
            Token::Ident(_) => JsKind::Ident,
            Token::Keyword(_) => JsKind::Keyword,
            Token::Punct(Punct::Period) => JsKind::Period,
            _ => JsKind::Other,
        };
        out.push(JsToken { kind, text: item.token.to_string(), start: item.span.start, end: item.span.end });
    }
    out
}

/// The number of bytes that UTF-8 takes for `c`.
pub open spec fn utf8_len(c: char) -> int {
    let u = c as u32;
    if u < 0x80 {
        1
    } else if u < 0x800 {
        2
    } else if u < 0x10000 {
        3
    } else {
        4
    }
}

/// Where the `k`-th character of `s` starts, in bytes.
pub open spec fn byte_pos(s: Seq<char>, k: int) -> int
    decreases k,
{
    if k <= 0 || k > s.len() {
        0
    } else {
        byte_pos(s, k - 1) + utf8_len(s[k - 1])
    }
}

/// The first character index at or after `k` that starts at byte `b`.
pub open spec fn char_index_from(s: Seq<char>, b: int, k: int) -> Option<int>
    decreases s.len() + 1 - k,
{
    if k < 0 || k > s.len() {
        None
    } else if byte_pos(s, k) == b {
        Some(k)
    } else {
        char_index_from(s, b, k + 1)
    }
}

/// The character index that starts at byte `b`.
pub open spec fn char_index(s: Seq<char>, b: int) -> Option<int> {
    char_index_from(s, b, 0)
}

proof fn lemma_char_index_from(s: Seq<char>, b: int, k: int)
    requires
        0 <= k,
    ensures
        char_index_from(s, b, k) matches Some(i) ==> k <= i <= s.len(),
    decreases s.len() + 1 - k,
{
    if k <= s.len() && byte_pos(s, k) != b {
        lemma_char_index_from(s, b, k + 1);
    }
}

fn utf8_width(c: char) -> (r: u128)
    ensures
        r == utf8_len(c),
{
    let u = c as u32;
    if u < 0x80 {
        1
    } else if u < 0x800 {
        2
    } else if u < 0x10000 {
        3
    } else {
        4
    }
}

/// The byte position where each character of `s` starts, and the end.
fn byte_offsets(s: &Vec<char>) -> (r: Vec<u128>)
    ensures
        r@.len() == s@.len() + 1,
        forall|k: int| 0 <= k <= s@.len() ==> #[trigger] r@[k] == byte_pos(s@, k),
{
    let mut r: Vec<u128> = Vec::new();
    let mut acc: u128 = 0;
    let mut k: usize = 0;
    r.push(0);
    while k < s.len()
        invariant
            k <= s@.len(),
            r@.len() == k + 1,
            acc == byte_pos(s@, k as int),
            acc <= 4 * k,
            forall|j: int| 0 <= j <= k ==> #[trigger] r@[j] == byte_pos(s@, j),
        decreases s@.len() - k,
    {
        acc = acc + utf8_width(s[k]);
        k += 1;
        r.push(acc);
    }
    r
}

fn find_char_index(offs: &Vec<u128>, b: usize, ghost_s: Ghost<Seq<char>>) -> (r: Option<usize>)
    requires
        offs@.len() == ghost_s@.len() + 1,
        forall|k: int| 0 <= k <= ghost_s@.len() ==> #[trigger] offs@[k] == byte_pos(ghost_s@, k),
    ensures
        r matches Some(k) ==> char_index(ghost_s@, b as int) == Some(k as int),
        r is None ==> char_index(ghost_s@, b as int) is None,
{
    let mut k: usize = 0;
    while k < offs.len()
        invariant
            offs@.len() == ghost_s@.len() + 1,
            forall|j: int| 0 <= j <= ghost_s@.len() ==> #[trigger] offs@[j] == byte_pos(ghost_s@, j),
            k <= offs@.len(),
            char_index_from(ghost_s@, b as int, k as int) == char_index(ghost_s@, b as int),
        decreases offs@.len() - k,
    {
        if offs[k] == b as u128 {
            return Some(k);
        }
        k += 1;
    }
    None
}

/// `s[cursor..]` with each identifier token of `toks[i..]` that reads `find`
/// (or `$find`) replaced by `repl` (or `$repl`).
pub open spec fn renamed_from(
    s: Seq<char>,
    toks: Seq<JsTokenV>,
    find: Seq<char>,
    repl: Seq<char>,
    i: int,
    cursor: int,
) -> Seq<char>
    decreases toks.len() - i,
{
    if i < 0 || i >= toks.len() {
        s.subrange(cursor, s.len() as int)
    } else {
        let t = toks[i];
        let hit = t.0 == JsKind::Ident && (t.1 == find || t.1 == "$"@ + find);
        match (char_index(s, t.2 as int), char_index(s, t.3 as int)) {
            (Some(a), Some(b)) => if hit && cursor <= a <= b {
                s.subrange(cursor, a) + (if t.1 == find {
                    repl
                } else {
                    "$"@ + repl
                }) + renamed_from(s, toks, find, repl, i + 1, b)
            } else {
                renamed_from(s, toks, find, repl, i + 1, cursor)
            },
            _ => renamed_from(s, toks, find, repl, i + 1, cursor),
        }
    }
}

/// `s` with every identifier that reads `find` (or `$find`) renamed to
/// `repl` (or `$repl`); other text, strings and comments are left alone.
/// Text on which the scanner can panic is not scanned and stays as it is.
pub open spec fn renamed(s: Seq<char>, find: Seq<char>, repl: Seq<char>) -> Seq<char> {
    if trips_scanner(s) {
        s
    } else {
        renamed_from(s, js_tokens(s), find, repl, 0, 0)
    }
}

proof fn lemma_char_index_bound(s: Seq<char>, b: int)
    ensures
        char_index(s, b) matches Some(i) ==> 0 <= i <= s.len(),
{
    lemma_char_index_from(s, b, 0);
}

/// Renames every identifier token of `expr` that reads `find` (or `$find`)
/// to `replace` (or `$replace`).
pub fn find_and_replace_js_identifiers(expr: &str, find: &str, replace: &str) -> (r: String)
    ensures
        r@ == renamed(expr@, find@, replace@),
{
    if may_trip_scanner(expr) {
        return string_from(expr);
    }
    let toks = scan_js(expr);
    rename_identifiers(expr, &toks, find, replace)
}

/// Renames, in `expr`, every identifier token of `toks` (the tokens of
/// `expr`, with byte spans) that reads `find` (or `$find`) to `replace` (or
/// `$replace`).
pub fn rename_identifiers(expr: &str, toks: &Vec<JsToken>, find: &str, replace: &str) -> (r: String)
    ensures
        r@ == renamed_from(expr@, js_tokens_view(toks@), find@, replace@, 0, 0),
{
    let chars = chars_of(expr);
    let offs = byte_offsets(&chars);
    let ghost tv = js_tokens_view(toks@);
    let ghost sv = chars@;
    let mut dollar_find = string_from("$");
    push_str(&mut dollar_find, find);
    let mut dollar_replace = string_from("$");
    push_str(&mut dollar_replace, replace);
    let mut out = String::new();
    let mut cursor: usize = 0;
    let mut i: usize = 0;
    while i < toks.len()
        invariant
            sv == chars@,
            chars@ == expr@,
            tv == js_tokens_view(toks@),
            offs@.len() == sv.len() + 1,
            forall|k: int| 0 <= k <= sv.len() ==> #[trigger] offs@[k] == byte_pos(sv, k),
            dollar_find@ == "$"@ + find@,
            dollar_replace@ == "$"@ + replace@,
            i <= toks@.len(),
            cursor <= sv.len(),
            out@ + renamed_from(sv, tv, find@, replace@, i as int, cursor as int) == renamed_from(sv, tv, find@, replace@, 0, 0),
        decreases toks@.len() - i,
    {
        let t = &toks[i];
        assert(tv[i as int] == (t.kind, t.text@, t.start, t.end));
        let ghost c0 = cursor as int;
        let ghost o0 = out@;
        let hit = t.kind == JsKind::Ident && (str_eq(t.text.as_str(), find) || str_eq(
            t.text.as_str(),
            dollar_find.as_str(),
        ));
        let a = find_char_index(&offs, t.start, Ghost(sv));
        let b = find_char_index(&offs, t.end, Ghost(sv));
        proof {
            lemma_char_index_bound(sv, t.start as int);
            lemma_char_index_bound(sv, t.end as int);
        }
        match (a, b) {
            (Some(a), Some(b)) => {
                assert(char_index(sv, t.start as int) == Some(a as int));
                assert(char_index(sv, t.end as int) == Some(b as int));
                if hit && cursor <= a && a <= b {
                    let gap = string_of_range(&chars, cursor, a);
                    let ghost before = out@;
                    push_str(&mut out, gap.as_str());
                    if str_eq(t.text.as_str(), find) {
                        push_str(&mut out, replace);
                    } else {
                        push_str(&mut out, dollar_replace.as_str());
                    }
                    proof {
                        let rep = if t.text@ == find@ {
                            replace@
                        } else {
                            "$"@ + replace@
                        };
                        assert(out@ == before + sv.subrange(cursor as int, a as int) + rep);
                        assert(out@ + renamed_from(sv, tv, find@, replace@, i + 1, b as int)
                            =~= before + (sv.subrange(cursor as int, a as int) + rep
                            + renamed_from(sv, tv, find@, replace@, i + 1, b as int)));
                    }
                    cursor = b;
                } else {
                    assert(renamed_from(sv, tv, find@, replace@, i as int, c0) == renamed_from(
                        sv,
                        tv,
                        find@,
                        replace@,
                        i + 1,
                        c0,
                    ));
                }
            },
            _ => {
                assert(renamed_from(sv, tv, find@, replace@, i as int, c0) == renamed_from(
                    sv,
                    tv,
                    find@,
                    replace@,
                    i + 1,
                    c0,
                ));
            },
        }
        i += 1;
    }
    let rest = string_of_range(&chars, cursor, chars.len());
    push_str(&mut out, rest.as_str());
    out
}

/// The identifiers that follow a `let`, `const`, `var` or `function`
/// keyword in `toks[i..]`, each once, after those in `acc`.
pub open spec fn declared_from(toks: Seq<JsTokenV>, i: int, acc: Seq<Seq<char>>) -> Seq<Seq<char>>
    decreases toks.len() - i,
{
    if i < 0 || i >= toks.len() {
        acc
    } else {
        let t = toks[i];
        let decl = i > 0 && toks[i - 1].0 == JsKind::Keyword && (toks[i - 1].1 == "let"@
            || toks[i - 1].1 == "const"@ || toks[i - 1].1 == "var"@ || toks[i - 1].1
            == "function"@);
        if t.0 == JsKind::Ident && decl && !acc.contains(t.1) {
            declared_from(toks, i + 1, acc.push(t.1))
        } else {
            declared_from(toks, i + 1, acc)
        }
    }
}

/// The identifiers that a script declares, in order of declaration.
pub open spec fn declared(s: Seq<char>) -> Seq<Seq<char>> {
    declared_after(s, seq![])
}

/// The identifiers `acc`, then those that `s` declares and `acc` lacks; text
/// on which the scanner can panic is not scanned and declares none.
pub open spec fn declared_after(s: Seq<char>, acc: Seq<Seq<char>>) -> Seq<Seq<char>> {
    if trips_scanner(s) {
        acc
    } else {
        declared_from(js_tokens(s), 0, acc)
    }
}

fn contains_text(v: &Vec<String>, s: &str) -> (r: bool)
    ensures
        r == crate::parse::strings_view(v@).contains(s@),
{
    let mut i: usize = 0;
    while i < v.len()
        invariant
            i <= v@.len(),
            forall|j: int| 0 <= j < i ==> #[trigger] v@[j]@ != s@,
        decreases v@.len() - i,
    {
        if str_eq(v[i].as_str(), s) {
            assert(crate::parse::strings_view(v@)[i as int] == s@);
            return true;
        }
        i += 1;
    }
    proof {
        if crate::parse::strings_view(v@).contains(s@) {
            let k = choose|k: int|
                0 <= k < v@.len() && #[trigger] crate::parse::strings_view(v@)[k] == s@;
            assert(v@[k]@ == s@);
        }
    }
    false
}

fn is_declaring_keyword(t: &JsToken) -> (r: bool)
    ensures
        r == (t.kind == JsKind::Keyword && (t.text@ == "let"@ || t.text@ == "const"@ || t.text@
            == "var"@ || t.text@ == "function"@)),
{
    t.kind == JsKind::Keyword && (str_eq(t.text.as_str(), "let") || str_eq(t.text.as_str(), "const")
        || str_eq(t.text.as_str(), "var") || str_eq(t.text.as_str(), "function"))
}

/// Appends to `acc` the identifiers that `expr` declares and `acc` lacks.
fn add_declared_js_identifiers(expr: &str, acc: &mut Vec<String>)
    ensures
        crate::parse::strings_view(final(acc)@) == declared_after(
            expr@,
            crate::parse::strings_view(old(acc)@),
        ),
{
    if may_trip_scanner(expr) {
        return;
    }
    let toks = scan_js(expr);
    add_declared_identifiers(&toks, acc);
}

/// Appends to `acc` the identifiers that follow a declaring keyword in the
/// tokens `toks` and that `acc` lacks, in order.
pub fn add_declared_identifiers(toks: &Vec<JsToken>, acc: &mut Vec<String>)
    ensures
        crate::parse::strings_view(final(acc)@) == declared_from(
            js_tokens_view(toks@),
            0,
            crate::parse::strings_view(old(acc)@),
        ),
{
    let ghost tv = js_tokens_view(toks@);
    let ghost start = crate::parse::strings_view(acc@);
    let mut i: usize = 0;
    while i < toks.len()
        invariant
            tv == js_tokens_view(toks@),
            i <= toks@.len(),
            declared_from(tv, i as int, crate::parse::strings_view(acc@)) == declared_from(
                tv,
                0,
                start,
            ),
        decreases toks@.len() - i,
    {
        let t = &toks[i];
        if t.kind == JsKind::Ident && i > 0 && is_declaring_keyword(&toks[i - 1]) {
            if !contains_text(acc, t.text.as_str()) {
                let ghost before = crate::parse::strings_view(acc@);
                acc.push(t.text.clone());
                assert(crate::parse::strings_view(acc@) =~= before.push(t.text@));
            }
        }
        i += 1;
    }
}

/// Renames, in one instance of a component, the identifiers that the
/// instance's scripts declare: each gets the instance's unique prefix.
pub struct ComponentVariableRenamer {
    pub prefix: String,
    pub identifiers: Vec<String>,
}

/// The prefix of an instance of component `name` made with counter value `n`.
pub open spec fn renamer_prefix(name: Seq<char>, n: u64) -> Seq<char> {
    "__"@ + name + "_"@ + decimal(n as nat) + "_"@
}

/// `e` with each identifier of `ids` renamed in turn to `prefix` followed by it.
pub open spec fn rename_all(e: Seq<char>, ids: Seq<Seq<char>>, prefix: Seq<char>) -> Seq<char>
    decreases ids.len(),
{
    if ids.len() == 0 {
        e
    } else {
        let e2 = rename_all(e, ids.drop_last(), prefix);
        renamed(e2, ids.last(), prefix + ids.last())
    }
}

impl ComponentVariableRenamer {
    /// A renamer for a new instance of component `component_name`.
    pub fn new(component_name: &String, ids: &mut IdCounter) -> (r: Self)
        ensures
            r.prefix@ == renamer_prefix(component_name@, old(ids).next),
            r.identifiers@.len() == 0,
            final(ids).next == bumped(old(ids).next),
    {
        let mut prefix = string_from("__");
        push_str(&mut prefix, component_name.as_str());
        push_str(&mut prefix, "_");
        let n = uid(ids);
        push_str(&mut prefix, n.as_str());
        push_str(&mut prefix, "_");
        ComponentVariableRenamer { prefix, identifiers: Vec::new() }
    }

    fn rename(&self, expr: &String) -> (r: String)
        ensures
            r@ == self.prefix@ + expr@,
    {
        let mut r = self.prefix.clone();
        push_str(&mut r, expr.as_str());
        r
    }

    /// Records the identifiers that `expr` declares, then renames every
    /// identifier recorded so far.
    pub fn process(&mut self, expr: &JSExpression) -> (r: JSExpression)
        ensures
            final(self).prefix == old(self).prefix,
            crate::parse::strings_view(final(self).identifiers@) == declared_after(
                expr@,
                crate::parse::strings_view(old(self).identifiers@),
            ),
            r@ == rename_all(
                expr@,
                crate::parse::strings_view(final(self).identifiers@),
                old(self).prefix@,
            ),
    {
        add_declared_js_identifiers(expr.as_str(), &mut self.identifiers);
        self.process_no_declared(expr)
    }

    /// Renames every identifier recorded so far.
    pub fn process_no_declared(&self, expr: &JSExpression) -> (r: JSExpression)
        ensures
            r@ == rename_all(expr@, crate::parse::strings_view(self.identifiers@), self.prefix@),
    {
        let mut e = expr.clone();
        let mut i: usize = 0;
        let ghost ids = crate::parse::strings_view(self.identifiers@);
        while i < self.identifiers.len()
            invariant
                i <= self.identifiers@.len(),
                ids == crate::parse::strings_view(self.identifiers@),
                e@ == rename_all(expr@, ids.subrange(0, i as int), self.prefix@),
            decreases self.identifiers@.len() - i,
        {
            proof {
                assert(ids.subrange(0, i + 1).drop_last() =~= ids.subrange(0, i as int));
            }
            let repl = self.rename(&self.identifiers[i]);
            e = find_and_replace_js_identifiers(e.as_str(), self.identifiers[i].as_str(), repl.as_str());
            i += 1;
        }
        proof {
            assert(ids.subrange(0, ids.len() as int) =~= ids);
        }
        e
    }
}

/// Two instances of one component drawn with different counter values
/// rename the same declared identifier to different names, so sibling
/// instances never share a binding.
pub proof fn lemma_instances_rename_apart(name: Seq<char>, a: u64, b: u64, ident: Seq<char>)
    requires
        a != b,
    ensures
        renamer_prefix(name, a) + ident != renamer_prefix(name, b) + ident,
{
    let pre = "__"@ + name + "_"@;
    let da = decimal(a as nat);
    let db = decimal(b as nat);
    let sa = renamer_prefix(name, a) + ident;
    let sb = renamer_prefix(name, b) + ident;
    assert(sa =~= pre + da + ("_"@ + ident));
    assert(sb =~= pre + db + ("_"@ + ident));
    if sa == sb {
        assert(da.len() == db.len());
        assert(sa.subrange(pre.len() as int, (pre.len() + da.len()) as int) =~= da);
        assert(sb.subrange(pre.len() as int, (pre.len() + db.len()) as int) =~= db);
        crate::text::lemma_decimal_injective(a as nat, b as nat);
    }
}

} // verus!
