//! The markup parser: turns a component's source text into its node tree.
use owo_colors::OwoColorize;
use vstd::prelude::*;
use crate::css;
use crate::scan::{
    after_comment, alnum_end, brace_close, closer_scan, curly_inner, grab_alphanum_token,
    lemma_alnum_end, lemma_brace_close, lemma_ws_end, search_for_closing, skip_comments,
    skip_whitespace, ws_end,
};
use crate::text::{
    alnum, upper, chars_of, decimal, decimal_string, is_uppercase_char, is_whitespace_char, is_ws, occurs_at,
    push_char, push_str, starts_with_at, str_eq, string_from, string_of, string_of_range,
};
use crate::tree::{lemma_nodes_view_push, node_view, nodes_view, ClassListV, IdV, NodeV};
use crate::css::stylesheet_of;
use crate::{attrs_view, Attribute, AttributeV, ClassList, Component, Dialect, Element, Id, Node, ReactiveAttribute,
    ScriptTag, StaticAttribute};

verus! {

/// Relies on `owo_colors::OwoColorize::red`, shown as a string: the text
/// between the codes that turn the terminal's foreground red and back.
#[verifier::external_body]
fn red(s: &str) -> (r: String)
    ensures
        r@ == "\x1b[31m"@ + s@ + "\x1b[39m"@,
{
    s.red().to_string()
}

/// A parse error: where it was found, and what was expected there.
#[derive(Debug)]
pub struct CompilerError {
    pub position: usize,
    pub message: String,
}

/// The number of line breaks in `s[..n]`.
pub open spec fn breaks_before(s: Seq<char>, n: int) -> nat
    decreases n,
{
    if n <= 0 || n > s.len() {
        0
    } else {
        breaks_before(s, n - 1) + if s[n - 1] == '\n' {
            1nat
        } else {
            0nat
        }
    }
}

/// Where the line that holds position `n` starts.
pub open spec fn line_start(s: Seq<char>, n: int) -> int
    decreases n,
{
    if n <= 0 || n > s.len() {
        0
    } else if s[n - 1] == '\n' {
        n
    } else {
        line_start(s, n - 1)
    }
}

/// `[line:column] ` for a position of `s`, both counted from 1.
pub open spec fn position_text(s: Seq<char>, p: int) -> Seq<char> {
    let n = if p <= s.len() {
        p
    } else {
        s.len() as int
    };
    "["@ + decimal(breaks_before(s, n) + 1) + ":"@ + decimal((n - line_start(s, n) + 1) as nat)
        + "] "@
}

impl CompilerError {
    /// The error as a message that starts with its line and column in `input`.
    pub fn format(&self, input: &str) -> (r: String)
        ensures
            r@ == position_text(input@, self.position as int) + " "@ + self.message@,
    {
        let mut r = format_position(input, self.position);
        push_str(&mut r, " ");
        push_str(&mut r, self.message.as_str());
        r
    }
}

fn format_position(input: &str, position: usize) -> (r: String)
    ensures
        r@ == position_text(input@, position as int),
{
    let chars = chars_of(input);
    let n = if position <= chars.len() {
        position
    } else {
        chars.len()
    };
    let mut lines: usize = 0;
    let mut start: usize = 0;
    let mut i: usize = 0;
    while i < n
        invariant
            n <= chars@.len(),
            chars@ == input@,
            i <= n,
            lines == breaks_before(chars@, i as int),
            lines <= i,
            start == line_start(chars@, i as int),
            start <= i,
        decreases n - i,
    {
        if chars[i] == '\n' {
            lines += 1;
            start = i + 1;
        }
        i += 1;
    }
    let mut r = string_from("[");
    let line = decimal_string(lines as u128 + 1);
    push_str(&mut r, line.as_str());
    push_str(&mut r, ":");
    let column = decimal_string((n - start) as u128 + 1);
    push_str(&mut r, column.as_str());
    push_str(&mut r, "] ");
    r
}

/// The element names that never take a closing tag.
pub open spec fn is_void_name(s: Seq<char>) -> bool {
    s == "area"@ || s == "base"@ || s == "br"@ || s == "col"@ || s == "embed"@ || s == "hr"@ || s
        == "img"@ || s == "input"@ || s == "link"@ || s == "meta"@ || s == "wbr"@ || s == "track"@
        || s == "source"@
}

/// Whether `name` is one of the elements that never take a closing tag.
pub fn is_void_element(name: &str) -> (r: bool)
    ensures
        r == is_void_name(name@),
{
    str_eq(name, "area") || str_eq(name, "base") || str_eq(name, "br") || str_eq(name, "col")
        || str_eq(name, "embed") || str_eq(name, "hr") || str_eq(name, "img") || str_eq(
        name,
        "input",
    ) || str_eq(name, "link") || str_eq(name, "meta") || str_eq(name, "wbr") || str_eq(
        name,
        "track",
    ) || str_eq(name, "source")
}

/// The words of `s[i..]` separated by white space, after the word `cur`
/// being read and the words `acc` already read.
pub open spec fn words_from(s: Seq<char>, i: int, cur: Seq<char>, acc: Seq<Seq<char>>) -> Seq<
    Seq<char>,
>
    decreases s.len() - i,
{
    let flushed = if cur.len() > 0 {
        acc.push(cur)
    } else {
        acc
    };
    if i < 0 || i >= s.len() {
        flushed
    } else if is_ws(s[i]) {
        words_from(s, i + 1, seq![], flushed)
    } else {
        words_from(s, i + 1, cur.push(s[i]), acc)
    }
}

pub open spec fn strings_view(v: Seq<String>) -> Seq<Seq<char>> {
    v.map_values(|w: String| w@)
}

/// The words of `s`, separated by white space.
pub fn split_words(s: &str) -> (r: Vec<String>)
    ensures
        strings_view(r@) == words_from(s@, 0, seq![], seq![]),
{
    let chars = chars_of(s);
    let mut words: Vec<String> = Vec::new();
    let mut cur = String::new();
    let mut i: usize = 0;
    assert(strings_view(words@) =~= seq![]);
    while i < chars.len()
        invariant
            chars@ == s@,
            i <= chars@.len(),
            words_from(chars@, i as int, cur@, strings_view(words@)) == words_from(
                s@,
                0,
                seq![],
                seq![],
            ),
        decreases chars@.len() - i,
    {
        if is_whitespace_char(chars[i]) {
            if cur.as_str().unicode_len() > 0 {
                let ghost before = strings_view(words@);
                let ghost c = cur@;
                words.push(cur);
                assert(strings_view(words@) =~= before.push(c));
                cur = String::new();
            } else {
                assert(cur@ =~= seq![]);
            }
        } else {
            push_char(&mut cur, chars[i]);
        }
        i += 1;
    }
    if cur.as_str().unicode_len() > 0 {
        let ghost before = strings_view(words@);
        let ghost c = cur@;
        words.push(cur);
        assert(strings_view(words@) =~= before.push(c));
    }
    words
}

/// The tokens of a directive's text after its leading `#`: words separated
/// by white space, and brace blocks, each taken whole as one token (an
/// empty block gives none). `None` when a block is never closed.
pub open spec fn directive_tokens(s: Seq<char>, i: int, cur: Seq<char>, acc: Seq<Seq<char>>) -> Option<
    Seq<Seq<char>>,
>
    decreases s.len() - i,
    via directive_tokens_decreases
{
    let flushed = if cur.len() > 0 {
        acc.push(cur)
    } else {
        acc
    };
    if i < 0 || i >= s.len() {
        Some(flushed)
    } else if is_ws(s[i]) {
        directive_tokens(s, i + 1, seq![], flushed)
    } else if s[i] == '{' {
        match brace_close(s, i + 1, 1) {
            None => None,
            Some(k) => directive_tokens(
                s,
                k + 1,
                cur,
                if k > i + 1 {
                    acc.push(s.subrange(i + 1, k))
                } else {
                    acc
                },
            ),
        }
    } else {
        directive_tokens(s, i + 1, cur.push(s[i]), acc)
    }
}

#[via_fn]
proof fn directive_tokens_decreases(s: Seq<char>, i: int, cur: Seq<char>, acc: Seq<Seq<char>>) {
    if 0 <= i < s.len() && !is_ws(s[i]) && s[i] == '{' {
        lemma_brace_close(s, i + 1, 1);
    }
}

fn tokenize_expression(expr: &Vec<char>) -> (r: Option<Vec<String>>)
    ensures
        match directive_tokens(expr@, 1, seq![], seq![]) {
            Some(ts) => r matches Some(v) && strings_view(v@) == ts,
            None => r is None,
        },
{
    let mut tokens: Vec<String> = Vec::new();
    let mut token = String::new();
    let mut pos: usize = 1;
    assert(strings_view(tokens@) =~= seq![]);
    while pos < expr.len()
        invariant
            1 <= pos,
            directive_tokens(expr@, pos as int, token@, strings_view(tokens@)) == directive_tokens(
                expr@,
                1,
                seq![],
                seq![],
            ),
        decreases expr@.len() - pos,
    {
        let c = expr[pos];
        if is_whitespace_char(c) {
            if token.as_str().unicode_len() > 0 {
                let ghost before = strings_view(tokens@);
                let ghost t = token@;
                tokens.push(token);
                assert(strings_view(tokens@) =~= before.push(t));
                token = String::new();
            } else {
                assert(token@ =~= seq![]);
            }
            pos += 1;
        } else if c == '{' {
            let ghost p_start = pos as int;
            proof {
                lemma_brace_close(expr@, p_start + 1, 1);
            }
            match curly_inner(expr, &mut pos) {
                None => {
                    return None;
                },
                Some(inner) => {
                    if inner.as_str().unicode_len() > 0 {
                        let ghost before = strings_view(tokens@);
                        let ghost t = inner@;
                        tokens.push(inner);
                        assert(strings_view(tokens@) =~= before.push(t));
                    }
                },
            }
        } else {
            push_char(&mut token, c);
            pos += 1;
        }
    }
    if token.as_str().unicode_len() > 0 {
        let ghost before = strings_view(tokens@);
        let ghost t = token@;
        tokens.push(token);
        assert(strings_view(tokens@) =~= before.push(t));
    }
    Some(tokens)
}

/// `ts` joined with single spaces.
pub open spec fn join_spaced(ts: Seq<Seq<char>>) -> Seq<char>
    decreases ts.len(),
{
    if ts.len() == 0 {
        seq![]
    } else if ts.len() == 1 {
        ts[0]
    } else {
        join_spaced(ts.drop_last()) + " "@ + ts.last()
    }
}

/// `v[from..]` joined with single spaces.
fn join_from_index(v: &Vec<String>, from: usize) -> (r: String)
    requires
        from <= v@.len(),
    ensures
        r@ == join_spaced(strings_view(v@).subrange(from as int, v@.len() as int)),
{
    let mut r = String::new();
    let mut i = from;
    while i < v.len()
        invariant
            from <= i <= v@.len(),
            r@ == join_spaced(strings_view(v@).subrange(from as int, i as int)),
        decreases v@.len() - i,
    {
        let ghost prev = strings_view(v@).subrange(from as int, i as int);
        let ghost next = strings_view(v@).subrange(from as int, i + 1);
        assert(next.drop_last() =~= prev);
        if i > from {
            push_str(&mut r, " ");
        } else {
            assert(prev.len() == 0);
        }
        push_str(&mut r, v[i].as_str());
        i += 1;
    }
    r
}

/// Appends the pending text run, if any, as a text node, and empties it.
fn push_text(text: &mut String, nodes: &mut Vec<Node>)
    ensures
        old(text)@.len() > 0 ==> final(nodes)@ == old(nodes)@.push(Node::Text(*old(text))),
        old(text)@.len() == 0 ==> final(nodes)@ == old(nodes)@,
        final(text)@.len() == 0,
        nodes_view(final(nodes)@) == flush_text(nodes_view(old(nodes)@), old(text)@),
{
    proof {
        lemma_nodes_view_push(nodes@, Node::Text(*text));
    }
    if text.as_str().unicode_len() > 0 {
        nodes.push(Node::Text(text.clone()));
        *text = String::new();
    }
}

/// Where the closing tag of an element named `name` stands, scanning from
/// `pos` with `depth` same-named elements still open: the position of its
/// `>` and of its `<`.
pub open spec fn closing_tag_scan(s: Seq<char>, name: Seq<char>, pos: int, depth: nat) -> Option<
    (int, int),
>
    decreases s.len() - pos,
    via closing_tag_scan_decreases
{
    if pos < 0 || pos >= s.len() {
        None
    } else {
        let p = after_comment(s, pos);
        if p >= s.len() {
            None
        } else {
        let d1: nat = if occurs_at(s, p, "<"@) && occurs_at(s, ws_end(s, p + 1), name) {
            depth + 1
        } else {
            depth
        };
        let n = ws_end(s, p + 2);
        let gt = ws_end(s, n + name.len());
        if occurs_at(s, p, "</"@) && occurs_at(s, n, name) && occurs_at(s, gt, ">"@) {
            if d1 == 0 {
                Some((gt, p))
            } else {
                closing_tag_scan(s, name, p + 1, (d1 - 1) as nat)
            }
        } else {
            closing_tag_scan(s, name, p + 1, d1)
        }
        }
    }
}

#[via_fn]
proof fn closing_tag_scan_decreases(s: Seq<char>, name: Seq<char>, pos: int, depth: nat) {
    if 0 <= pos < s.len() {
        lemma_after_comment(s, pos);
    }
}

proof fn lemma_after_comment(s: Seq<char>, p: int)
    requires
        0 <= p <= s.len(),
    ensures
        p <= after_comment(s, p) <= s.len(),
{
    reveal_strlit("<!--");
    if occurs_at(s, p, "<!--"@) {
        crate::scan::lemma_comment_close(s, p + 4);
    }
}

/// Finds the closing tag of the element named `name` whose content starts
/// at `pos`, counting nested elements of the same name: the positions of
/// its `>` and of its `<`.
fn find_closing(input: &Vec<char>, name: &str, from: usize) -> (r: Result<(usize, usize), CompilerError>)
    requires
        from <= input@.len() < usize::MAX,
    ensures
        match closing_tag_scan(input@, name@, from as int, 0) {
            Some((gt, lt)) => r == Ok::<(usize, usize), CompilerError>((gt as usize, lt as usize))
                && from <= lt < gt < input@.len(),
            None => r is Err && r->Err_0.message@ == "Could not find closing tag for "@ + name@
                && r->Err_0.position == input@.len(),
        },
        r matches Ok((gt, lt)) ==> from <= lt < gt < input@.len(),
{
    let len = input.len();
    let name_len = name.unicode_len();
    let mut depth: usize = 0;
    let mut pos = from;
    let ghost start = from as int;
    while pos < len
        invariant
            len == input@.len() < usize::MAX,
            name_len == name@.len(),
            start == from <= pos <= len,
            depth <= pos,
            closing_tag_scan(input@, name@, pos as int, depth as nat) == closing_tag_scan(
                input@,
                name@,
                start,
                0,
            ),
        decreases len - pos,
    {
        let ghost p_start = pos as int;
        proof {
            lemma_after_comment(input@, p_start);
        }
        skip_comments(input, &mut pos);
        if pos >= len {
            return Err(no_closing_tag(name, len));
        }
        if starts_with_at(input, pos, "<") {
            let mut p = pos + 1;
            skip_whitespace(input, &mut p);
            if starts_with_at(input, p, name) {
                depth += 1;
            }
        }
        if starts_with_at(input, pos, "</") {
            let closing_tag_pos = pos;
            let mut p = pos + 2;
            skip_whitespace(input, &mut p);
            if starts_with_at(input, p, name) {
                p += name_len;
                skip_whitespace(input, &mut p);
                if starts_with_at(input, p, ">") {
                    if depth == 0 {
                        proof {
                            lemma_ws_end(input@, closing_tag_pos + 2);
                            lemma_ws_end(input@, ws_end(input@, closing_tag_pos + 2) + name_len);
                            reveal_strlit(">");
                        }
                        return Ok((p, closing_tag_pos));
                    }
                    depth -= 1;
                }
            }
        }
        pos += 1;
    }
    Err(no_closing_tag(name, len))
}

fn no_closing_tag(name: &str, len: usize) -> (r: CompilerError)
    ensures
        r.position == len,
        r.message@ == "Could not find closing tag for "@ + name@,
{
    let mut message = string_from("Could not find closing tag for ");
    push_str(&mut message, name);
    CompilerError { position: len, message }
}

/// The attributes written by the words of an opening tag `us[i..]` (a name,
/// then `=` and a value in quotes or braces, or no value), after the
/// attributes `acc`; or the message of the first malformed one.
pub open spec fn attrs_from(us: Seq<Seq<char>>, i: int, acc: Seq<AttributeV>) -> Result<
    Seq<AttributeV>,
    Seq<char>,
>
    decreases us.len() - i,
{
    if i < 0 || i >= us.len() {
        Ok(acc)
    } else if i + 1 >= us.len() || us[i + 1] != "="@ {
        attrs_from(us, i + 1, acc.push(AttributeV::Static(us[i], None)))
    } else if i + 2 >= us.len() {
        Err("Expected attribute value"@)
    } else {
        let v = us[i + 2];
        let n = v.len();
        if n > 0 && v[0] == '"' {
            if n < 2 || v[n - 1] != '"' {
                if v[n - 1] == ',' {
                    Err("Commas should not be used to separate attribute arguments"@)
                } else {
                    Err("Expected \""@)
                }
            } else {
                attrs_from(
                    us,
                    i + 3,
                    acc.push(AttributeV::Static(us[i], Some(v.subrange(1, n - 1)))),
                )
            }
        } else if n > 0 && v[0] == '{' {
            if v[n - 1] != '}' {
                Err("Expected }"@)
            } else {
                attrs_from(us, i + 3, acc.push(AttributeV::Reactive(us[i], v.subrange(1, n - 1))))
            }
        } else {
            Err("Invalid attribute value"@)
        }
    }
}

fn inner_text(v: &String) -> (r: String)
    requires
        v@.len() >= 2,
    ensures
        r@ == v@.subrange(1, v@.len() - 1),
{
    let n = v.as_str().unicode_len();
    String::from_str(v.as_str().substring_char(1, n - 1))
}

/// Reads the attributes out of the words of an opening tag.
fn parse_attributes(unparsed: &Vec<String>, pos: usize) -> (r: Result<Vec<Attribute>, CompilerError>)
    ensures
        match attrs_from(strings_view(unparsed@), 0, seq![]) {
            Ok(attrs) => r matches Ok(v) && attrs_view(v@) == attrs,
            Err(m) => r matches Err(e) && e.position == pos && e.message@ == m,
        },
{
    let ghost us = strings_view(unparsed@);
    let n = unparsed.len();
    let mut attributes: Vec<Attribute> = Vec::new();
    let mut i: usize = 0;
    assert(attrs_view(attributes@) =~= seq![]);
    while i < n
        invariant
            n == unparsed@.len(),
            us == strings_view(unparsed@),
            i <= n,
            attrs_from(us, i as int, attrs_view(attributes@)) == attrs_from(us, 0, seq![]),
        decreases n - i,
    {
        let ghost before = attrs_view(attributes@);
        let name = unparsed[i].clone();
        if i + 1 >= n || !str_eq(unparsed[i + 1].as_str(), "=") {
            attributes.push(Attribute::Static(StaticAttribute { name, value: None }));
            assert(attrs_view(attributes@) =~= before.push(AttributeV::Static(us[i as int], None)));
            i += 1;
            continue;
        }
        if i + 2 >= n {
            return Err(
                CompilerError { position: pos, message: string_from("Expected attribute value") },
            );
        }
        let value = &unparsed[i + 2];
        let vn = value.as_str().unicode_len();
        if vn > 0 && value.as_str().get_char(0) == '"' {
            if vn < 2 || value.as_str().get_char(vn - 1) != '"' {
                if value.as_str().get_char(vn - 1) == ',' {
                    return Err(
                        CompilerError {
                            position: pos,
                            message: string_from(
                                "Commas should not be used to separate attribute arguments",
                            ),
                        },
                    );
                }
                return Err(CompilerError { position: pos, message: string_from("Expected \"") });
            }
            let inner = inner_text(value);
            let ghost iv = inner@;
            attributes.push(Attribute::Static(StaticAttribute { name, value: Some(inner) }));
            assert(attrs_view(attributes@) =~= before.push(
                AttributeV::Static(us[i as int], Some(iv)),
            ));
        } else if vn > 0 && value.as_str().get_char(0) == '{' {
            if value.as_str().get_char(vn - 1) != '}' {
                return Err(CompilerError { position: pos, message: string_from("Expected }") });
            }
            let inner = inner_text(value);
            let ghost iv = inner@;
            attributes.push(Attribute::Reactive(ReactiveAttribute { name, value: inner }));
            assert(attrs_view(attributes@) =~= before.push(AttributeV::Reactive(us[i as int], iv)));
        } else {
            return Err(
                CompilerError { position: pos, message: string_from("Invalid attribute value") },
            );
        }
        i += 3;
    }
    Ok(attributes)
}

#[derive(PartialEq, Eq, Structural, Clone, Copy)]
pub enum AttrParsingContext {
    Plain,
    Quotes,
    Curly,
}

/// Reads the words of an opening tag from `pos` (just after its name) up to
/// its `>`, or to its `/>` (then the flag is set). Quoted and brace-delimited
/// values are read whole, so a `>` inside them does not end the tag.
fn scan_open_tag(input: &Vec<char>, pos: &mut usize) -> (r: (Vec<String>, bool))
    requires
        *old(pos) <= input@.len() < usize::MAX,
    ensures
        *old(pos) <= *final(pos) <= input@.len(),
        r.1 ==> *final(pos) + 1 < input@.len() && input@[*final(pos) as int] == '/'
            && input@[*final(pos) + 1] == '>',
        !r.1 && *final(pos) < input@.len() ==> input@[*final(pos) as int] == '>',
        *old(pos) < input@.len() && input@[*old(pos) as int] == '>' ==> r.0@.len() == 0 && !r.1
            && *final(pos) == *old(pos),
        open_tag_run(input@, *old(pos) as int, 0, 0, seq![], seq![]) == (
            strings_view(r.0@),
            r.1,
            *final(pos) as int,
        ),
{
    let len = input.len();
    let mut unparsed: Vec<String> = Vec::new();
    let mut token = String::new();
    let mut ctx = AttrParsingContext::Plain;
    let mut depth: usize = 0;
    let ghost start = *pos;
    assert(strings_view(unparsed@) =~= seq![]);
    assert(token@ =~= seq![]);
    while *pos < len && !(ctx == AttrParsingContext::Plain && input[*pos] == '>')
        invariant
            len == input@.len() < usize::MAX,
            start == *old(pos) <= *pos <= len,
            depth <= *pos,
            start < len && input@[start as int] == '>' ==> *pos == start && ctx
                == AttrParsingContext::Plain && unparsed@.len() == 0 && token@.len() == 0,
            open_tag_run(input@, *pos as int, ctx_code(ctx), depth as int, token@, strings_view(unparsed@))
                == open_tag_run(input@, start as int, 0, 0, seq![], seq![]),
        decreases len - *pos,
    {
        let c = input[*pos];
        if ctx == AttrParsingContext::Plain {
            if (is_whitespace_char(c) || c == '=') && token.as_str().unicode_len() > 0 {
                let ghost before = strings_view(unparsed@);
                let ghost tv = token@;
                unparsed.push(token);
                assert(strings_view(unparsed@) =~= before.push(tv));
                token = String::new();
            }
            let ghost before = *pos as int;
            proof {
                lemma_ws_end(input@, before);
            }
            skip_whitespace(input, pos);
            if *pos >= len {
                return (with_token(unparsed, token), false);
            }
            let c = input[*pos];
            if c == '"' {
                ctx = AttrParsingContext::Quotes;
            } else if c == '{' {
                ctx = AttrParsingContext::Curly;
            }
            if c == '/' && *pos + 1 < len && input[*pos + 1] == '>' {
                return (with_token(unparsed, token), true);
            }
            if c == '>' {
                return (with_token(unparsed, token), false);
            }
            if c == '=' {
                let ghost before = strings_view(unparsed@);
                unparsed.push(string_from("="));
                assert(strings_view(unparsed@) =~= before.push("="@));
            } else {
                push_char(&mut token, c);
            }
        } else {
            push_char(&mut token, c);
            if ctx == AttrParsingContext::Quotes {
                if c == '"' {
                    ctx = AttrParsingContext::Plain;
                }
            } else {
                if c == '}' {
                    if depth == 0 {
                        ctx = AttrParsingContext::Plain;
                    } else {
                        depth -= 1;
                    }
                } else if c == '{' {
                    depth += 1;
                }
            }
        }
        *pos += 1;
    }
    (with_token(unparsed, token), false)
}

/// The words read so far, with the word being read if it is not empty.
fn with_token(unparsed: Vec<String>, token: String) -> (r: Vec<String>)
    ensures
        token@.len() > 0 ==> r@ == unparsed@.push(token),
        token@.len() == 0 ==> r@ == unparsed@,
        strings_view(r@) == flush_word(strings_view(unparsed@), token@),
{
    let ghost before = strings_view(unparsed@);
    let ghost tv = token@;
    let mut unparsed = unparsed;
    if token.as_str().unicode_len() > 0 {
        unparsed.push(token);
        assert(strings_view(unparsed@) =~= before.push(tv));
    }
    unparsed
}

/// Whether an attribute is named `id` or `class`, which elements keep apart.
pub open spec fn is_id_or_class(a: AttributeV) -> bool {
    a.name() == "id"@ || a.name() == "class"@
}

/// The attributes of `s` that are neither `id` nor `class`, in order.
pub open spec fn plain_attrs(s: Seq<AttributeV>) -> Seq<AttributeV>
    decreases s.len(),
{
    if s.len() == 0 {
        seq![]
    } else if is_id_or_class(s.last()) {
        plain_attrs(s.drop_last())
    } else {
        plain_attrs(s.drop_last()).push(s.last())
    }
}

fn find_attr(attrs: &Vec<Attribute>, name: &str) -> (r: Option<usize>)
    ensures
        match r {
            Some(i) => i < attrs@.len() && attrs@[i as int].view().name() == name@ && forall|j: int|
                0 <= j < i ==> #[trigger] attrs@[j].view().name() != name@,
            None => forall|j: int|
                0 <= j < attrs@.len() ==> #[trigger] attrs@[j].view().name() != name@,
        },
{
    let mut i: usize = 0;
    while i < attrs.len()
        invariant
            i <= attrs@.len(),
            forall|j: int| 0 <= j < i ==> #[trigger] attrs@[j].view().name() != name@,
        decreases attrs@.len() - i,
    {
        if str_eq(attrs[i].name().as_str(), name) {
            return Some(i);
        }
        i += 1;
    }
    None
}

/// The id that an `id` attribute gives an element: none for a bare `id`.
fn id_from(a: &Attribute) -> (r: Option<Id>)
    ensures
        match a {
            Attribute::Static(sa) => match sa.value {
                Some(v) => r == Some(Id::Static(v)),
                None => r is None,
            },
            Attribute::Reactive(ra) => r == Some(Id::Reactive(ra.value)),
        },
{
    match a {
        Attribute::Static(sa) => match &sa.value {
            Some(v) => Some(Id::Static(v.clone())),
            None => None,
        },
        Attribute::Reactive(ra) => Some(Id::Reactive(ra.value.clone())),
    }
}

/// The classes that a `class` attribute gives an element: the words of a
/// static value, or the expression of a reactive one; none for a bare `class`.
fn classes_from(a: &Attribute) -> (r: Option<ClassList>)
    ensures
        match a {
            Attribute::Static(sa) => match sa.value {
                Some(v) => r matches Some(ClassList::Static(ws)) && strings_view(ws@)
                    == words_from(v@, 0, seq![], seq![]),
                None => r is None,
            },
            Attribute::Reactive(ra) => r == Some(ClassList::Reactive(ra.value)),
        },
{
    match a {
        Attribute::Static(sa) => match &sa.value {
            Some(v) => Some(ClassList::Static(split_words(v.as_str()))),
            None => None,
        },
        Attribute::Reactive(ra) => Some(ClassList::Reactive(ra.value.clone())),
    }
}

/// An element named `name`: its `id` and `class` attributes become its id
/// and class list, the others stay attributes.
proof fn lemma_find_from_some(a: Seq<AttributeV>, name: Seq<char>, i: int, k: int)
    requires
        0 <= i <= k < a.len(),
        a[k].name() == name,
        forall|j: int| i <= j < k ==> #[trigger] a[j].name() != name,
    ensures
        find_from(a, name, i) == Some(k),
    decreases k - i,
{
    if i < k {
        lemma_find_from_some(a, name, i + 1, k);
    }
}

proof fn lemma_find_from_none(a: Seq<AttributeV>, name: Seq<char>, i: int)
    requires
        0 <= i,
        forall|j: int| i <= j < a.len() ==> #[trigger] a[j].name() != name,
    ensures
        find_from(a, name, i) is None,
    decreases a.len() - i,
{
    if i < a.len() {
        lemma_find_from_none(a, name, i + 1);
    }
}

fn element_from(name: String, attributes: Vec<Attribute>, children: Vec<Node>) -> (r: Element)
    ensures
        node_view(Node::Element(r)) == element_v(name@, attrs_view(attributes@), nodes_view(children@)),
        r.name == name,
        r.children == children,
        attrs_view(r.attributes@) == plain_attrs(attrs_view(attributes@)),
        r.id is Some ==> exists|i: int|
            0 <= i < attributes@.len() && #[trigger] attributes@[i].view().name() == "id"@,
        r.classes is Some ==> exists|i: int|
            0 <= i < attributes@.len() && #[trigger] attributes@[i].view().name() == "class"@,
{
    let ghost av = attrs_view(attributes@);
    let id = match find_attr(&attributes, "id") {
        Some(i) => {
            proof {
                assert forall|j: int| 0 <= j < i implies #[trigger] av[j].name() != "id"@ by {
                    assert(av[j] == attributes@[j].view());
                }
                assert(av[i as int] == attributes@[i as int].view());
                lemma_find_from_some(av, "id"@, 0, i as int);
            }
            id_from(&attributes[i])
        },
        None => {
            proof {
                assert forall|j: int| 0 <= j < av.len() implies #[trigger] av[j].name() != "id"@ by {
                    assert(av[j] == attributes@[j].view());
                }
                lemma_find_from_none(av, "id"@, 0);
            }
            None
        },
    };
    let classes = match find_attr(&attributes, "class") {
        Some(i) => {
            proof {
                assert forall|j: int| 0 <= j < i implies #[trigger] av[j].name() != "class"@ by {
                    assert(av[j] == attributes@[j].view());
                }
                assert(av[i as int] == attributes@[i as int].view());
                lemma_find_from_some(av, "class"@, 0, i as int);
            }
            classes_from(&attributes[i])
        },
        None => {
            proof {
                assert forall|j: int| 0 <= j < av.len() implies #[trigger] av[j].name() != "class"@ by {
                    assert(av[j] == attributes@[j].view());
                }
                lemma_find_from_none(av, "class"@, 0);
            }
            None
        },
    };
    let mut kept: Vec<Attribute> = Vec::new();
    let mut i: usize = 0;
    assert(attrs_view(attributes@).subrange(0, 0) =~= seq![]);
    assert(attrs_view(kept@) =~= seq![]);
    while i < attributes.len()
        invariant
            i <= attributes@.len(),
            attrs_view(kept@) == plain_attrs(attrs_view(attributes@).subrange(0, i as int)),
        decreases attributes@.len() - i,
    {
        let ghost before = attrs_view(kept@);
        let ghost pre = attrs_view(attributes@).subrange(0, i as int);
        let ghost next = attrs_view(attributes@).subrange(0, i + 1);
        assert(next.drop_last() =~= pre);
        let n = attributes[i].name();
        if !str_eq(n.as_str(), "id") && !str_eq(n.as_str(), "class") {
            kept.push(attributes[i].duplicate());
            assert(attrs_view(kept@) =~= before.push(attributes@[i as int].view()));
        }
        i += 1;
    }
    assert(attrs_view(attributes@).subrange(0, attributes@.len() as int) =~= attrs_view(
        attributes@,
    ));
    Element { name, id, classes, attributes: kept, children }
}

fn error_at(position: usize, message: &str) -> (r: CompilerError)
    ensures
        r.position == position,
        r.message@ == message@,
{
    CompilerError { position, message: string_from(message) }
}

/// The error for a closing tag whose `<` is at `p`, where an element should
/// start: a void element's name gets its own message.
pub open spec fn closing_tag_message(s: Seq<char>, p: int) -> Seq<char> {
    let q = ws_end(s, p + 1) + 1;
    let name = s.subrange(q, alnum_end(s, q));
    if is_void_name(name) {
        "Element <"@ + name + "> cannot have a closing tag."@
    } else {
        "Unexpected closing tag"@
    }
}

/// Whether `s[start..end]` starts with a void element written as a bare
/// tag, right followed by a closing tag.
pub open spec fn void_then_closing(s: Seq<char>, start: int, end: int) -> bool {
    let e1 = tag_end(s, start) + 1;
    0 <= start < s.len() && s[start] == '<' && bare_tag(s, start) && is_void_name(tag_name(s, start))
        && tag_name(s, start) != "script"@ && tag_name(s, start) != "style"@ && !upper(
        tag_name(s, start)[0],
    ) && e1 < end && e1 < s.len() && occurs_at(s, e1, "</"@)
}

/// Where the name of the tag whose `<` is at `p` ends.
pub open spec fn tag_end(s: Seq<char>, p: int) -> int {
    alnum_end(s, ws_end(s, p + 1))
}

/// Whether the tag whose `<` is at `p` is a name right followed by `>`.
pub open spec fn bare_tag(s: Seq<char>, p: int) -> bool {
    !occurs_at(s, ws_end(s, p + 1), "/"@) && tag_name(s, p).len() > 0 && tag_end(s, p) < s.len()
        && s[tag_end(s, p)] == '>'
}

/// The name of the tag whose `<` is at `p`: the letters and digits after it
/// and any white space.
pub open spec fn tag_name(s: Seq<char>, p: int) -> Seq<char> {
    s.subrange(ws_end(s, p + 1), alnum_end(s, ws_end(s, p + 1)))
}

/// Parses the element whose `<` is at `pos` and moves `pos` past it: its
/// closing tag, or its `/>`, or its `>` for a void element.
#[verifier::rlimit(100)]
fn parse_elem(input: &Vec<char>, pos: &mut usize) -> (r: Result<Node, CompilerError>)
    requires
        *old(pos) < input@.len() < usize::MAX,
    ensures
        r is Ok ==> *old(pos) < *final(pos) <= input@.len(),
        occurs_at(input@, ws_end(input@, *old(pos) + 1), "/"@) ==> (r is Err && r->Err_0.message@
            == closing_tag_message(input@, *old(pos) as int)),
        r is Ok ==> tag_name(input@, *old(pos) as int).len() > 0,
        r is Ok && tag_name(input@, *old(pos) as int) == "script"@ ==> r->Ok_0 is ScriptTag,
        r is Ok && tag_name(input@, *old(pos) as int) == "style"@ ==> r->Ok_0 is StyleTag,
        r is Ok && tag_name(input@, *old(pos) as int) != "script"@ && tag_name(
            input@,
            *old(pos) as int,
        ) != "style"@ ==> if upper(tag_name(input@, *old(pos) as int)[0]) {
            crate::compile::hole_name(r->Ok_0) == Some(tag_name(input@, *old(pos) as int))
        } else {
            r->Ok_0 is Element && r->Ok_0->Element_0.name@ == tag_name(input@, *old(pos) as int)
        },
        bare_tag(input@, *old(pos) as int) && is_void_name(tag_name(input@, *old(pos) as int))
            && tag_name(input@, *old(pos) as int) != "script"@ && tag_name(input@, *old(pos) as int)
            != "style"@ && !upper(tag_name(input@, *old(pos) as int)[0]) ==> (r is Ok && r->Ok_0 is Element
            && r->Ok_0->Element_0.name@ == tag_name(input@, *old(pos) as int)
            && r->Ok_0->Element_0.id is None && r->Ok_0->Element_0.classes is None
            && r->Ok_0->Element_0.attributes@.len() == 0 && r->Ok_0->Element_0.children@.len() == 0
            && *final(pos) == tag_end(input@, *old(pos) as int) + 1),
        bare_tag(input@, *old(pos) as int) && !is_void_name(tag_name(input@, *old(pos) as int))
            && closing_tag_scan(
            input@,
            tag_name(input@, *old(pos) as int),
            tag_end(input@, *old(pos) as int) + 1,
            0,
        ) is None ==> (r is Err && r->Err_0.message@ == "Could not find closing tag for "@
            + tag_name(input@, *old(pos) as int)),
        match elem_spec(input@, *old(pos) as int) {
            Ok((n, q)) => r is Ok && node_view(r->Ok_0) == n && *final(pos) == q,
            Err((p, m)) => r is Err && r->Err_0.position == p && r->Err_0.message@ == m,
        },
    decreases input@.len() - *old(pos), 0nat,
{
    let len = input.len();
    let starting_pos = *pos;
    *pos += 1;
    proof {
        lemma_ws_end(input@, starting_pos + 1);
    }
    skip_whitespace(input, pos);
    if starts_with_at(input, *pos, "/") {
        proof {
            reveal_strlit("/");
        }
        *pos += 1;
        proof {
            lemma_alnum_end(input@, *pos as int);
        }
        let name = grab_alphanum_token(input, pos);
        if is_void_element(name.as_str()) {
            let mut message = string_from("Element <");
            push_str(&mut message, name.as_str());
            push_str(&mut message, "> cannot have a closing tag.");
            return Err(CompilerError { position: *pos, message });
        }
        return Err(error_at(*pos, "Unexpected closing tag"));
    }
    proof {
        lemma_alnum_end(input@, *pos as int);
    }
    let ghost q = starting_pos as int;
    let name = grab_alphanum_token(input, pos);
    let ghost e = *pos as int;
    if name.as_str().unicode_len() == 0 {
        return Err(error_at(*pos, "Expected element name"));
    }
    proof {
        reveal_strlit("script");
        reveal_strlit("style");
        assert("script"@.len() != "style"@.len());
    }
    let children_are_html = !str_eq(name.as_str(), "style") && !str_eq(name.as_str(), "script");
    let (unparsed, no_closer) = scan_open_tag(input, pos);
    let ghost pos1 = *pos as int;
    let attributes = parse_attributes(&unparsed, *pos)?;
    let ghost attrs = attrs_view(attributes@);
    if *pos >= len {
        let mut message = string_from("Expected >. ");
        push_str(&mut message, name.as_str());
        push_str(&mut message, " tag was never closed");
        return Err(CompilerError { position: *pos, message });
    }
    if no_closer {
        *pos += 2;
    } else {
        *pos += 1;
    }
    let opening_tag_end = *pos;
    let mut children: Vec<Node> = Vec::new();
    let mut closing_tag_pos = opening_tag_end;
    proof {
        assert(nodes_view(children@) =~= seq![]);
    }
    if !no_closer && !is_void_element(name.as_str()) {
        let (end_pos, closing) = match find_closing(input, name.as_str(), opening_tag_end) {
            Ok(v) => v,
            Err(e) => {
                assert(elem_closed(input@, name@, opening_tag_end as int, no_closer) is Err);
                return Err(e);
            },
        };
        closing_tag_pos = closing;
        assert(closing_tag_scan(input@, name@, opening_tag_end as int, 0) == Some(
            (end_pos as int, closing as int),
        ));
        if children_are_html {
            children = match parse(input, opening_tag_end, closing) {
                Ok(c) => {
                    assert(parse_spec(input@, opening_tag_end as int, closing as int) == Ok::<
                        Seq<NodeV>,
                        (int, Seq<char>),
                    >(nodes_view(c@)));
                    c
                },
                Err(e) => {
                    assert(parse_spec(input@, opening_tag_end as int, closing as int) == Err::<
                        Seq<NodeV>,
                        (int, Seq<char>),
                    >((e.position as int, e.message@)));
                    assert(elem_closed(input@, name@, opening_tag_end as int, no_closer) == Err::<
                        (Seq<NodeV>, int, int),
                        (int, Seq<char>),
                    >((e.position as int, e.message@)));
                    return Err(e);
                },
            };
        }
        *pos = end_pos + 1;
    }
    assert(elem_closed(input@, name@, opening_tag_end as int, no_closer) == Ok::<
        (Seq<NodeV>, int, int),
        (int, Seq<char>),
    >((nodes_view(children@), closing_tag_pos as int, *pos as int)));
    if str_eq(name.as_str(), "script") {
        let code = string_of_range(input, opening_tag_end, closing_tag_pos);
        return Ok(Node::ScriptTag(ScriptTag { attributes, code }));
    }
    if str_eq(name.as_str(), "style") {
        let text = string_of_range(input, opening_tag_end, closing_tag_pos);
        return match css::parse(text.as_str()) {
            Ok(rules) => Ok(Node::StyleTag(rules)),
            Err(e) => {
                let position = if e.location <= len - opening_tag_end {
                    e.location + opening_tag_end
                } else {
                    len
                };
                let mut message = red("CSS syntax error");
                push_str(&mut message, ": ");
                push_str(&mut message, e.message.as_str());
                Err(CompilerError { position, message })
            },
        };
    }
    if is_uppercase_char(name.as_str().get_char(0)) {
        return Ok(
            Node::ComponentHole {
                name,
                position: starting_pos,
                props: attributes,
                file_contents: string_of(input),
                children: if no_closer {
                    None
                } else {
                    Some(children)
                },
            },
        );
    }
    Ok(Node::Element(element_from(name, attributes, children)))
}

/// Parses a directive block whose text `opening` (after its `{`, with its
/// leading `#`) ended just before `pos`: `#if` and `#for` read up to their
/// matching closer, nested blocks of the same kind included.
fn handle_expression(input: &Vec<char>, pos: &mut usize, opening: &Vec<char>) -> (r: Result<
    Node,
    CompilerError,
>)
    requires
        *old(pos) <= input@.len() < usize::MAX,
    ensures
        r is Ok ==> *old(pos) <= *final(pos) <= input@.len(),
        directive_tokens(opening@, 1, seq![], seq![]) matches Some(ts) ==> (ts.len() >= 2 && ts[0]
            == "if"@ && r is Ok ==> condition_of(r->Ok_0) == Some(join_spaced(ts.drop_first()))),
        directive_tokens(opening@, 1, seq![], seq![]) matches Some(ts) ==> (ts.len() >= 2 && ts[0]
            != "if"@ && ts[0] != "for"@ ==> r is Err),
        match directive_spec(input@, *old(pos) as int, opening@) {
            Ok((n, q)) => r is Ok && node_view(r->Ok_0) == n && *final(pos) == q,
            Err((p, m)) => r is Err && r->Err_0.position == p && r->Err_0.message@ == m,
        },
    decreases input@.len() - *old(pos), 2nat,
{
    let len = input.len();
    let tokens = match tokenize_expression(opening) {
        Some(t) => t,
        None => {
            return Err(error_at(*pos, "Expected }"));
        },
    };
    if tokens.len() < 2 {
        return Err(error_at(*pos, "Expected expression"));
    }
    if str_eq(tokens[0].as_str(), "if") {
        let expression = join_from_index(&tokens, 1);
        proof {
            assert(strings_view(tokens@).subrange(1, tokens@.len() as int) =~= strings_view(
                tokens@,
            ).drop_first());
        }
        let opening_pos = *pos;
        let closing_pos = match search_for_closing(input, Some("{#if"), "{/if}", pos) {
            Some(c) => c,
            None => {
                return Err(error_at(len, "expected {/if}"));
            },
        };
        proof {
            lemma_closer_scan(input@, Some("{#if"@), "{/if}"@, opening_pos as int, 0);
        }
        let children = parse(input, opening_pos, closing_pos)?;
        return Ok(Node::ConditionalElements { condition: expression, children });
    }
    if str_eq(tokens[0].as_str(), "for") {
        if tokens.len() < 4 || !str_eq(tokens[2].as_str(), "in") {
            return Err(error_at(*pos, "Invalid for expression"));
        }
        let iterator_variable = tokens[1].clone();
        let mut iteratable = join_from_index(&tokens, 3);
        let mut reactive_list = false;
        if str_eq(tokens[3].as_str(), "$lstate") {
            reactive_list = true;
            iteratable = join_from_index(&tokens, 4);
        }
        let opening_pos = *pos;
        let closing_pos = match search_for_closing(input, Some("{#for"), "{/for}", pos) {
            Some(c) => c,
            None => {
                return Err(error_at(len, "expected {/for}"));
            },
        };
        proof {
            lemma_closer_scan(input@, Some("{#for"@), "{/for}"@, opening_pos as int, 0);
        }
        let children = parse(input, opening_pos, closing_pos)?;
        return Ok(Node::Loop { iterator_variable, reactive_list, iteratable, children });
    }
    let mut message = string_from("Unknown directive ");
    push_str(&mut message, tokens[0].as_str());
    Err(CompilerError { position: *pos, message })
}

proof fn lemma_closer_scan(
    s: Seq<char>,
    opener: Option<Seq<char>>,
    needle: Seq<char>,
    i: int,
    depth: nat,
)
    requires
        0 <= i,
    ensures
        closer_scan(s, opener, needle, i, depth) matches Some(k) ==> i <= k && k + needle.len()
            <= s.len(),
    decreases s.len() - i,
{
    if 0 <= i < s.len() && !(occurs_at(s, i, needle) && depth == 0) {
        let d1: nat = if occurs_at(s, i, needle) {
            (depth - 1) as nat
        } else {
            depth
        };
        let d2: nat = if opener matches Some(o) && occurs_at(s, i, o) {
            d1 + 1
        } else {
            d1
        };
        lemma_closer_scan(s, opener, needle, i + 1, d2);
    }
}

/// The text of a text node.
pub open spec fn text_of(n: Node) -> Option<Seq<char>> {
    match n {
        Node::Text(t) => Some(t@),
        _ => None,
    }
}

/// The condition of a conditional block.
pub open spec fn condition_of(n: Node) -> Option<Seq<char>> {
    match n {
        Node::ConditionalElements { condition, .. } => Some(condition@),
        _ => None,
    }
}

/// Whether `s[from..to]` holds neither `<` nor `{`: plain text.
pub open spec fn is_plain_text(s: Seq<char>, from: int, to: int) -> bool {
    forall|i: int| from <= i < to ==> s[i] != '<' && s[i] != '{'
}

/// Parses `input[start..end]` into nodes: text runs, elements, brace
/// expressions and directive blocks, in source order.
#[verifier::rlimit(100)]
fn parse(input: &Vec<char>, start: usize, end: usize) -> (r: Result<Vec<Node>, CompilerError>)
    requires
        start <= input@.len() < usize::MAX,
    ensures
        ({
            let stop = if end <= input@.len() {
                end as int
            } else {
                input@.len() as int
            };
            is_plain_text(input@, start as int, stop) ==> if start < stop {
                (r matches Ok(ns) && ns@.len() == 1 && text_of(ns@[0]) == Some(
                    input@.subrange(start as int, stop),
                ))
            } else {
                (r matches Ok(ns) && ns@.len() == 0)
            }
        }),
        start < input@.len() && start < end && occurs_at(input@, start as int, "</"@) ==> (r is Err
            && r->Err_0.message@ == closing_tag_message(input@, start as int)),
        void_then_closing(input@, start as int, end as int) ==> (r is Err && r->Err_0.message@
            == closing_tag_message(input@, tag_end(input@, start as int) + 1)),
        match parse_spec(input@, start as int, end as int) {
            Ok(ns) => r is Ok && nodes_view(r->Ok_0@) == ns,
            Err((p, m)) => r is Err && r->Err_0.position == p && r->Err_0.message@ == m,
        },
    decreases input@.len() - start, 1nat,
{
    let len = input.len();
    let stop = if end <= len {
        end
    } else {
        len
    };
    let ghost plain = is_plain_text(input@, start as int, stop as int);
    proof {
        lemma_ws_end(input@, start + 1);
        lemma_alnum_end(input@, ws_end(input@, start + 1));
    }
    let mut pos = start;
    let mut nodes: Vec<Node> = Vec::new();
    let mut text = String::new();
    proof {
        assert(nodes_view(nodes@) =~= seq![]);
    }
    if stop <= start {
        return Ok(nodes);
    }
    while pos < end && pos < len
        invariant
            len == input@.len() < usize::MAX,
            stop == if end <= len {
                end
            } else {
                len
            },
            plain == is_plain_text(input@, start as int, stop as int),
            start <= pos <= len,
            start < stop,
            occurs_at(input@, start as int, "</"@) ==> pos == start,
            void_then_closing(input@, start as int, end as int) ==> (pos == start || pos == tag_end(
                input@,
                start as int,
            ) + 1),
            parse_run(input@, pos as int, end as int, nodes_view(nodes@), text@) == parse_spec(
                input@,
                start as int,
                end as int,
            ),
            plain ==> pos <= stop && nodes@.len() == 0 && text@ == input@.subrange(
                start as int,
                pos as int,
            ),
        decreases len - pos,
    {
        let ghost p_start = pos as int;
        proof {
            reveal_strlit("<!--");
            reveal_strlit("</");
            reveal_strlit("/");
            if occurs_at(input@, start as int, "</"@) {
                assert(input@.subrange(start as int, start + 2)[1] == input@[start + 1]);
                if occurs_at(input@, p_start, "<!--"@) {
                    assert(input@.subrange(p_start, p_start + 4)[1] == input@[p_start + 1]);
                }
                assert(input@.subrange(start as int, start + 2)[0] == input@[start as int]);
                assert(ws_end(input@, start + 1) == start + 1);
                assert(input@.subrange(start + 1, start + 2) =~= "/"@);
            }
            if void_then_closing(input@, start as int, end as int) {
                let e1 = tag_end(input@, start as int) + 1;
                if p_start == start {
                    lemma_ws_end(input@, start + 1);
                    if ws_end(input@, start + 1) == start + 1 {
                        assert(alnum(input@[start + 1]));
                    } else {
                        assert(is_ws(input@[start + 1]));
                    }
                    if occurs_at(input@, p_start, "<!--"@) {
                        assert(input@.subrange(p_start, p_start + 4)[1] == input@[p_start + 1]);
                    }
                } else {
                    assert(input@.subrange(e1, e1 + 2)[1] == input@[e1 + 1]);
                    assert(input@.subrange(e1, e1 + 2)[0] == input@[e1]);
                    if occurs_at(input@, p_start, "<!--"@) {
                        assert(input@.subrange(p_start, p_start + 4)[1] == input@[p_start + 1]);
                    }
                    assert(ws_end(input@, e1 + 1) == e1 + 1);
                    assert(input@.subrange(e1 + 1, e1 + 2) =~= "/"@);
                }
            }
            if plain {
                assert(input@[p_start] != '<');
                if occurs_at(input@, p_start, "<!--"@) {
                    assert(input@.subrange(p_start, p_start + 4)[0] == input@[p_start]);
                }
            }
        }
        proof {
            lemma_after_comment(input@, p_start);
        }
        let ghost nv0 = nodes_view(nodes@);
        let ghost t0 = text@;
        skip_comments(input, &mut pos);
        let ghost p2 = pos as int;
        if pos >= len {
            assert(parse_run(input@, p_start, end as int, nv0, t0) == Ok::<Seq<NodeV>, (int, Seq<char>)>(flush_text(nv0, t0)));
            assert(parse_run(input@, pos as int, end as int, nv0, t0) == Ok::<Seq<NodeV>, (int, Seq<char>)>(flush_text(nv0, t0)));
            continue;
        }
        let c = input[pos];
        if c == '<' {
            push_text(&mut text, &mut nodes);
            let node = parse_elem(input, &mut pos)?;
            proof {
                lemma_nodes_view_push(nodes@, node);
            }
            nodes.push(node);
            assert(parse_run(input@, p_start, end as int, nv0, t0) == parse_run(
                input@,
                pos as int,
                end as int,
                flush_text(nv0, t0).push(node_view(node)),
                seq![],
            ));
            assert(text@ =~= seq![]);
        } else if c == '{' {
            push_text(&mut text, &mut nodes);
            let at = pos;
            let inner = match curly_inner(input, &mut pos) {
                Some(i) => i,
                None => {
                    return Err(error_at(at, "Expected }"));
                },
            };
            proof {
                lemma_brace_close(input@, at + 1, 1);
            }
            let inner_chars = chars_of(inner.as_str());
            if inner_chars.len() > 0 && inner_chars[0] == '#' {
                let node = handle_expression(input, &mut pos, &inner_chars)?;
                proof {
                    lemma_nodes_view_push(nodes@, node);
                }
                nodes.push(node);
                assert(parse_run(input@, p_start, end as int, nv0, t0) == parse_run(
                    input@,
                    pos as int,
                    end as int,
                    flush_text(nv0, t0).push(node_view(node)),
                    seq![],
                ));
                assert(text@ =~= seq![]);
            } else if inner_chars.len() > 0 && inner_chars[0] == '/' {
                return Err(error_at(at, "Unexpected closing directive"));
            } else {
                let n = Node::ReactiveText(inner);
                proof {
                    lemma_nodes_view_push(nodes@, n);
                }
                nodes.push(n);
                assert(parse_run(input@, p_start, end as int, nv0, t0) == parse_run(
                    input@,
                    pos as int,
                    end as int,
                    flush_text(nv0, t0).push(node_view(n)),
                    seq![],
                ));
                assert(text@ =~= seq![]);
            }
        } else {
            push_char(&mut text, c);
            pos += 1;
            assert(parse_run(input@, p_start, end as int, nv0, t0) == parse_run(
                input@,
                pos as int,
                end as int,
                nv0,
                t0.push(c),
            ));
            proof {
                if plain {
                    assert(input@.subrange(start as int, pos as int) =~= input@.subrange(
                        start as int,
                        p_start,
                    ).push(c));
                }
            }
        }
    }
    push_text(&mut text, &mut nodes);
    Ok(nodes)
}

/// Parses a component's whole source text into a component definition.
pub fn parse_full(input: &str, component_name: &str, dialect: Dialect) -> (r: Result<
    Component,
    CompilerError,
>)
    ensures
        r matches Ok(c) ==> c.name@ == component_name@ && c.dialect == dialect && c.props@.len()
            == 0 && !c.recursive,
        input@.len() >= usize::MAX ==> r is Err,
        input@.len() < usize::MAX ==> match parse_spec(input@, 0, input@.len() as int) {
            Ok(ns) => r is Ok && nodes_view(r->Ok_0.children@) == ns,
            Err((p, m)) => r is Err && r->Err_0.position == p && r->Err_0.message@ == m,
        },
        input@.len() < usize::MAX && occurs_at(input@, 0, "</"@) ==> (r is Err && r->Err_0.message@
            == closing_tag_message(input@, 0)),
        input@.len() < usize::MAX && void_then_closing(input@, 0, input@.len() as int) ==> (r is Err
            && r->Err_0.message@ == closing_tag_message(input@, tag_end(input@, 0) + 1)),
        is_plain_text(input@, 0, input@.len() as int) && 0 < input@.len() < usize::MAX ==> (r matches Ok(c)
            && c.children@.len() == 1 && text_of(c.children@[0]) == Some(input@)),
{
    let chars = chars_of(input);
    if chars.len() == usize::MAX {
        return Err(error_at(0, "The source text is too long."));
    }
    proof {
        reveal_strlit("</");
    }
    let children = parse(&chars, 0, chars.len())?;
    proof {
        assert(chars@.subrange(0, chars@.len() as int) =~= chars@);
    }
    Ok(
        Component {
            name: string_from(component_name),
            dialect,
            props: Vec::new(),
            children,
            recursive: false,
        },
    )
}


/// Where the opening-tag scanner stands: outside a value, inside a quoted
/// value, or inside a braced one.
pub open spec fn ctx_code(c: AttrParsingContext) -> int {
    match c {
        AttrParsingContext::Plain => 0,
        AttrParsingContext::Quotes => 1,
        AttrParsingContext::Curly => 2,
    }
}

/// The words read so far, with the word being read if it is not empty.
pub open spec fn flush_word(us: Seq<Seq<char>>, token: Seq<char>) -> Seq<Seq<char>> {
    if token.len() > 0 {
        us.push(token)
    } else {
        us
    }
}

/// The opening-tag scan from `pos` on: the words of the tag, whether it
/// ends with `/>`, and where the scan stops. `ctx` is 0 outside a value, 1
/// in quotes, 2 in braces (`depth` more braces open).
pub open spec fn open_tag_run(
    s: Seq<char>,
    pos: int,
    ctx: int,
    depth: int,
    token: Seq<char>,
    us: Seq<Seq<char>>,
) -> (Seq<Seq<char>>, bool, int)
    decreases s.len() - pos,
{
    if pos < 0 || pos >= s.len() || (ctx == 0 && s[pos] == '>') {
        (flush_word(us, token), false, pos)
    } else if ctx == 0 {
        let c = s[pos];
        let cut = (is_ws(c) || c == '=') && token.len() > 0;
        let us1 = if cut {
            us.push(token)
        } else {
            us
        };
        let t1 = if cut {
            seq![]
        } else {
            token
        };
        let p2 = ws_end(s, pos);
        if p2 < pos || p2 >= s.len() {
            (flush_word(us1, t1), false, p2)
        } else {
            let c2 = s[p2];
            let ctx2 = if c2 == '"' {
                1
            } else if c2 == '{' {
                2
            } else {
                0
            };
            if c2 == '/' && p2 + 1 < s.len() && s[p2 + 1] == '>' {
                (flush_word(us1, t1), true, p2)
            } else if c2 == '>' {
                (flush_word(us1, t1), false, p2)
            } else if c2 == '=' {
                open_tag_run(s, p2 + 1, ctx2, depth, t1, us1.push("="@))
            } else {
                open_tag_run(s, p2 + 1, ctx2, depth, t1.push(c2), us1)
            }
        }
    } else {
        let c = s[pos];
        let (ctx2, d2) = if ctx == 1 {
            if c == '"' {
                (0int, depth)
            } else {
                (1int, depth)
            }
        } else if c == '}' {
            if depth == 0 {
                (0int, depth)
            } else {
                (2int, depth - 1)
            }
        } else if c == '{' {
            (2int, depth + 1)
        } else {
            (2int, depth)
        };
        open_tag_run(s, pos + 1, ctx2, d2, token.push(c), us)
    }
}

/// The first attribute of `a[i..]` named `name`.
pub open spec fn find_from(a: Seq<AttributeV>, name: Seq<char>, i: int) -> Option<int>
    decreases a.len() - i,
{
    if i < 0 || i >= a.len() {
        None
    } else if a[i].name() == name {
        Some(i)
    } else {
        find_from(a, name, i + 1)
    }
}

/// The id that an `id` attribute gives.
pub open spec fn id_of(a: AttributeV) -> Option<IdV> {
    match a {
        AttributeV::Static(_, Some(v)) => Some(IdV::Static(v)),
        AttributeV::Static(_, None) => None,
        AttributeV::Reactive(_, v) => Some(IdV::Reactive(v)),
    }
}

/// The class list that a `class` attribute gives.
pub open spec fn classes_of(a: AttributeV) -> Option<ClassListV> {
    match a {
        AttributeV::Static(_, Some(v)) => Some(ClassListV::Static(words_from(v, 0, seq![], seq![]))),
        AttributeV::Static(_, None) => None,
        AttributeV::Reactive(_, v) => Some(ClassListV::Reactive(v)),
    }
}

/// The element named `name` with attributes `attrs` and `children`: its
/// first `id` and `class` attributes give its id and class list.
pub open spec fn element_v(name: Seq<char>, attrs: Seq<AttributeV>, children: Seq<NodeV>) -> NodeV {
    NodeV::Element {
        name,
        id: match find_from(attrs, "id"@, 0) {
            Some(i) => id_of(attrs[i]),
            None => None,
        },
        classes: match find_from(attrs, "class"@, 0) {
            Some(i) => classes_of(attrs[i]),
            None => None,
        },
        attributes: plain_attrs(attrs),
        children,
    }
}

/// The nodes read so far, with the pending text run as a text node.
pub open spec fn flush_text(nodes: Seq<NodeV>, text: Seq<char>) -> Seq<NodeV> {
    if text.len() > 0 {
        nodes.push(NodeV::Text(text))
    } else {
        nodes
    }
}

pub open spec fn no_pos() -> (int, Seq<char>) {
    (0, seq![])
}

/// The nodes of `s[start..end]`, or the first error with its position.
pub open spec fn parse_spec(s: Seq<char>, start: int, end: int) -> Result<Seq<NodeV>, (int, Seq<char>)>
    decreases s.len() - start, 2nat,
{
    parse_run(s, start, end, seq![], seq![])
}

/// The parse of `s[pos..end]` after the nodes `nodes` and the text run `text`.
pub open spec fn parse_run(
    s: Seq<char>,
    pos: int,
    end: int,
    nodes: Seq<NodeV>,
    text: Seq<char>,
) -> Result<Seq<NodeV>, (int, Seq<char>)>
    decreases s.len() - pos, 1nat,
{
    if pos < 0 || pos >= end || pos >= s.len() {
        Ok(flush_text(nodes, text))
    } else {
        let p2 = after_comment(s, pos);
        if p2 < pos {
            Err(no_pos())
        } else if p2 >= s.len() {
            Ok(flush_text(nodes, text))
        } else if s[p2] == '<' {
            match elem_spec(s, p2) {
                Err(e) => Err(e),
                Ok((n, q)) => if q <= p2 || q > s.len() {
                    Err(no_pos())
                } else {
                    parse_run(s, q, end, flush_text(nodes, text).push(n), seq![])
                },
            }
        } else if s[p2] == '{' {
            match brace_close(s, p2 + 1, 1) {
                None => Err((p2, "Expected }"@)),
                Some(k) => if k < p2 + 1 || k >= s.len() {
                    Err(no_pos())
                } else {
                    let inner = s.subrange(p2 + 1, k);
                    if inner.len() > 0 && inner[0] == '#' {
                        match directive_spec(s, k + 1, inner) {
                            Err(e) => Err(e),
                            Ok((n, q)) => if q < k + 1 || q > s.len() {
                                Err(no_pos())
                            } else {
                                parse_run(s, q, end, flush_text(nodes, text).push(n), seq![])
                            },
                        }
                    } else if inner.len() > 0 && inner[0] == '/' {
                        Err((p2, "Unexpected closing directive"@))
                    } else {
                        parse_run(
                            s,
                            k + 1,
                            end,
                            flush_text(nodes, text).push(NodeV::ReactiveText(inner)),
                            seq![],
                        )
                    }
                },
            }
        } else {
            parse_run(s, p2 + 1, end, nodes, text.push(s[p2]))
        }
    }
}

/// The children of an element named `name` whose opening tag ends at `ote`,
/// where its closing tag starts, and where the element ends.
pub open spec fn elem_closed(s: Seq<char>, name: Seq<char>, ote: int, no_closer: bool) -> Result<
    (Seq<NodeV>, int, int),
    (int, Seq<char>),
>
    decreases s.len() - ote, 3nat,
{
    if !no_closer && !is_void_name(name) {
        match closing_tag_scan(s, name, ote, 0) {
            None => Err((s.len() as int, "Could not find closing tag for "@ + name)),
            Some((gt, lt)) => if name != "style"@ && name != "script"@ {
                match parse_spec(s, ote, lt) {
                    Err(e) => Err(e),
                    Ok(ch) => Ok((ch, lt, gt + 1)),
                }
            } else {
                Ok((seq![], lt, gt + 1))
            },
        }
    } else {
        Ok((seq![], ote, ote))
    }
}

/// The node of the element whose `<` is at `p`, and where it ends; or the
/// error, with its position.
pub open spec fn elem_spec(s: Seq<char>, p: int) -> Result<(NodeV, int), (int, Seq<char>)>
    decreases s.len() - p, 0nat,
{
    if p < 0 || p >= s.len() {
        Err(no_pos())
    } else {
        let q = ws_end(s, p + 1);
        if occurs_at(s, q, "/"@) {
            Err((alnum_end(s, q + 1), closing_tag_message(s, p)))
        } else {
            let e = alnum_end(s, q);
            let name = s.subrange(q, e);
            if name.len() == 0 {
                Err((e, "Expected element name"@))
            } else {
                let (us, no_closer, pos1) = open_tag_run(s, e, 0, 0, seq![], seq![]);
                match attrs_from(us, 0, seq![]) {
                    Err(m) => Err((pos1, m)),
                    Ok(attrs) => if pos1 >= s.len() {
                        Err((pos1, "Expected >. "@ + name + " tag was never closed"@))
                    } else {
                        let ote = if no_closer {
                            pos1 + 2
                        } else {
                            pos1 + 1
                        };
                        if ote <= p || ote > s.len() {
                            Err(no_pos())
                        } else {
                            let closed = elem_closed(s, name, ote, no_closer);
                            match closed {
                                Err(e) => Err(e),
                                Ok((children, closing, endpos)) => if name == "script"@ {
                                    Ok(
                                        (
                                            NodeV::Script {
                                                attributes: attrs,
                                                code: s.subrange(ote, closing),
                                            },
                                            endpos,
                                        ),
                                    )
                                } else if name == "style"@ {
                                    match stylesheet_of(s.subrange(ote, closing)) {
                                        Ok(rules) => Ok((NodeV::Style(rules), endpos)),
                                        Err((l, m)) => Err(
                                            (
                                                if l <= s.len() - ote {
                                                    l + ote
                                                } else {
                                                    s.len() as int
                                                },
                                                "\x1b[31m"@ + "CSS syntax error"@ + "\x1b[39m"@
                                                    + ": "@ + m,
                                            ),
                                        ),
                                    }
                                } else if upper(name[0]) {
                                    Ok(
                                        (
                                            NodeV::Hole {
                                                name,
                                                position: p as usize,
                                                props: attrs,
                                                file_contents: s,
                                                slot: if no_closer {
                                                    None
                                                } else {
                                                    Some(children)
                                                },
                                            },
                                            endpos,
                                        ),
                                    )
                                } else {
                                    Ok((element_v(name, attrs, children), endpos))
                                },
                            }
                        }
                    },
                }
            }
        }
    }
}

/// The node of the directive block whose text `opening` ended just before
/// `p`, and where it ends; or the error, with its position.
pub open spec fn directive_spec(s: Seq<char>, p: int, opening: Seq<char>) -> Result<
    (NodeV, int),
    (int, Seq<char>),
>
    decreases s.len() - p, 3nat,
{
    match directive_tokens(opening, 1, seq![], seq![]) {
        None => Err((p, "Expected }"@)),
        Some(ts) => if ts.len() < 2 {
            Err((p, "Expected expression"@))
        } else if ts[0] == "if"@ {
            match closer_scan(s, Some("{#if"@), "{/if}"@, p, 0) {
                None => Err((s.len() as int, "expected {/if}"@)),
                Some(c) => match parse_spec(s, p, c) {
                    Err(e) => Err(e),
                    Ok(children) => Ok(
                        (
                            NodeV::Conditional { condition: join_spaced(ts.drop_first()), children },
                            c + "{/if}"@.len(),
                        ),
                    ),
                },
            }
        } else if ts[0] == "for"@ {
            if ts.len() < 4 || ts[2] != "in"@ {
                Err((p, "Invalid for expression"@))
            } else {
                let reactive = ts[3] == "$lstate"@;
                let iteratable = if reactive {
                    join_spaced(ts.subrange(4, ts.len() as int))
                } else {
                    join_spaced(ts.subrange(3, ts.len() as int))
                };
                match closer_scan(s, Some("{#for"@), "{/for}"@, p, 0) {
                    None => Err((s.len() as int, "expected {/for}"@)),
                    Some(c) => match parse_spec(s, p, c) {
                        Err(e) => Err(e),
                        Ok(children) => Ok(
                            (
                                NodeV::Loop {
                                    iterator_variable: ts[1],
                                    iteratable,
                                    reactive_list: reactive,
                                    children,
                                },
                                c + "{/for}"@.len(),
                            ),
                        ),
                    },
                }
            }
        } else {
            Err((p, "Unknown directive "@ + ts[0]))
        },
    }
}

} // verus!
