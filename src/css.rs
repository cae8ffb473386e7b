//! The stylesheet parser: rules made of a selector and a list of properties.
use vstd::prelude::*;
use crate::text::{chars_of, is_whitespace_char, is_ws, str_eq, string_from, string_of_range};

verus! {

pub type StyleSheet = Vec<Rule>;

pub struct Rule {
    pub selector: Selector,
    pub properties: Vec<Property>,
}

#[derive(Clone, Debug)]
pub struct Property {
    pub name: String,
    pub value: Vec<String>,
}

pub enum Selector {
    Empty,
    Tag(String),
    Class(String),
    ID(String),
    Pseduo(String),
    Descendant(Box<Selector>, Box<Selector>),
    Child(Box<Selector>, Box<Selector>),
    NextSibling(Box<Selector>, Box<Selector>),
    All,
}

/// A selector with its names as character sequences.
pub enum SelectorV {
    Empty,
    Tag(Seq<char>),
    Class(Seq<char>),
    ID(Seq<char>),
    Pseudo(Seq<char>),
    Descendant(Box<SelectorV>, Box<SelectorV>),
    Child(Box<SelectorV>, Box<SelectorV>),
    NextSibling(Box<SelectorV>, Box<SelectorV>),
    All,
}

pub struct PropertyV {
    pub name: Seq<char>,
    pub value: Seq<Seq<char>>,
}

pub struct RuleV {
    pub selector: SelectorV,
    pub properties: Seq<PropertyV>,
}

impl Selector {
    pub open spec fn view(&self) -> SelectorV
        decreases self,
    {
        match self {
            Selector::Empty => SelectorV::Empty,
            Selector::Tag(t) => SelectorV::Tag(t@),
            Selector::Class(t) => SelectorV::Class(t@),
            Selector::ID(t) => SelectorV::ID(t@),
            Selector::Pseduo(t) => SelectorV::Pseudo(t@),
            Selector::Descendant(a, b) => SelectorV::Descendant(
                Box::new(a.view()),
                Box::new(b.view()),
            ),
            Selector::Child(a, b) => SelectorV::Child(Box::new(a.view()), Box::new(b.view())),
            Selector::NextSibling(a, b) => SelectorV::NextSibling(
                Box::new(a.view()),
                Box::new(b.view()),
            ),
            Selector::All => SelectorV::All,
        }
    }

    /// Whether the selector is a lone class selector naming one of `classes`.
    pub fn matches_classes(&self, classes: &Vec<String>) -> (r: bool)
        ensures
            r == (self is Class && exists|i: int|
                0 <= i < classes@.len() && #[trigger] classes@[i]@ == self->Class_0@),
    {
        match self {
            Selector::Class(s) => {
                let mut i: usize = 0;
                while i < classes.len()
                    invariant
                        i <= classes@.len(),
                        self is Class && self->Class_0@ == s@,
                        forall|j: int| 0 <= j < i ==> #[trigger] classes@[j]@ != s@,
                    decreases classes@.len() - i,
                {
                    if str_eq(classes[i].as_str(), s.as_str()) {
                        assert(classes@[i as int]@ == s@);
                        return true;
                    }
                    i += 1;
                }
                false
            },
            _ => false,
        }
    }
}

pub open spec fn property_view(p: Property) -> PropertyV {
    PropertyV { name: p.name@, value: p.value@.map_values(|v: String| v@) }
}

pub open spec fn rule_view(r: Rule) -> RuleV {
    RuleV { selector: r.selector.view(), properties: r.properties@.map_values(|p| property_view(p)) }
}

pub open spec fn sheet_view(ss: Seq<Rule>) -> Seq<RuleV> {
    ss.map_values(|r| rule_view(r))
}

impl Rule {
    /// Whether the rule's selector is a lone class selector naming one of `classes`.
    pub fn matches_classes(&self, classes: &Vec<String>) -> (r: bool)
        ensures
            r == (self.selector is Class && exists|i: int|
                0 <= i < classes@.len() && #[trigger] classes@[i]@ == self.selector->Class_0@),
    {
        self.selector.matches_classes(classes)
    }
}

#[derive(Clone, Debug)]
pub struct CSSParseError {
    pub location: usize,
    pub message: String,
}

pub enum Token {
    Identifier(String),
    Str(String),
    Colon,
    Semicolon,
    OpenBrace,
    CloseBrace,
}

pub enum TokenV {
    Identifier(Seq<char>),
    Str(Seq<char>),
    Colon,
    Semicolon,
    OpenBrace,
    CloseBrace,
}

impl Token {
    pub open spec fn view(&self) -> TokenV {
        match self {
            Token::Identifier(s) => TokenV::Identifier(s@),
            Token::Str(s) => TokenV::Str(s@),
            Token::Colon => TokenV::Colon,
            Token::Semicolon => TokenV::Semicolon,
            Token::OpenBrace => TokenV::OpenBrace,
            Token::CloseBrace => TokenV::CloseBrace,
        }
    }
}

pub open spec fn tokens_view(ts: Seq<Token>) -> Seq<TokenV> {
    ts.map_values(|t: Token| t.view())
}

/// Characters that can be part of a bare word.
pub open spec fn is_id_char(c: char) -> bool {
    !is_ws(c) && c != '"' && c != ':' && c != ';' && c != '{' && c != '}'
}

fn id_char(c: char) -> (r: bool)
    ensures
        r == is_id_char(c),
{
    !is_whitespace_char(c) && c != '"' && c != ':' && c != ';' && c != '{' && c != '}'
}

/// Skips white space and `/* ... */` comments from `i` on; `None` when a
/// comment is never closed.
pub open spec fn css_skip(s: Seq<char>, i: int, in_comment: bool) -> Option<int>
    decreases s.len() - i,
{
    if i < 0 || i >= s.len() {
        if in_comment {
            None
        } else {
            Some(i)
        }
    } else if in_comment {
        if i + 1 < s.len() && s[i] == '*' && s[i + 1] == '/' {
            css_skip(s, i + 2, false)
        } else {
            css_skip(s, i + 1, true)
        }
    } else if i + 1 < s.len() && s[i] == '/' && s[i + 1] == '*' {
        css_skip(s, i + 2, true)
    } else if is_ws(s[i]) {
        css_skip(s, i + 1, false)
    } else {
        Some(i)
    }
}

/// The position after the quote that ends a string whose body starts at `i`.
pub open spec fn str_close(s: Seq<char>, i: int, escaped: bool) -> Option<int>
    decreases s.len() - i,
{
    if i < 0 || i >= s.len() {
        None
    } else if !escaped && s[i] == '\\' {
        str_close(s, i + 1, true)
    } else if escaped {
        str_close(s, i + 1, false)
    } else if s[i] == '"' {
        Some(i + 1)
    } else {
        str_close(s, i + 1, false)
    }
}

/// The end of the bare word that starts at `i`.
pub open spec fn id_end(s: Seq<char>, i: int) -> int
    decreases s.len() - i,
{
    if 0 <= i < s.len() && is_id_char(s[i]) {
        id_end(s, i + 1)
    } else {
        i
    }
}

/// The token that starts at `p` after white space and comments, with the
/// position after it; no token at the end of the input, with the position
/// that scanning stopped at.
pub open spec fn css_next(s: Seq<char>, p: int) -> Result<(Option<TokenV>, int), (int, Seq<char>)> {
    match css_skip(s, p, false) {
        None => Err((s.len() as int, "Unterminated comment"@)),
        Some(q) => if q >= s.len() {
            Ok((None, q))
        } else if s[q] == '{' {
            Ok((Some(TokenV::OpenBrace), q + 1))
        } else if s[q] == '}' {
            Ok((Some(TokenV::CloseBrace), q + 1))
        } else if s[q] == ':' {
            Ok((Some(TokenV::Colon), q + 1))
        } else if s[q] == ';' {
            Ok((Some(TokenV::Semicolon), q + 1))
        } else if s[q] == '"' {
            match str_close(s, q + 1, false) {
                Some(e) => Ok((Some(TokenV::Str(s.subrange(q, e))), e)),
                None => Err((s.len() as int, "Unterminated string"@)),
            }
        } else {
            let e = id_end(s, q);
            if e > q {
                Ok((Some(TokenV::Identifier(s.subrange(q, e))), e))
            } else {
                Ok((None, q))
            }
        },
    }
}

proof fn lemma_css_skip(s: Seq<char>, i: int, c: bool)
    requires
        0 <= i <= s.len(),
    ensures
        css_skip(s, i, c) matches Some(q) ==> i <= q <= s.len(),
    decreases s.len() - i,
{
    if i < s.len() {
        if c {
            if i + 1 < s.len() && s[i] == '*' && s[i + 1] == '/' {
                lemma_css_skip(s, i + 2, false);
            } else {
                lemma_css_skip(s, i + 1, true);
            }
        } else if i + 1 < s.len() && s[i] == '/' && s[i + 1] == '*' {
            lemma_css_skip(s, i + 2, true);
        } else if is_ws(s[i]) {
            lemma_css_skip(s, i + 1, false);
        }
    }
}

proof fn lemma_str_close(s: Seq<char>, i: int, e: bool)
    requires
        0 <= i,
    ensures
        str_close(s, i, e) matches Some(k) ==> i < k <= s.len(),
    decreases s.len() - i,
{
    if 0 <= i < s.len() {
        if !e && s[i] == '\\' {
            lemma_str_close(s, i + 1, true);
        } else if e {
            lemma_str_close(s, i + 1, false);
        } else if s[i] != '"' {
            lemma_str_close(s, i + 1, false);
        }
    }
}

proof fn lemma_id_end(s: Seq<char>, i: int)
    requires
        0 <= i <= s.len(),
    ensures
        i <= id_end(s, i) <= s.len(),
    decreases s.len() - i,
{
    if i < s.len() && is_id_char(s[i]) {
        lemma_id_end(s, i + 1);
    }
}

/// A token always lies after the position it is looked for at.
pub proof fn lemma_css_next(s: Seq<char>, p: int)
    requires
        0 <= p <= s.len(),
    ensures
        css_next(s, p) matches Ok((t, e)) ==> (t is Some ==> p < e) && p <= e <= s.len(),
{
    lemma_css_skip(s, p, false);
    if let Some(q) = css_skip(s, p, false) {
        if q < s.len() {
            lemma_str_close(s, q + 1, false);
            lemma_id_end(s, q);
        }
    }
}

/// Moves `pos` past white space and comments.
fn skip_whitespace_and_commnets(input: &Vec<char>, pos: &mut usize) -> (r: Result<(), CSSParseError>)
    requires
        *old(pos) <= input@.len(),
    ensures
        match css_skip(input@, *old(pos) as int, false) {
            Some(q) => r is Ok && *final(pos) == q,
            None => r matches Err(e) && e.location == input@.len() && e.message@
                == "Unterminated comment"@,
        },
{
    let len = input.len();
    let mut in_comment = false;
    let ghost start = *pos as int;
    while *pos < len
        invariant
            *pos <= len == input@.len(),
            start == *old(pos),
            css_skip(input@, *pos as int, in_comment) == css_skip(input@, start, false),
        decreases len - *pos,
    {
        let two = *pos + 1 < len;
        if in_comment {
            if two && input[*pos] == '*' && input[*pos + 1] == '/' {
                in_comment = false;
                *pos += 2;
            } else {
                *pos += 1;
            }
        } else if two && input[*pos] == '/' && input[*pos + 1] == '*' {
            in_comment = true;
            *pos += 2;
        } else if is_whitespace_char(input[*pos]) {
            *pos += 1;
        } else {
            return Ok(());
        }
    }
    if in_comment {
        Err(CSSParseError { location: len, message: string_from("Unterminated comment") })
    } else {
        Ok(())
    }
}

/// Reads the next token and moves `pos` past it.
fn next_token(input: &Vec<char>, pos: &mut usize) -> (r: Result<Option<Token>, CSSParseError>)
    requires
        *old(pos) <= input@.len(),
    ensures
        match css_next(input@, *old(pos) as int) {
            Ok((None, e)) => r matches Ok(None) && *final(pos) == e,
            Ok((Some(t), e)) => r matches Ok(Some(tok)) && tok.view() == t && *final(pos) == e,
            Err((l, m)) => r matches Err(err) && err.location == l && err.message@ == m,
        },
{
    let ghost p_start = *pos as int;
    let len = input.len();
    skip_whitespace_and_commnets(input, pos)?;
    proof {
        lemma_css_skip(input@, p_start, false);
    }
    if *pos >= len {
        return Ok(None);
    }
    let start = *pos;
    let c = input[*pos];
    if c == '{' {
        *pos += 1;
        return Ok(Some(Token::OpenBrace));
    }
    if c == '}' {
        *pos += 1;
        return Ok(Some(Token::CloseBrace));
    }
    if c == ':' {
        *pos += 1;
        return Ok(Some(Token::Colon));
    }
    if c == ';' {
        *pos += 1;
        return Ok(Some(Token::Semicolon));
    }
    if c == '"' {
        *pos += 1;
        let mut escaped = false;
        while *pos < len
            invariant
                start < *pos <= len == input@.len(),
                css_skip(input@, p_start, false) == Some(start as int),
                input@[start as int] == '"',
                p_start == *old(pos),
                str_close(input@, *pos as int, escaped) == str_close(input@, start + 1, false),
            decreases len - *pos,
        {
            let c = input[*pos];
            if !escaped && c == '\\' {
                escaped = true;
            } else if escaped {
                escaped = false;
            } else if c == '"' {
                *pos += 1;
                return Ok(Some(Token::Str(string_of_range(input, start, *pos))));
            }
            *pos += 1;
        }
        return Err(CSSParseError { location: *pos, message: string_from("Unterminated string") });
    }
    while *pos < len && id_char(input[*pos])
        invariant
            start <= *pos <= len == input@.len(),
            id_end(input@, *pos as int) == id_end(input@, start as int),
        decreases len - *pos,
    {
        *pos += 1;
    }
    if *pos > start {
        return Ok(Some(Token::Identifier(string_of_range(input, start, *pos))));
    }
    Ok(None)
}

/// Folds colons into the bare word that follows them: one colon makes a
/// pseudo-class word `:x`, two make `::x`.
pub open spec fn join_from(ts: Seq<TokenV>, i: int, colons: nat, acc: Seq<TokenV>) -> Result<
    Seq<TokenV>,
    Seq<char>,
>
    decreases ts.len() - i,
{
    if i < 0 || i >= ts.len() {
        Ok(acc)
    } else if ts[i] is Colon {
        join_from(ts, i + 1, colons + 1, acc)
    } else if colons == 0 {
        join_from(ts, i + 1, 0, acc.push(ts[i]))
    } else {
        match ts[i] {
            TokenV::Identifier(w) => if colons == 1 {
                join_from(ts, i + 1, 0, acc.push(TokenV::Identifier(":"@ + w)))
            } else if colons == 2 {
                join_from(ts, i + 1, 0, acc.push(TokenV::Identifier("::"@ + w)))
            } else {
                Err("Too many colons"@)
            },
            _ => Err("Unexpected token after colon"@),
        }
    }
}

fn join_colons(s: &Vec<Token>) -> (r: Result<Vec<Token>, String>)
    ensures
        match join_from(tokens_view(s@), 0, 0, seq![]) {
            Ok(ts) => r matches Ok(v) && tokens_view(v@) == ts,
            Err(m) => r matches Err(e) && e@ == m,
        },
{
    let mut tokens: Vec<Token> = Vec::new();
    let mut colons: usize = 0;
    let mut i: usize = 0;
    assert(tokens_view(tokens@) =~= seq![]);
    while i < s.len()
        invariant
            i <= s@.len(),
            colons <= i,
            join_from(tokens_view(s@), i as int, colons as nat, tokens_view(tokens@)) == join_from(
                tokens_view(s@),
                0,
                0,
                seq![],
            ),
        decreases s@.len() - i,
    {
        let ghost before = tokens@;
        match &s[i] {
            Token::Colon => {
                colons += 1;
            },
            t => {
                if colons == 0 {
                    tokens.push(copy_token(t));
                    assert(tokens_view(tokens@) == tokens_view(before).push(s@[i as int].view()));
                } else {
                    match t {
                        Token::Identifier(w) => {
                            if colons == 1 {
                                let mut j = string_from(":");
                                j.append(w.as_str());
                                tokens.push(Token::Identifier(j));
                            } else if colons == 2 {
                                let mut j = string_from("::");
                                j.append(w.as_str());
                                tokens.push(Token::Identifier(j));
                            } else {
                                return Err(string_from("Too many colons"));
                            }
                            assert(tokens_view(tokens@) == tokens_view(before).push(
                                tokens@.last().view(),
                            ));
                        },
                        _ => {
                            return Err(string_from("Unexpected token after colon"));
                        },
                    }
                    colons = 0;
                }
            },
        }
        i += 1;
    }
    Ok(tokens)
}

fn copy_token(t: &Token) -> (r: Token)
    ensures
        r.view() == t.view(),
{
    match t {
        Token::Identifier(w) => Token::Identifier(w.clone()),
        Token::Str(w) => Token::Str(w.clone()),
        Token::Colon => Token::Colon,
        Token::Semicolon => Token::Semicolon,
        Token::OpenBrace => Token::OpenBrace,
        Token::CloseBrace => Token::CloseBrace,
    }
}

/// The simple selector that one word stands for.
pub open spec fn simple_selector(t: TokenV) -> Result<SelectorV, Seq<char>> {
    match t {
        TokenV::Identifier(w) => if w == "*"@ {
            Ok(SelectorV::All)
        } else if w.len() > 0 && w[0] == '#' {
            if w.len() < 2 {
                Err("Empty ID name."@)
            } else {
                Ok(SelectorV::ID(w.drop_first()))
            }
        } else if w.len() > 0 && w[0] == '.' {
            if w.len() < 2 {
                Err("Empty Class name."@)
            } else {
                Ok(SelectorV::Class(w.drop_first()))
            }
        } else if w.len() > 0 && w[0] == ':' {
            if w.len() < 2 {
                Err("Empty Pseudo name."@)
            } else {
                Ok(SelectorV::Pseudo(w.drop_first()))
            }
        } else {
            Ok(SelectorV::Tag(w))
        },
        _ => Err("Expected selector"@),
    }
}

/// The selector written by the words `ts[i..]`: the first word, then a
/// combinator (`>` child, `+` next sibling, nothing for a descendant) and
/// the selector written by the rest.
pub open spec fn compound_selector(ts: Seq<TokenV>, i: int) -> Result<SelectorV, Seq<char>>
    decreases ts.len() - i,
{
    if i < 0 || i >= ts.len() {
        Err("Expected selector"@)
    } else if i + 1 == ts.len() {
        simple_selector(ts[i])
    } else {
        match simple_selector(ts[i]) {
            Err(m) => Err(m),
            Ok(a) => if ts[i + 1] == TokenV::Identifier(">"@) {
                match compound_selector(ts, i + 2) {
                    Ok(b) => Ok(SelectorV::Child(Box::new(a), Box::new(b))),
                    Err(m) => Err(m),
                }
            } else if ts[i + 1] == TokenV::Identifier("+"@) {
                match compound_selector(ts, i + 2) {
                    Ok(b) => Ok(SelectorV::NextSibling(Box::new(a), Box::new(b))),
                    Err(m) => Err(m),
                }
            } else {
                match compound_selector(ts, i + 1) {
                    Ok(b) => Ok(SelectorV::Descendant(Box::new(a), Box::new(b))),
                    Err(m) => Err(m),
                }
            },
        }
    }
}

/// The selector written by a rule's selector tokens.
pub open spec fn selector_of(ts: Seq<TokenV>) -> Result<SelectorV, Seq<char>> {
    match join_from(ts, 0, 0, seq![]) {
        Ok(j) => compound_selector(j, 0),
        Err(m) => Err(m),
    }
}

fn word_tail(w: &String) -> (r: String)
    requires
        w@.len() >= 1,
    ensures
        r@ == w@.drop_first(),
{
    let n = w.as_str().unicode_len();
    String::from_str(w.as_str().substring_char(1, n))
}

fn parse_simple(t: &Token) -> (r: Result<Selector, String>)
    ensures
        match simple_selector(t.view()) {
            Ok(sel) => r matches Ok(x) && x.view() == sel,
            Err(m) => r matches Err(e) && e@ == m,
        },
{
    match t {
        Token::Identifier(w) => {
            let n = w.as_str().unicode_len();
            if str_eq(w.as_str(), "*") {
                return Ok(Selector::All);
            }
            if n > 0 && w.as_str().get_char(0) == '#' {
                if n < 2 {
                    return Err(string_from("Empty ID name."));
                }
                return Ok(Selector::ID(word_tail(w)));
            }
            if n > 0 && w.as_str().get_char(0) == '.' {
                if n < 2 {
                    return Err(string_from("Empty Class name."));
                }
                return Ok(Selector::Class(word_tail(w)));
            }
            if n > 0 && w.as_str().get_char(0) == ':' {
                if n < 2 {
                    return Err(string_from("Empty Pseudo name."));
                }
                return Ok(Selector::Pseduo(word_tail(w)));
            }
            Ok(Selector::Tag(w.clone()))
        },
        _ => Err(string_from("Expected selector")),
    }
}

fn is_word(t: &Token, w: &str) -> (r: bool)
    ensures
        r == (t.view() == TokenV::Identifier(w@)),
{
    match t {
        Token::Identifier(x) => str_eq(x.as_str(), w),
        _ => false,
    }
}

fn parse_compound(ts: &Vec<Token>, i: usize) -> (r: Result<Selector, String>)
    ensures
        match compound_selector(tokens_view(ts@), i as int) {
            Ok(sel) => r matches Ok(x) && x.view() == sel,
            Err(m) => r matches Err(e) && e@ == m,
        },
    decreases ts@.len() - i,
{
    let ghost tv = tokens_view(ts@);
    if i >= ts.len() {
        return Err(string_from("Expected selector"));
    }
    if i + 1 == ts.len() {
        return parse_simple(&ts[i]);
    }
    let a = parse_simple(&ts[i])?;
    if is_word(&ts[i + 1], ">") {
        let b = parse_compound(ts, i + 2)?;
        return Ok(Selector::Child(Box::new(a), Box::new(b)));
    }
    if is_word(&ts[i + 1], "+") {
        let b = parse_compound(ts, i + 2)?;
        return Ok(Selector::NextSibling(Box::new(a), Box::new(b)));
    }
    let b = parse_compound(ts, i + 1)?;
    Ok(Selector::Descendant(Box::new(a), Box::new(b)))
}

fn parse_selector(s: &Vec<Token>, pos: usize) -> (r: Result<Selector, CSSParseError>)
    ensures
        match selector_of(tokens_view(s@)) {
            Ok(sel) => r matches Ok(x) && x.view() == sel,
            Err(m) => r matches Err(e) && e.location == pos && e.message@ == m,
        },
{
    match join_colons(s) {
        Err(m) => Err(CSSParseError { location: pos, message: m }),
        Ok(joined) => match parse_compound(&joined, 0) {
            Ok(sel) => Ok(sel),
            Err(m) => Err(CSSParseError { location: pos, message: m }),
        },
    }
}

/// Where the parser stands between tokens.
#[derive(PartialEq, Eq, Structural, Clone, Copy)]
pub enum ParsingContext {
    Selector,
    PropertyName,
    AwaitingColon,
    PropertyValue,
}

/// What the parser holds between tokens: the rules done, the rule and the
/// property being read, and the selector tokens not yet parsed.
pub struct CssRun {
    pub mode: ParsingContext,
    pub rules: Seq<RuleV>,
    pub selector: SelectorV,
    pub props: Seq<PropertyV>,
    pub name: Seq<char>,
    pub value: Seq<Seq<char>>,
    pub sel_tokens: Seq<TokenV>,
}

/// The stylesheet read from position `p` on, in state `st`; or the error,
/// with its location and message.
pub open spec fn css_run(s: Seq<char>, p: int, st: CssRun) -> Result<Seq<RuleV>, (int, Seq<char>)>
    decreases s.len() - p,
    via css_run_decreases
{
    if p < 0 || p > s.len() {
        Ok(st.rules)
    } else {
        match css_next(s, p) {
            Err(e) => Err(e),
            Ok((None, q)) => if st.mode == ParsingContext::Selector {
                Ok(st.rules)
            } else {
                Err((q, "Unbalanced curly braces"@))
            },
            Ok((Some(t), e)) => if st.mode == ParsingContext::AwaitingColon {
                if t != TokenV::Colon {
                    Err((e, "Expected colon"@))
                } else {
                    css_run(s, e, CssRun { mode: ParsingContext::PropertyValue, ..st })
                }
            } else {
                match t {
                    TokenV::OpenBrace => if st.mode != ParsingContext::Selector {
                        Err((e, "Unexpected \"{\""@))
                    } else {
                        match selector_of(st.sel_tokens) {
                            Err(m) => Err((e, m)),
                            Ok(sel) => css_run(
                                s,
                                e,
                                CssRun {
                                    mode: ParsingContext::PropertyName,
                                    selector: sel,
                                    sel_tokens: seq![],
                                    ..st
                                },
                            ),
                        }
                    },
                    TokenV::CloseBrace => if st.mode != ParsingContext::PropertyName {
                        Err((e, "Unexpected \"}.\""@))
                    } else {
                        css_run(
                            s,
                            e,
                            CssRun {
                                mode: ParsingContext::Selector,
                                rules: st.rules.push(
                                    RuleV { selector: st.selector, properties: st.props },
                                ),
                                selector: SelectorV::Empty,
                                props: seq![],
                                ..st
                            },
                        )
                    },
                    TokenV::Colon => if st.mode != ParsingContext::Selector {
                        Err((e, "Unexpected \":\""@))
                    } else {
                        css_run(s, e, CssRun { sel_tokens: st.sel_tokens.push(t), ..st })
                    },
                    TokenV::Semicolon => if st.mode != ParsingContext::PropertyValue {
                        Err((e, "Unexpected \";\""@))
                    } else {
                        css_run(
                            s,
                            e,
                            CssRun {
                                mode: ParsingContext::PropertyName,
                                props: st.props.push(PropertyV { name: st.name, value: st.value }),
                                name: seq![],
                                value: seq![],
                                ..st
                            },
                        )
                    },
                    TokenV::Identifier(w) => if st.mode == ParsingContext::Selector {
                        css_run(s, e, CssRun { sel_tokens: st.sel_tokens.push(t), ..st })
                    } else if st.mode == ParsingContext::PropertyName {
                        css_run(
                            s,
                            e,
                            CssRun { mode: ParsingContext::AwaitingColon, name: w, ..st },
                        )
                    } else {
                        css_run(s, e, CssRun { value: st.value.push(w), ..st })
                    },
                    TokenV::Str(w) => if st.mode != ParsingContext::PropertyValue {
                        Err((e, "Unexpected \"string\""@))
                    } else {
                        css_run(s, e, CssRun { value: st.value.push(w), ..st })
                    },
                }
            },
        }
    }
}

#[via_fn]
proof fn css_run_decreases(s: Seq<char>, p: int, st: CssRun) {
    if 0 <= p <= s.len() {
        lemma_css_next(s, p);
    }
}

/// The state the parser starts in.
pub open spec fn css_start() -> CssRun {
    CssRun {
        mode: ParsingContext::Selector,
        rules: seq![],
        selector: SelectorV::Empty,
        props: seq![],
        name: seq![],
        value: seq![],
        sel_tokens: seq![],
    }
}

/// The stylesheet that `input` holds, or the first error in it.
pub open spec fn stylesheet_of(input: Seq<char>) -> Result<Seq<RuleV>, (int, Seq<char>)> {
    css_run(input, 0, css_start())
}

fn assert_state(
    state: ParsingContext,
    expected: ParsingContext,
    token: &str,
    pos: usize,
) -> (r: Result<(), CSSParseError>)
    ensures
        state == expected ==> r is Ok,
        state != expected ==> (r matches Err(e) && e.location == pos && e.message@ == token@),
{
    if state != expected {
        return Err(CSSParseError { location: pos, message: string_from(token) });
    }
    Ok(())
}

/// Parses a stylesheet: a list of rules `selector { name: value ...; ... }`.
pub fn parse(input: &str) -> (r: Result<StyleSheet, CSSParseError>)
    ensures
        match stylesheet_of(input@) {
            Ok(rules) => r matches Ok(ss) && sheet_view(ss@) == rules,
            Err((l, m)) => r matches Err(e) && e.location == l && e.message@ == m,
        },
{
    let chars = chars_of(input);
    let mut pos: usize = 0;
    let mut ss: Vec<Rule> = Vec::new();
    let mut state = ParsingContext::Selector;
    let mut selector = Selector::Empty;
    let mut props: Vec<Property> = Vec::new();
    let mut name = String::new();
    let mut value: Vec<String> = Vec::new();
    let mut selector_tokens: Vec<Token> = Vec::new();
    assert(sheet_view(ss@) =~= seq![]);
    assert(props@.map_values(|p| property_view(p)) =~= seq![]);
    assert(value@.map_values(|v: String| v@) =~= seq![]);
    assert(tokens_view(selector_tokens@) =~= seq![]);
    loop
        invariant
            pos <= chars@.len(),
            chars@ == input@,
            css_run(
                chars@,
                pos as int,
                CssRun {
                    mode: state,
                    rules: sheet_view(ss@),
                    selector: selector.view(),
                    props: props@.map_values(|p| property_view(p)),
                    name: name@,
                    value: value@.map_values(|v: String| v@),
                    sel_tokens: tokens_view(selector_tokens@),
                },
            ) == stylesheet_of(input@),
        decreases chars@.len() - pos,
    {
        let ghost p_start = pos as int;
        proof {
            lemma_css_next(chars@, p_start);
        }
        let token = match next_token(&chars, &mut pos)? {
            Some(t) => t,
            None => {
                if state != ParsingContext::Selector {
                    return Err(
                        CSSParseError {
                            location: pos,
                            message: string_from("Unbalanced curly braces"),
                        },
                    );
                }
                return Ok(ss);
            },
        };
        if state == ParsingContext::AwaitingColon {
            match token {
                Token::Colon => {},
                _ => {
                    return Err(
                        CSSParseError { location: pos, message: string_from("Expected colon") },
                    );
                },
            }
            state = ParsingContext::PropertyValue;
            continue;
        }
        match token {
            Token::OpenBrace => {
                assert_state(state, ParsingContext::Selector, "Unexpected \"{\"", pos)?;
                state = ParsingContext::PropertyName;
                selector = parse_selector(&selector_tokens, pos)?;
                selector_tokens = Vec::new();
                assert(tokens_view(selector_tokens@) =~= seq![]);
            },
            Token::CloseBrace => {
                assert_state(state, ParsingContext::PropertyName, "Unexpected \"}.\"", pos)?;
                let ghost before = sheet_view(ss@);
                ss.push(Rule { selector, properties: props });
                assert(sheet_view(ss@) =~= before.push(rule_view(ss@.last())));
                selector = Selector::Empty;
                props = Vec::new();
                assert(props@.map_values(|p| property_view(p)) =~= seq![]);
                state = ParsingContext::Selector;
            },
            Token::Colon => {
                assert_state(state, ParsingContext::Selector, "Unexpected \":\"", pos)?;
                let ghost before = tokens_view(selector_tokens@);
                selector_tokens.push(token);
                assert(tokens_view(selector_tokens@) =~= before.push(TokenV::Colon));
            },
            Token::Semicolon => {
                assert_state(state, ParsingContext::PropertyValue, "Unexpected \";\"", pos)?;
                let ghost before = props@.map_values(|p| property_view(p));
                props.push(Property { name, value });
                assert(props@.map_values(|p| property_view(p)) =~= before.push(
                    property_view(props@.last()),
                ));
                name = String::new();
                value = Vec::new();
                assert(value@.map_values(|v: String| v@) =~= seq![]);
                state = ParsingContext::PropertyName;
            },
            Token::Identifier(w) => {
                if state == ParsingContext::Selector {
                    let ghost before = tokens_view(selector_tokens@);
                    let ghost wv = w@;
                    selector_tokens.push(Token::Identifier(w));
                    assert(tokens_view(selector_tokens@) =~= before.push(TokenV::Identifier(wv)));
                } else if state == ParsingContext::PropertyName {
                    name = w;
                    state = ParsingContext::AwaitingColon;
                } else {
                    let ghost before = value@.map_values(|v: String| v@);
                    value.push(w);
                    assert(value@.map_values(|v: String| v@) =~= before.push(value@.last()@));
                }
            },
            Token::Str(w) => {
                assert_state(state, ParsingContext::PropertyValue, "Unexpected \"string\"", pos)?;
                let ghost before = value@.map_values(|v: String| v@);
                value.push(w);
                assert(value@.map_values(|v: String| v@) =~= before.push(value@.last()@));
            },
        }
    }
}

/// A deep copy of a selector.
pub fn copy_selector(s: &Selector) -> (r: Selector)
    ensures
        r.view() == s.view(),
    decreases s,
{
    match s {
        Selector::Empty => Selector::Empty,
        Selector::Tag(t) => Selector::Tag(t.clone()),
        Selector::Class(t) => Selector::Class(t.clone()),
        Selector::ID(t) => Selector::ID(t.clone()),
        Selector::Pseduo(t) => Selector::Pseduo(t.clone()),
        Selector::Descendant(a, b) => Selector::Descendant(
            Box::new(copy_selector(a)),
            Box::new(copy_selector(b)),
        ),
        Selector::Child(a, b) => Selector::Child(
            Box::new(copy_selector(a)),
            Box::new(copy_selector(b)),
        ),
        Selector::NextSibling(a, b) => Selector::NextSibling(
            Box::new(copy_selector(a)),
            Box::new(copy_selector(b)),
        ),
        Selector::All => Selector::All,
    }
}

fn copy_property(p: &Property) -> (r: Property)
    ensures
        property_view(r) == property_view(*p),
{
    let mut value: Vec<String> = Vec::new();
    let mut i: usize = 0;
    while i < p.value.len()
        invariant
            i <= p.value@.len(),
            value@ == p.value@.subrange(0, i as int),
        decreases p.value@.len() - i,
    {
        value.push(p.value[i].clone());
        assert(value@ =~= p.value@.subrange(0, i + 1));
        i += 1;
    }
    assert(value@ =~= p.value@);
    Property { name: p.name.clone(), value }
}

/// A deep copy of a rule.
pub fn copy_rule(r: &Rule) -> (c: Rule)
    ensures
        rule_view(c) == rule_view(*r),
{
    let mut props: Vec<Property> = Vec::new();
    let mut i: usize = 0;
    while i < r.properties.len()
        invariant
            i <= r.properties@.len(),
            props@.len() == i,
            props@.map_values(|p| property_view(p)) == r.properties@.subrange(
                0,
                i as int,
            ).map_values(|p| property_view(p)),
        decreases r.properties@.len() - i,
    {
        let ghost before = props@;
        props.push(copy_property(&r.properties[i]));
        proof {
            let a = props@.map_values(|p| property_view(p));
            let b = r.properties@.subrange(0, i + 1).map_values(|p| property_view(p));
            let a0 = before.map_values(|p| property_view(p));
            let b0 = r.properties@.subrange(0, i as int).map_values(|p| property_view(p));
            assert forall|j: int| 0 <= j < i + 1 implies a[j] == b[j] by {
                if j < i {
                    assert(a0[j] == b0[j]);
                }
            }
            assert(a =~= b);
        }
        i += 1;
    }
    assert(r.properties@.subrange(0, r.properties@.len() as int) =~= r.properties@);
    Rule { selector: copy_selector(&r.selector), properties: props }
}

/// A deep copy of a list of rules.
pub fn copy_rules(ss: &Vec<Rule>) -> (r: Vec<Rule>)
    ensures
        sheet_view(r@) == sheet_view(ss@),
{
    let mut r: Vec<Rule> = Vec::new();
    let mut i: usize = 0;
    while i < ss.len()
        invariant
            i <= ss@.len(),
            r@.len() == i,
            sheet_view(r@) == sheet_view(ss@.subrange(0, i as int)),
        decreases ss@.len() - i,
    {
        let ghost before = r@;
        r.push(copy_rule(&ss[i]));
        proof {
            let a = sheet_view(r@);
            let b = sheet_view(ss@.subrange(0, i + 1));
            let a0 = sheet_view(before);
            let b0 = sheet_view(ss@.subrange(0, i as int));
            assert forall|j: int| 0 <= j < i + 1 implies a[j] == b[j] by {
                if j < i {
                    assert(a0[j] == b0[j]);
                }
            }
            assert(a =~= b);
        }
        i += 1;
    }
    assert(ss@.subrange(0, ss@.len() as int) =~= ss@);
    r
}

} // verus!
