//! Forward scanners over the characters of a markup source: white space,
//! comments, names, brace blocks and directive closers.
use vstd::prelude::*;
use crate::text::{
    alnum, is_alphanumeric_char, is_whitespace_char, is_ws, occurs_at, starts_with_at,
    string_of_range,
};

verus! {

/// The first position at or after `p` that does not hold white space.
pub open spec fn ws_end(s: Seq<char>, p: int) -> int
    decreases s.len() - p,
{
    if 0 <= p < s.len() && is_ws(s[p]) {
        ws_end(s, p + 1)
    } else {
        p
    }
}

/// The first position at or after `p` that does not hold a letter or a digit.
pub open spec fn alnum_end(s: Seq<char>, p: int) -> int
    decreases s.len() - p,
{
    if 0 <= p < s.len() && alnum(s[p]) {
        alnum_end(s, p + 1)
    } else {
        p
    }
}

/// The position just after the first `-->` at or after `p`, or the end of `s`.
pub open spec fn comment_close(s: Seq<char>, p: int) -> int
    decreases s.len() - p,
{
    if p >= s.len() || p < 0 {
        p
    } else if occurs_at(s, p, "-->"@) {
        p + 3
    } else {
        comment_close(s, p + 1)
    }
}

/// Where scanning resumes at `p`: past a comment `<!-- ... -->` that starts
/// there, else at `p` itself.
pub open spec fn after_comment(s: Seq<char>, p: int) -> int {
    if occurs_at(s, p, "<!--"@) {
        comment_close(s, p + 4)
    } else {
        p
    }
}

pub proof fn lemma_ws_end(s: Seq<char>, p: int)
    requires
        0 <= p,
    ensures
        p <= ws_end(s, p),
        p <= s.len() ==> ws_end(s, p) <= s.len(),
    decreases s.len() - p,
{
    if 0 <= p < s.len() && is_ws(s[p]) {
        lemma_ws_end(s, p + 1);
    }
}

pub proof fn lemma_alnum_end(s: Seq<char>, p: int)
    requires
        0 <= p,
    ensures
        p <= alnum_end(s, p),
        p <= s.len() ==> alnum_end(s, p) <= s.len(),
    decreases s.len() - p,
{
    if 0 <= p < s.len() && alnum(s[p]) {
        lemma_alnum_end(s, p + 1);
    }
}

pub proof fn lemma_comment_close(s: Seq<char>, p: int)
    requires
        0 <= p,
    ensures
        p <= comment_close(s, p),
        p <= s.len() ==> comment_close(s, p) <= s.len(),
    decreases s.len() - p,
{
    reveal_strlit("-->");
    if p < s.len() && !occurs_at(s, p, "-->"@) {
        lemma_comment_close(s, p + 1);
    }
}

/// Moves `pos` past white space.
pub fn skip_whitespace(input: &Vec<char>, pos: &mut usize)
    ensures
        *final(pos) == ws_end(input@, *old(pos) as int),
{
    while *pos < input.len() && is_whitespace_char(input[*pos])
        invariant
            ws_end(input@, *pos as int) == ws_end(input@, *old(pos) as int),
        decreases input@.len() - *pos,
    {
        *pos += 1;
    }
}

/// Moves `pos` past a comment `<!-- ... -->` that starts there.
pub fn skip_comments(input: &Vec<char>, pos: &mut usize)
    requires
        *old(pos) <= input@.len(),
    ensures
        *final(pos) == after_comment(input@, *old(pos) as int),
        *old(pos) <= *final(pos) <= input@.len(),
{
    let len = input.len();
    proof {
        reveal_strlit("<!--");
        reveal_strlit("-->");
    }
    if !starts_with_at(input, *pos, "<!--") {
        return;
    }
    *pos += 4;
    while *pos < input.len()
        invariant
            *old(pos) + 4 <= *pos <= input@.len(),
            len == input@.len(),
            comment_close(input@, *pos as int) == after_comment(input@, *old(pos) as int),
        decreases input@.len() - *pos,
    {
        proof {
            reveal_strlit("-->");
        }
        if starts_with_at(input, *pos, "-->") {
            *pos += 3;
            return;
        }
        *pos += 1;
    }
}

/// Takes the run of letters and digits that starts at `pos`.
pub fn grab_alphanum_token(input: &Vec<char>, pos: &mut usize) -> (r: String)
    requires
        *old(pos) <= input@.len(),
    ensures
        *final(pos) == alnum_end(input@, *old(pos) as int),
        r@ == input@.subrange(*old(pos) as int, *final(pos) as int),
{
    let start = *pos;
    proof {
        lemma_alnum_end(input@, start as int);
    }
    while *pos < input.len() && is_alphanumeric_char(input[*pos])
        invariant
            start <= *pos <= input@.len(),
            alnum_end(input@, *pos as int) == alnum_end(input@, start as int),
        decreases input@.len() - *pos,
    {
        *pos += 1;
    }
    string_of_range(input, start, *pos)
}

/// The position of the `}` that closes a block whose depth is `d` at `i`,
/// counting `{` and `}` from there on.
pub open spec fn brace_close(s: Seq<char>, i: int, d: int) -> Option<int>
    decreases s.len() - i,
{
    if i < 0 || i >= s.len() {
        None
    } else {
        let d2 = if s[i] == '{' {
            d + 1
        } else if s[i] == '}' {
            d - 1
        } else {
            d
        };
        if d2 == 0 {
            Some(i)
        } else {
            brace_close(s, i + 1, d2)
        }
    }
}

pub proof fn lemma_brace_close(s: Seq<char>, i: int, d: int)
    requires
        0 <= i,
    ensures
        brace_close(s, i, d) matches Some(k) ==> i <= k < s.len(),
    decreases s.len() - i,
{
    if 0 <= i < s.len() {
        let d2 = if s[i] == '{' {
            d + 1
        } else if s[i] == '}' {
            d - 1
        } else {
            d
        };
        if d2 != 0 {
            lemma_brace_close(s, i + 1, d2);
        }
    }
}

/// Takes the text inside the brace block that opens at `pos`, braces nested
/// inside it included, and moves `pos` past its closing `}`. `None` when the
/// block is never closed.
pub fn curly_inner(input: &Vec<char>, pos: &mut usize) -> (r: Option<String>)
    requires
        *old(pos) < input@.len(),
    ensures
        match brace_close(input@, *old(pos) + 1, 1) {
            Some(k) => r matches Some(t) && t@ == input@.subrange(*old(pos) + 1, k) && *final(pos)
                == k + 1,
            None => r is None,
        },
{
    let len = input.len();
    *pos += 1;
    let start = *pos;
    let mut depth: usize = 1;
    proof {
        lemma_brace_close(input@, start as int, 1);
    }
    while *pos < input.len()
        invariant
            start <= *pos <= input@.len(),
            start == *old(pos) + 1,
            len == input@.len(),
            1 <= depth <= 1 + *pos - start,
            brace_close(input@, *pos as int, depth as int) == brace_close(input@, start as int, 1),
        decreases input@.len() - *pos,
    {
        let c = input[*pos];
        if c == '{' {
            depth += 1;
        } else if c == '}' {
            depth -= 1;
        }
        if depth == 0 {
            let inner = string_of_range(input, start, *pos);
            *pos += 1;
            return Some(inner);
        }
        *pos += 1;
    }
    None
}

/// Scans for `needle` from `i` on, where `depth` openers are still unclosed:
/// the position of the closer that matches the first opener.
pub open spec fn closer_scan(
    s: Seq<char>,
    opener: Option<Seq<char>>,
    needle: Seq<char>,
    i: int,
    depth: nat,
) -> Option<int>
    decreases s.len() - i,
{
    if i < 0 || i >= s.len() {
        None
    } else if occurs_at(s, i, needle) && depth == 0 {
        Some(i)
    } else {
        let d1: nat = if occurs_at(s, i, needle) {
            (depth - 1) as nat
        } else {
            depth
        };
        let d2: nat = if opener matches Some(o) && occurs_at(s, i, o) {
            d1 + 1
        } else {
            d1
        };
        closer_scan(s, opener, needle, i + 1, d2)
    }
}

/// Finds the closer `needle` that matches a block opened just before `pos`,
/// counting nested openers `depth_increase`; moves `pos` past it and returns
/// where it starts.
pub fn search_for_closing(
    haystack: &Vec<char>,
    depth_increase: Option<&str>,
    needle: &str,
    pos: &mut usize,
) -> (r: Option<usize>)
    requires
        *old(pos) <= haystack@.len(),
    ensures
        match closer_scan(
            haystack@,
            match depth_increase {
                Some(d) => Some(d@),
                None => None,
            },
            needle@,
            *old(pos) as int,
            0,
        ) {
            Some(k) => r == Some(k as usize) && *final(pos) == k + needle@.len(),
            None => r is None,
        },
{
    let ghost opener = match depth_increase {
        Some(d) => Some(d@),
        None => None,
    };
    let mut depth: usize = 0;
    let start = *pos;
    let len = haystack.len();
    while *pos < haystack.len()
        invariant
            start <= *pos <= haystack@.len(),
            start == *old(pos),
            len == haystack@.len(),
            depth <= *pos - start,
            opener == match depth_increase {
                Some(d) => Some(d@),
                None => None,
            },
            closer_scan(haystack@, opener, needle@, *pos as int, depth as nat) == closer_scan(
                haystack@,
                opener,
                needle@,
                start as int,
                0,
            ),
        decreases haystack@.len() - *pos,
    {
        if starts_with_at(haystack, *pos, needle) {
            if depth == 0 {
                let at = *pos;
                *pos = *pos + needle.unicode_len();
                return Some(at);
            } else {
                depth -= 1;
            }
        }
        match depth_increase {
            Some(d) => {
                if starts_with_at(haystack, *pos, d) {
                    depth += 1;
                }
            },
            None => {},
        }
        *pos += 1;
    }
    None
}

} // verus!
