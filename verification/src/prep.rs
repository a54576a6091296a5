//! Structural text preprocessing: `\repeat` constructs are replaced by
//! paired sentinel tokens around their (unexpanded) body, and structured
//! inline comment directives are read or turned into single-token
//! sentinels so they survive tokenization.

use vstd::prelude::*;

use crate::braces::brace_end;
use crate::braces::scan_brace_end;
use crate::chars::is_digit;
use crate::chars::is_space;
use crate::chars::line_end;
use crate::chars::match_at;
use crate::chars::skip_digits;
use crate::chars::skip_ident;
use crate::chars::skip_spaces;
use crate::chars::spec_read_u64;
use crate::chars::spec_u64_str;
use crate::chars::lit_at;
use crate::chars::push_range;
use crate::chars::push_str_chars;
use crate::chars::scan_digits;
use crate::chars::scan_ident;
use crate::chars::scan_line_end;
use crate::chars::scan_spaces;
use crate::chars::string_of;
use crate::chars::spec_trim;
use crate::chars::trim_chars;
use crate::chars::read_u64;
use crate::chars::u64_chars;

verus! {

/// A `\repeat <word> <count> {` head matched at some position: the bounds
/// of the count digits and the position of the `{`.
pub ghost struct RepeatHead {
    pub dfrom: int,
    pub dto: int,
    pub brace: int,
}

pub open spec fn repeat_head_at(s: Seq<char>, p: int) -> Option<RepeatHead> {
    if !match_at(s, p, "\\repeat"@) {
        None
    } else {
        let q = skip_spaces(s, p + 7);
        if q == p + 7 {
            None
        } else {
            let w = skip_ident(s, q);
            if w == q {
                None
            } else {
                let r = skip_spaces(s, w);
                if r == w {
                    None
                } else {
                    let d = skip_digits(s, r);
                    if d == r {
                        None
                    } else {
                        let b = skip_spaces(s, d);
                        if b < s.len() && s[b] == '{' {
                            Some(RepeatHead { dfrom: r, dto: d, brace: b })
                        } else {
                            None
                        }
                    }
                }
            }
        }
    }
}

/// First position `>= p` where a repeat head matches.
pub open spec fn find_repeat(s: Seq<char>, p: int) -> Option<int>
    decreases s.len() + 1 - p,
{
    if p < 0 || p > s.len() {
        None
    } else if repeat_head_at(s, p) is Some {
        Some(p)
    } else if p == s.len() {
        None
    } else {
        find_repeat(s, p + 1)
    }
}

/// One marking step, repeated until no `\repeat` construct is left: the
/// first construct is replaced by ` __REPEAT_START_<count>__ <body>
/// __REPEAT_END__ `, the body left unexpanded. Each step removes one
/// `\repeat` keyword, so a fuel of the text length is never exhausted; a
/// construct whose `{` is never closed stops the marking.
pub open spec fn spec_mark_repeats(s: Seq<char>, fuel: nat) -> Seq<char>
    decreases fuel,
{
    if fuel == 0 {
        s
    } else {
        match find_repeat(s, 0) {
            Option::None => s,
            Option::Some(p) => {
                let h = repeat_head_at(s, p).unwrap();
                let cnt = spec_read_u64(s, h.dfrom, h.dto, 1);
                match brace_end(s, h.brace + 1, 1) {
                    Option::None => s,
                    Option::Some(e) => {
                        let marked = " __REPEAT_START_"@ + spec_u64_str(cnt) + "__ "@ + s.subrange(
                            h.brace + 1,
                            e,
                        ) + " __REPEAT_END__ "@;
                        spec_mark_repeats(
                            s.subrange(0, p) + marked + s.subrange(e + 1, s.len() as int),
                            (fuel - 1) as nat,
                        )
                    },
                }
            },
        }
    }
}

/// Repeat marking of a whole text. A fuel of the text length is enough:
/// each step removes one backslash, and a step needs one to match.
pub open spec fn spec_marked(s: Seq<char>) -> Seq<char> {
    spec_mark_repeats(s, s.len())
}

fn try_repeat_head(code: &Vec<char>, p: usize) -> (r: Option<(usize, usize, usize)>)
    requires
        p <= code@.len(),
    ensures
        match r {
            Some((df, dt, b)) => repeat_head_at(code@, p as int) == Some(
                RepeatHead { dfrom: df as int, dto: dt as int, brace: b as int },
            ) && p <= df <= dt <= b < code@.len() && (forall|j: int|
                df <= j < dt ==> is_digit(code@[j])),
            None => repeat_head_at(code@, p as int) is None,
        },
{
    if !lit_at(code, p, "\\repeat") {
        return None;
    }
    let n = code.len();
    proof {
        reveal_strlit("\\repeat");
        assert(p + 7 <= n);
    }
    let q = scan_spaces(code, p + 7);
    if q == p + 7 {
        return None;
    }
    let w = scan_ident(code, q);
    if w == q {
        return None;
    }
    let r = scan_spaces(code, w);
    if r == w {
        return None;
    }
    let d = scan_digits(code, r);
    if d == r {
        return None;
    }
    let b = scan_spaces(code, d);
    if b < code.len() && code[b] == '{' {
        Some((r, d, b))
    } else {
        None
    }
}

fn find_repeat_from(code: &Vec<char>, p: usize) -> (r: Option<usize>)
    requires
        p <= code@.len(),
    ensures
        match r {
            Some(q) => find_repeat(code@, p as int) == Some(q as int) && p <= q <= code@.len()
                && repeat_head_at(code@, q as int) is Some,
            None => find_repeat(code@, p as int) is None,
        },
    decreases code@.len() + 1 - p,
{
    match try_repeat_head(code, p) {
        Some(_) => Some(p),
        None => {
            if p == code.len() {
                None
            } else {
                find_repeat_from(code, p + 1)
            }
        },
    }
}

/// Mark every `\repeat` construct in `code`. Mirrors `spec_marked`.
pub fn mark_repeats(code: Vec<char>) -> (r: Vec<char>)
    ensures
        r@ == spec_marked(code@),
{
    let fuel = code.len();
    mark_repeats_rec(code, fuel)
}

fn mark_repeats_rec(code: Vec<char>, fuel: usize) -> (r: Vec<char>)
    ensures
        r@ == spec_mark_repeats(code@, fuel as nat),
    decreases fuel,
{
    if fuel == 0 {
        return code;
    }
    let p = match find_repeat_from(&code, 0) {
        None => {
            return code;
        },
        Some(p) => p,
    };
    let (df, dt, b) = match try_repeat_head(&code, p) {
        None => {
            return code;  // unreachable: the found position matches
        },
        Some(h) => h,
    };
    let n = code.len();
    proof {
        assert(b < n);
    }
    let e = match scan_brace_end(&code, b + 1, 1) {
        None => {
            return code;
        },
        Some(e) => e,
    };
    let cnt = read_u64(&code, df, dt, 1);
    let digits = u64_chars(cnt);
    let mut out: Vec<char> = Vec::new();
    push_range(&mut out, &code, 0, p);
    push_str_chars(&mut out, " __REPEAT_START_");
    push_range(&mut out, &digits, 0, digits.len());
    push_str_chars(&mut out, "__ ");
    push_range(&mut out, &code, b + 1, e);
    push_str_chars(&mut out, " __REPEAT_END__ ");
    push_range(&mut out, &code, e + 1, code.len());
    proof {
        assert(digits@.subrange(0, digits@.len() as int) =~= digits@);
        let h = repeat_head_at(code@, p as int).unwrap();
        let marked = " __REPEAT_START_"@ + spec_u64_str(cnt) + "__ "@ + code@.subrange(
            h.brace + 1,
            e as int,
        ) + " __REPEAT_END__ "@;
        assert(out@ =~= code@.subrange(0, p as int) + marked + code@.subrange(
            e + 1,
            code@.len() as int,
        ));
    }
    mark_repeats_rec(out, fuel - 1)
}

/// Position just after a `% @strudel-of-lilypond@` head matched at `p`.
pub open spec fn directive_head(s: Seq<char>, p: int) -> Option<int> {
    if !(0 <= p < s.len() && s[p] == '%') {
        None
    } else {
        let q = skip_spaces(s, p + 1);
        if match_at(s, q, "@strudel-of-lilypond@"@) {
            Some(q + 21)
        } else {
            None
        }
    }
}

fn try_directive_head(code: &Vec<char>, p: usize) -> (r: Option<usize>)
    requires
        p <= code@.len(),
    ensures
        match r {
            Some(h) => directive_head(code@, p as int) == Some(h as int) && p < h <= code@.len(),
            None => directive_head(code@, p as int) is None,
        },
{
    if p >= code.len() || code[p] != '%' {
        return None;
    }
    let q = scan_spaces(code, p + 1);
    if lit_at(code, q, "@strudel-of-lilypond@") {
        proof {
            reveal_strlit("@strudel-of-lilypond@");
        }
        Some(q + 21)
    } else {
        None
    }
}

/// A `comment <text>` directive matched at `p`: the bounds of the text
/// (from the first non-whitespace character to the end of its line).
pub open spec fn comment_match_at(s: Seq<char>, p: int) -> Option<(int, int)> {
    match directive_head(s, p) {
        Option::None => None,
        Option::Some(h) => {
            let r = skip_spaces(s, h);
            if r == h || !match_at(s, r, "comment"@) {
                None
            } else {
                let u = skip_spaces(s, r + 7);
                if u == r + 7 || u >= s.len() {
                    None
                } else {
                    Some((u, line_end(s, u)))
                }
            }
        },
    }
}

pub open spec fn find_comment(s: Seq<char>, p: int) -> Option<int>
    decreases s.len() + 1 - p,
{
    if p < 0 || p > s.len() {
        None
    } else if comment_match_at(s, p) is Some {
        Some(p)
    } else if p == s.len() {
        None
    } else {
        find_comment(s, p + 1)
    }
}

/// Spaces of a comment text are encoded as `\u{1}` so that the sentinel
/// survives tokenization as one token.
pub open spec fn x01_of(t: Seq<char>) -> Seq<char> {
    Seq::new(
        t.len(),
        |i: int|
            if t[i] == ' ' {
                '\u{1}'
            } else {
                t[i]
            },
    )
}

/// Replace every `comment` directive with a `__COMMENT_<text>__` sentinel
/// token, scanning left to right.
pub open spec fn spec_mark_comments(s: Seq<char>, pos: int, acc: Seq<char>) -> Seq<char>
    decreases s.len() - pos,
{
    if pos < 0 || pos > s.len() {
        acc
    } else {
        match find_comment(s, pos) {
            Option::None => acc + s.subrange(pos, s.len() as int),
            Option::Some(p) => {
                let (u, e) = comment_match_at(s, p).unwrap();
                if pos <= p && p < u && u < e <= s.len() {
                    let acc2 = acc + s.subrange(pos, p) + "__COMMENT_"@ + x01_of(s.subrange(u, e))
                        + "__"@;
                    spec_mark_comments(s, e, acc2)
                } else {
                    acc
                }
            },
        }
    }
}

fn try_comment_match(code: &Vec<char>, p: usize) -> (r: Option<(usize, usize)>)
    requires
        p <= code@.len(),
    ensures
        match r {
            Some((u, e)) => comment_match_at(code@, p as int) == Some((u as int, e as int)) && p < u
                < e <= code@.len(),
            None => comment_match_at(code@, p as int) is None,
        },
{
    let h = match try_directive_head(code, p) {
        None => {
            return None;
        },
        Some(h) => h,
    };
    let r = scan_spaces(code, h);
    if r == h || !lit_at(code, r, "comment") {
        return None;
    }
    let n = code.len();
    proof {
        reveal_strlit("comment");
        assert(r + 7 <= n);
    }
    let u = scan_spaces(code, r + 7);
    if u == r + 7 || u >= code.len() {
        return None;
    }
    let e = scan_line_end(code, u);
    proof {
        crate::chars::lemma_skip_spaces_not_space(code@, r + 7 as int);
        assert(!is_space(code@[u as int]));
        assert(code@[u as int] != '\n');
        crate::chars::lemma_line_end_bounds(code@, u + 1 as int);
        assert(line_end(code@, u as int) == line_end(code@, u + 1 as int));
    }
    Some((u, e))
}

fn find_comment_from(code: &Vec<char>, p: usize) -> (r: Option<usize>)
    requires
        p <= code@.len(),
    ensures
        match r {
            Some(q) => find_comment(code@, p as int) == Some(q as int) && p <= q <= code@.len()
                && comment_match_at(code@, q as int) is Some,
            None => find_comment(code@, p as int) is None,
        },
    decreases code@.len() + 1 - p,
{
    match try_comment_match(code, p) {
        Some(_) => Some(p),
        None => {
            if p == code.len() {
                None
            } else {
                find_comment_from(code, p + 1)
            }
        },
    }
}

/// Mark every `comment` directive in `section`. Mirrors
/// `spec_mark_comments`.
pub fn mark_comments(section: &Vec<char>) -> (r: Vec<char>)
    ensures
        r@ == spec_mark_comments(section@, 0, Seq::empty()),
{
    let out: Vec<char> = Vec::new();
    mark_comments_rec(section, 0, out)
}

fn mark_comments_rec(section: &Vec<char>, pos: usize, acc: Vec<char>) -> (r: Vec<char>)
    requires
        pos <= section@.len(),
    ensures
        r@ == spec_mark_comments(section@, pos as int, acc@),
    decreases section@.len() - pos,
{
    match find_comment_from(section, pos) {
        None => {
            let mut out = acc;
            push_range(&mut out, section, pos, section.len());
            out
        },
        Some(p) => {
            let (u, e) = match try_comment_match(section, p) {
                None => {
                    return acc;  // unreachable: the found position matches
                },
                Some(x) => x,
            };
            let mut out = acc;
            push_range(&mut out, section, pos, p);
            push_str_chars(&mut out, "__COMMENT_");
            let mut k: usize = u;
            while k < e
                invariant
                    u <= k <= e <= section@.len(),
                    out@ == acc@ + section@.subrange(pos as int, p as int) + "__COMMENT_"@
                        + x01_of(section@.subrange(u as int, k as int)),
                decreases e - k,
            {
                let c = section[k];
                if c == ' ' {
                    out.push('\u{1}');
                } else {
                    out.push(c);
                }
                k = k + 1;
                proof {
                    assert(out@ =~= acc@ + section@.subrange(pos as int, p as int) + "__COMMENT_"@
                        + x01_of(section@.subrange(u as int, k as int)));
                }
            }
            push_str_chars(&mut out, "__");
            proof {
                assert(out@ =~= acc@ + section@.subrange(pos as int, p as int) + "__COMMENT_"@
                    + x01_of(section@.subrange(u as int, e as int)) + "__"@);
            }
            mark_comments_rec(section, e, out)
        },
    }
}

/// A `<word> punchcard` directive matched at `p`: the bounds of the word.
pub open spec fn punchcard_match_at(s: Seq<char>, p: int) -> Option<(int, int)> {
    match directive_head(s, p) {
        Option::None => None,
        Option::Some(h) => {
            let r = skip_spaces(s, h);
            if r == h {
                None
            } else {
                let w = skip_ident(s, r);
                if w == r {
                    None
                } else {
                    let x = skip_spaces(s, w);
                    if x == w || !match_at(s, x, "punchcard"@) {
                        None
                    } else {
                        Some((r, w))
                    }
                }
            }
        },
    }
}

pub open spec fn find_punchcard(s: Seq<char>, p: int) -> Option<int>
    decreases s.len() + 1 - p,
{
    if p < 0 || p > s.len() {
        None
    } else if punchcard_match_at(s, p) is Some {
        Some(p)
    } else if p == s.len() {
        None
    } else {
        find_punchcard(s, p + 1)
    }
}

/// The punchcard display colour named in `s`, if any.
pub open spec fn spec_punchcard_color(s: Seq<char>) -> Option<Seq<char>> {
    match find_punchcard(s, 0) {
        Option::None => None,
        Option::Some(p) => {
            let (a, b) = punchcard_match_at(s, p).unwrap();
            if 0 <= a <= b <= s.len() {
                Some(s.subrange(a, b))
            } else {
                None
            }
        },
    }
}

fn try_punchcard_match(code: &Vec<char>, p: usize) -> (r: Option<(usize, usize)>)
    requires
        p <= code@.len(),
    ensures
        match r {
            Some((a, b)) => punchcard_match_at(code@, p as int) == Some((a as int, b as int)) && p
                < a <= b <= code@.len(),
            None => punchcard_match_at(code@, p as int) is None,
        },
{
    let h = match try_directive_head(code, p) {
        None => {
            return None;
        },
        Some(h) => h,
    };
    let r = scan_spaces(code, h);
    if r == h {
        return None;
    }
    let w = scan_ident(code, r);
    if w == r {
        return None;
    }
    let x = scan_spaces(code, w);
    if x == w || !lit_at(code, x, "punchcard") {
        return None;
    }
    proof {
        reveal_strlit("punchcard");
    }
    Some((r, w))
}

fn find_punchcard_from(code: &Vec<char>, p: usize) -> (r: Option<usize>)
    requires
        p <= code@.len(),
    ensures
        match r {
            Some(q) => find_punchcard(code@, p as int) == Some(q as int)
                && punchcard_match_at(code@, q as int) is Some,
            None => find_punchcard(code@, p as int) is None,
        },
    decreases code@.len() + 1 - p,
{
    match try_punchcard_match(code, p) {
        Some(_) => Some(p),
        None => {
            if p == code.len() {
                None
            } else {
                find_punchcard_from(code, p + 1)
            }
        },
    }
}

/// Read the punchcard colour directive. Mirrors `spec_punchcard_color`.
pub fn parse_punchcard_color(content: &Vec<char>) -> (r: Option<String>)
    ensures
        match r {
            Some(v) => spec_punchcard_color(content@) == Some(v@),
            None => spec_punchcard_color(content@) is None,
        },
{
    match find_punchcard_from(content, 0) {
        None => None,
        Some(p) => {
            match try_punchcard_match(content, p) {
                None => None,  // unreachable: the found position matches
                Some((a, b)) => {
                    let mut w: Vec<char> = Vec::new();
                    push_range(&mut w, content, a, b);
                    proof {
                        assert(w@ =~= content@.subrange(a as int, b as int));
                    }
                    Some(string_of(&w))
                },
            }
        },
    }
}

/// A `gain <value>` or `pan <value>` directive matched at `p`: the bounds
/// of the raw value (first non-whitespace character to end of line).
pub open spec fn value_match_at(s: Seq<char>, p: int, word: Seq<char>) -> Option<(int, int)> {
    match directive_head(s, p) {
        Option::None => None,
        Option::Some(h) => {
            let r = skip_spaces(s, h);
            if r == h || !match_at(s, r, word) {
                None
            } else {
                let u = skip_spaces(s, r + word.len());
                if u == r + word.len() || u >= s.len() {
                    None
                } else {
                    Some((u, line_end(s, u)))
                }
            }
        },
    }
}

pub open spec fn find_value(s: Seq<char>, p: int, word: Seq<char>) -> Option<int>
    decreases s.len() + 1 - p,
{
    if p < 0 || p > s.len() {
        None
    } else if value_match_at(s, p, word) is Some {
        Some(p)
    } else if p == s.len() {
        None
    } else {
        find_value(s, p + 1, word)
    }
}

/// The trimmed value of the first `<word> <value>` directive in `s`.
pub open spec fn spec_directive_value(s: Seq<char>, word: Seq<char>) -> Option<Seq<char>> {
    match find_value(s, 0, word) {
        Option::None => None,
        Option::Some(p) => {
            let (u, e) = value_match_at(s, p, word).unwrap();
            if 0 <= u <= e <= s.len() {
                Some(spec_trim(s.subrange(u, e)))
            } else {
                None
            }
        },
    }
}

fn try_value_match(code: &Vec<char>, p: usize, word: &str, wlen: usize) -> (r: Option<(
    usize,
    usize,
)>)
    requires
        p <= code@.len(),
        wlen == word@.len(),
    ensures
        match r {
            Some((u, e)) => value_match_at(code@, p as int, word@) == Some((u as int, e as int))
                && p < u <= e <= code@.len(),
            None => value_match_at(code@, p as int, word@) is None,
        },
{
    let h = match try_directive_head(code, p) {
        None => {
            return None;
        },
        Some(h) => h,
    };
    let r = scan_spaces(code, h);
    if r == h || !lit_at(code, r, word) {
        return None;
    }
    let n = code.len();
    proof {
        assert(r + wlen <= n);
    }
    let u = scan_spaces(code, r + wlen);
    if u == r + wlen || u >= code.len() {
        return None;
    }
    let e = scan_line_end(code, u);
    Some((u, e))
}

fn find_value_from(code: &Vec<char>, p: usize, word: &str, wlen: usize) -> (r: Option<usize>)
    requires
        p <= code@.len(),
        wlen == word@.len(),
    ensures
        match r {
            Some(q) => find_value(code@, p as int, word@) == Some(q as int) && value_match_at(
                code@,
                q as int,
                word@,
            ) is Some,
            None => find_value(code@, p as int, word@) is None,
        },
    decreases code@.len() + 1 - p,
{
    match try_value_match(code, p, word, wlen) {
        Some(_) => Some(p),
        None => {
            if p == code.len() {
                None
            } else {
                find_value_from(code, p + 1, word, wlen)
            }
        },
    }
}

fn parse_directive_value(content: &Vec<char>, word: &str, wlen: usize) -> (r: Option<String>)
    requires
        wlen == word@.len(),
    ensures
        match r {
            Some(v) => spec_directive_value(content@, word@) == Some(v@),
            None => spec_directive_value(content@, word@) is None,
        },
{
    match find_value_from(content, 0, word, wlen) {
        None => None,
        Some(p) => {
            match try_value_match(content, p, word, wlen) {
                None => None,  // unreachable: the found position matches
                Some((u, e)) => {
                    let mut raw: Vec<char> = Vec::new();
                    push_range(&mut raw, content, u, e);
                    proof {
                        assert(raw@ =~= content@.subrange(u as int, e as int));
                    }
                    let v = trim_chars(&raw);
                    Some(string_of(&v))
                },
            }
        },
    }
}

/// Read the `gain` directive value. Mirrors `spec_directive_value`.
pub fn parse_gain(content: &Vec<char>) -> (r: Option<String>)
    ensures
        match r {
            Some(v) => spec_directive_value(content@, "gain"@) == Some(v@),
            None => spec_directive_value(content@, "gain"@) is None,
        },
{
    proof {
        reveal_strlit("gain");
    }
    parse_directive_value(content, "gain", 4)
}

/// Read the `pan` directive value. Mirrors `spec_directive_value`.
pub fn parse_pan(content: &Vec<char>) -> (r: Option<String>)
    ensures
        match r {
            Some(v) => spec_directive_value(content@, "pan"@) == Some(v@),
            None => spec_directive_value(content@, "pan"@) is None,
        },
{
    proof {
        reveal_strlit("pan");
    }
    parse_directive_value(content, "pan", 3)
}

/// An `\include "file"` directive at `p`: the bounds of the file name
/// and the end of the whole directive.
pub open spec fn include_at(s: Seq<char>, p: int) -> Option<(int, int, int)> {
    if !match_at(s, p, "\\include"@) {
        None
    } else {
        let q = skip_spaces(s, p + 8);
        if q == p + 8 || !(q < s.len() && s[q] == '"') {
            None
        } else {
            let t = skip_nonquote(s, q + 1);
            if t > q + 1 && t < s.len() && s[t] == '"' {
                Some((q + 1, t, t + 1))
            } else {
                None
            }
        }
    }
}

/// First index `>= i` holding a double quote, or the length.
pub open spec fn skip_nonquote(s: Seq<char>, i: int) -> int
    decreases s.len() - i,
{
    if i < 0 || i >= s.len() {
        i
    } else if s[i] == '"' {
        i
    } else {
        skip_nonquote(s, i + 1)
    }
}

fn scan_nonquote(s: &Vec<char>, i: usize) -> (r: usize)
    requires
        i <= s@.len(),
    ensures
        r == skip_nonquote(s@, i as int),
        i <= r <= s@.len(),
    decreases s@.len() - i,
{
    if i < s.len() && s[i] != '"' {
        scan_nonquote(s, i + 1)
    } else {
        i
    }
}

pub open spec fn find_include(s: Seq<char>, p: int) -> Option<int>
    decreases s.len() + 1 - p,
{
    if p < 0 || p > s.len() {
        None
    } else if include_at(s, p) is Some {
        Some(p)
    } else if p == s.len() {
        None
    } else {
        find_include(s, p + 1)
    }
}

fn try_include(code: &Vec<char>, p: usize) -> (r: Option<(usize, usize, usize)>)
    requires
        p <= code@.len(),
    ensures
        match r {
            Some((a, b, e)) => include_at(code@, p as int) == Some((a as int, b as int, e as int))
                && p < a < b < e <= code@.len(),
            None => include_at(code@, p as int) is None,
        },
{
    if !lit_at(code, p, "\\include") {
        return None;
    }
    let n = code.len();
    proof {
        reveal_strlit("\\include");
        assert(p + 8 <= n);
    }
    let q = scan_spaces(code, p + 8);
    if q == p + 8 || !(q < code.len() && code[q] == '"') {
        return None;
    }
    let t = scan_nonquote(code, q + 1);
    if t > q + 1 && t < code.len() && code[t] == '"' {
        Some((q + 1, t, t + 1))
    } else {
        None
    }
}

fn find_include_from(code: &Vec<char>, p: usize) -> (r: Option<usize>)
    requires
        p <= code@.len(),
    ensures
        match r {
            Some(q) => find_include(code@, p as int) == Some(q as int) && include_at(
                code@,
                q as int,
            ) is Some,
            None => find_include(code@, p as int) is None,
        },
    decreases code@.len() + 1 - p,
{
    match try_include(code, p) {
        Some(_) => Some(p),
        None => {
            if p == code.len() {
                None
            } else {
                find_include_from(code, p + 1)
            }
        },
    }
}

/// Locate the first `\include "file"` directive: the bounds of the whole
/// directive and the file name it names. Mirrors `find_include`.
pub fn find_include_directive(code: &str) -> (r: Option<(usize, usize, String)>)
    ensures
        match r {
            Some((from, to, name)) => (find_include(code@, 0) matches Some(p) && p == from && (
            include_at(code@, p) matches Some((a, b, e)) && to == e && name@ == code@.subrange(
                a,
                b,
            ))),
            None => find_include(code@, 0) is None,
        },
{
    let chars = crate::chars::chars_of(code);
    match find_include_from(&chars, 0) {
        None => None,
        Some(p) => {
            match try_include(&chars, p) {
                None => None,  // unreachable: the found position matches
                Some((a, b, e)) => {
                    let mut name: Vec<char> = Vec::new();
                    push_range(&mut name, &chars, a, b);
                    proof {
                        assert(name@ =~= code@.subrange(a as int, b as int));
                    }
                    Some((p, e, string_of(&name)))
                },
            }
        },
    }
}

} // verus!
