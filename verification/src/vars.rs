//! The macro (variable) table: `name = { ... }` and `name = \drummode
//! { ... }` assignments at line starts, `\name` substitution to a fixpoint,
//! and the shallow percussive-content check.
//!
//! The substitution is bounded by one pass per table entry; an acyclic
//! reference chain resolves within that bound, and a self-referential
//! macro stops substituting instead of looping.

use vstd::prelude::*;

use crate::braces::spec_braced;
use crate::braces::extract_braced_content;
use crate::chars::is_ident_start;
use crate::chars::match_at;
use crate::chars::skip_ident;
use crate::chars::skip_spaces;
use crate::chars::chars_eq;
use crate::chars::ident_start_char;
use crate::chars::lit_at;
use crate::chars::push_range;
use crate::chars::scan_ident;
use crate::chars::scan_spaces;

verus! {

/// Ghost model of one table entry.
pub ghost struct GVar {
    pub name: Seq<char>,
    pub body: Seq<char>,
    pub drum: bool,
}

/// One table entry: macro name, raw body text, and whether the body is
/// percussive (`\drummode`).
pub struct VarEntry {
    pub name: Vec<char>,
    pub body: Vec<char>,
    pub drum: bool,
}

pub open spec fn var_matches(e: VarEntry, g: GVar) -> bool {
    e.name@ == g.name && e.body@ == g.body && e.drum == g.drum
}

pub open spec fn vars_match(es: Seq<VarEntry>, gs: Seq<GVar>) -> bool {
    es.len() == gs.len() && forall|i: int| 0 <= i < es.len() ==> var_matches(#[trigger] es[i], gs[i])
}

/// An assignment head at line-start position `p`: the end of the name and
/// the position of the body's `{` (for the requested kind).
pub open spec fn assign_head_at(s: Seq<char>, p: int, drum: bool) -> Option<(int, int)> {
    if !(0 <= p < s.len() && (p == 0 || s[p - 1] == '\n') && is_ident_start(s[p])) {
        None
    } else {
        let w = skip_ident(s, p + 1);
        let q = skip_spaces(s, w);
        if !(q < s.len() && s[q] == '=') {
            None
        } else {
            let q2 = skip_spaces(s, q + 1);
            if !drum {
                if q2 < s.len() && s[q2] == '{' {
                    Some((w, q2))
                } else {
                    None
                }
            } else {
                if match_at(s, q2, "\\drummode"@) {
                    let q3 = skip_spaces(s, q2 + 9);
                    if q3 < s.len() && s[q3] == '{' {
                        Some((w, q3))
                    } else {
                        None
                    }
                } else {
                    None
                }
            }
        }
    }
}

/// Scan for assignments of one kind, appending an entry for each whose
/// body brace closes; scanning continues after the opening `{`.
pub open spec fn scan_assigns(s: Seq<char>, p: int, drum: bool, acc: Seq<GVar>) -> Seq<GVar>
    decreases s.len() - p,
{
    if p < 0 || p >= s.len() {
        acc
    } else {
        match assign_head_at(s, p, drum) {
            Option::None => scan_assigns(s, p + 1, drum, acc),
            Option::Some((w, b)) => {
                let next = if b + 1 > p + 1 {
                    b + 1
                } else {
                    p + 1
                };
                let name = s.subrange(p, w);
                match spec_braced(s, b) {
                    Option::Some(body) => scan_assigns(
                        s,
                        next,
                        drum,
                        acc.push(GVar { name, body, drum }),
                    ),
                    Option::None => scan_assigns(s, next, drum, acc),
                }
            },
        }
    }
}

/// The whole table: melodic assignments first, percussive ones after, so
/// that a later entry of the same name shadows an earlier one exactly as
/// the passes recorded them.
pub open spec fn spec_parse_variables(s: Seq<char>) -> Seq<GVar> {
    scan_assigns(s, 0, true, scan_assigns(s, 0, false, Seq::empty()))
}

/// The entry a name refers to: the last one recorded under it.
pub open spec fn var_lookup(gs: Seq<GVar>, name: Seq<char>) -> Option<GVar>
    decreases gs.len(),
{
    if gs.len() == 0 {
        None
    } else if gs.last().name == name {
        Some(gs.last())
    } else {
        var_lookup(gs.drop_last(), name)
    }
}

fn try_assign_head(code: &Vec<char>, p: usize, drum: bool) -> (r: Option<(usize, usize)>)
    requires
        p < code@.len(),
    ensures
        match r {
            Some((w, b)) => assign_head_at(code@, p as int, drum) == Some((w as int, b as int)) && p
                < w <= b < code@.len(),
            None => assign_head_at(code@, p as int, drum) is None,
        },
{
    let n = code.len();
    proof {
        assert(p < n);
    }
    if !(p == 0 || code[p - 1] == '\n') || !ident_start_char(code[p]) {
        return None;
    }
    let w = scan_ident(code, p + 1);
    let q = scan_spaces(code, w);
    if !(q < code.len() && code[q] == '=') {
        return None;
    }
    let q2 = scan_spaces(code, q + 1);
    if !drum {
        if q2 < code.len() && code[q2] == '{' {
            Some((w, q2))
        } else {
            None
        }
    } else {
        if lit_at(code, q2, "\\drummode") {
            let n = code.len();
            proof {
                reveal_strlit("\\drummode");
                assert(q2 + 9 <= n);
            }
            let q3 = scan_spaces(code, q2 + 9);
            if q3 < code.len() && code[q3] == '{' {
                Some((w, q3))
            } else {
                None
            }
        } else {
            None
        }
    }
}

fn scan_assigns_exec(code: &Vec<char>, p: usize, drum: bool, acc: Vec<VarEntry>, Ghost(gacc): Ghost<
    Seq<GVar>,
>) -> (r: Vec<VarEntry>)
    requires
        p <= code@.len(),
        vars_match(acc@, gacc),
    ensures
        vars_match(r@, scan_assigns(code@, p as int, drum, gacc)),
    decreases code@.len() - p,
{
    if p >= code.len() {
        return acc;
    }
    match try_assign_head(code, p, drum) {
        None => scan_assigns_exec(code, p + 1, drum, acc, Ghost(gacc)),
        Some((w, b)) => {
            let next = if b + 1 > p + 1 {
                b + 1
            } else {
                p + 1
            };
            match extract_braced_content(code, b) {
                Some(body) => {
                    let mut name: Vec<char> = Vec::new();
                    push_range(&mut name, code, p, w);
                    proof {
                        assert(name@ =~= code@.subrange(p as int, w as int));
                    }
                    let ghost g = GVar {
                        name: code@.subrange(p as int, w as int),
                        body: body@,
                        drum,
                    };
                    let mut acc2 = acc;
                    acc2.push(VarEntry { name, body, drum });
                    scan_assigns_exec(code, next, drum, acc2, Ghost(gacc.push(g)))
                },
                None => scan_assigns_exec(code, next, drum, acc, Ghost(gacc)),
            }
        },
    }
}

/// Build the macro table of `code`. Mirrors `spec_parse_variables`.
pub fn parse_variables(code: &Vec<char>) -> (r: Vec<VarEntry>)
    ensures
        vars_match(r@, spec_parse_variables(code@)),
{
    let empty: Vec<VarEntry> = Vec::new();
    let melodic = scan_assigns_exec(code, 0, false, empty, Ghost(Seq::empty()));
    let ghost gm = scan_assigns(code@, 0, false, Seq::empty());
    scan_assigns_exec(code, 0, true, melodic, Ghost(gm))
}

/// Find the entry a name refers to. Mirrors `var_lookup` over the first
/// `j` entries.
fn lookup_below(table: &Vec<VarEntry>, name: &Vec<char>, j: usize, Ghost(gs): Ghost<Seq<GVar>>) -> (
    r: Option<usize>)
    requires
        j <= table@.len(),
        vars_match(table@, gs),
    ensures
        match r {
            Some(k) => k < j && var_lookup(gs.subrange(0, j as int), name@) == Some(
                gs[k as int],
            ) && var_matches(table@[k as int], gs[k as int]),
            None => var_lookup(gs.subrange(0, j as int), name@) is None,
        },
    decreases j,
{
    if j == 0 {
        proof {
            assert(gs.subrange(0, 0).len() == 0);
        }
        return None;
    }
    let ghost pre = gs.subrange(0, j as int);
    proof {
        assert(pre.last() == gs[j - 1]);
        assert(pre.drop_last() =~= gs.subrange(0, j - 1));
    }
    if chars_eq(&table[j - 1].name, name) {
        Some(j - 1)
    } else {
        lookup_below(table, name, j - 1, Ghost(gs))
    }
}

pub fn lookup_var(table: &Vec<VarEntry>, name: &Vec<char>, Ghost(gs): Ghost<Seq<GVar>>) -> (r:
    Option<usize>)
    requires
        vars_match(table@, gs),
    ensures
        match r {
            Some(k) => k < table@.len() && var_lookup(gs, name@) == Some(gs[k as int])
                && var_matches(table@[k as int], gs[k as int]),
            None => var_lookup(gs, name@) is None,
        },
{
    let r = lookup_below(table, name, table.len(), Ghost(gs));
    proof {
        assert(gs.subrange(0, gs.len() as int) =~= gs);
    }
    r
}

/// One substitution pass over `s`: each `\name` whose name is in the table
/// is replaced by its body (the inserted body is not rescanned within the
/// pass); the flag records whether anything was replaced.
pub open spec fn subst_pass(
    s: Seq<char>,
    i: int,
    vars: Seq<GVar>,
    acc: Seq<char>,
    changed: bool,
) -> (Seq<char>, bool)
    decreases s.len() + 2 - i,
{
    if i < 0 || i >= s.len() {
        (acc, changed)
    } else if s[i] == '\\' && i + 1 < s.len() && is_ident_start(s[i + 1]) {
        let w = skip_ident(s, i + 2);
        let next = if i + 2 <= w <= s.len() {
            w
        } else {
            i + 2
        };
        match var_lookup(vars, s.subrange(i + 1, next)) {
            Option::Some(v) => subst_pass(s, next, vars, acc + v.body, true),
            Option::None => subst_pass(s, next, vars, acc + s.subrange(i, next), changed),
        }
    } else {
        subst_pass(s, i + 1, vars, acc.push(s[i]), changed)
    }
}

/// Substitution passes to a fixpoint, at most `fuel` of them.
pub open spec fn spec_resolve_fuel(s: Seq<char>, vars: Seq<GVar>, fuel: nat) -> Seq<char>
    decreases fuel,
{
    if fuel == 0 {
        s
    } else {
        let (o, ch) = subst_pass(s, 0, vars, Seq::empty(), false);
        if !ch {
            o
        } else {
            spec_resolve_fuel(o, vars, (fuel - 1) as nat)
        }
    }
}

/// Resolution of `\name` references: one pass per table entry, which
/// reaches the fixpoint of any acyclic reference chain and stops (rather
/// than looping) on a cyclic one.
pub open spec fn spec_resolve(s: Seq<char>, vars: Seq<GVar>) -> Seq<char> {
    spec_resolve_fuel(s, vars, vars.len())
}

fn subst_pass_exec(
    code: &Vec<char>,
    i: usize,
    table: &Vec<VarEntry>,
    acc: Vec<char>,
    changed: bool,
    Ghost(gs): Ghost<Seq<GVar>>,
) -> (r: (Vec<char>, bool))
    requires
        i <= code@.len(),
        vars_match(table@, gs),
    ensures
        (r.0@, r.1) == subst_pass(code@, i as int, gs, acc@, changed),
    decreases code@.len() - i,
{
    if i >= code.len() {
        return (acc, changed);
    }
    if code[i] == '\\' && i + 1 < code.len() && ident_start_char(code[i + 1]) {
        let w = scan_ident(code, i + 2);
        let next = if i + 2 <= w && w <= code.len() {
            w
        } else {
            i + 2
        };
        let mut name: Vec<char> = Vec::new();
        push_range(&mut name, code, i + 1, next);
        proof {
            assert(name@ =~= code@.subrange(i + 1 as int, next as int));
        }
        match lookup_var(table, &name, Ghost(gs)) {
            Some(k) => {
                let mut acc2 = acc;
                push_range(&mut acc2, &table[k].body, 0, table[k].body.len());
                proof {
                    assert(table@[k as int].body@.subrange(
                        0,
                        table@[k as int].body@.len() as int,
                    ) =~= table@[k as int].body@);
                }
                subst_pass_exec(code, next, table, acc2, true, Ghost(gs))
            },
            None => {
                let mut acc2 = acc;
                push_range(&mut acc2, code, i, next);
                subst_pass_exec(code, next, table, acc2, changed, Ghost(gs))
            },
        }
    } else {
        let mut acc2 = acc;
        acc2.push(code[i]);
        subst_pass_exec(code, i + 1, table, acc2, changed, Ghost(gs))
    }
}

fn resolve_fuel_exec(code: Vec<char>, table: &Vec<VarEntry>, fuel: usize, Ghost(gs): Ghost<
    Seq<GVar>,
>) -> (r: Vec<char>)
    requires
        vars_match(table@, gs),
    ensures
        r@ == spec_resolve_fuel(code@, gs, fuel as nat),
    decreases fuel,
{
    if fuel == 0 {
        return code;
    }
    let empty: Vec<char> = Vec::new();
    let (o, ch) = subst_pass_exec(&code, 0, table, empty, false, Ghost(gs));
    if !ch {
        o
    } else {
        resolve_fuel_exec(o, table, fuel - 1, Ghost(gs))
    }
}

/// Resolve `\name` references in `content`. Mirrors `spec_resolve`.
pub fn resolve_variables(content: &Vec<char>, table: &Vec<VarEntry>, Ghost(gs): Ghost<
    Seq<GVar>,
>) -> (r: Vec<char>)
    requires
        vars_match(table@, gs),
    ensures
        r@ == spec_resolve(content@, gs),
{
    let copy = crate::tokenize::clone_chars(content);
    let fuel = table.len();
    resolve_fuel_exec(copy, table, fuel, Ghost(gs))
}

/// Does `s` reference any percussive macro (one level deep)?
pub open spec fn spec_is_drum_content(s: Seq<char>, i: int, vars: Seq<GVar>) -> bool
    decreases s.len() + 2 - i,
{
    if i < 0 || i >= s.len() {
        false
    } else if s[i] == '\\' && i + 1 < s.len() && is_ident_start(s[i + 1]) {
        let w = skip_ident(s, i + 2);
        let next = if i + 2 <= w <= s.len() {
            w
        } else {
            i + 2
        };
        match var_lookup(vars, s.subrange(i + 1, next)) {
            Option::Some(v) => if v.drum {
                true
            } else {
                spec_is_drum_content(s, next, vars)
            },
            Option::None => spec_is_drum_content(s, next, vars),
        }
    } else {
        spec_is_drum_content(s, i + 1, vars)
    }
}

/// Check whether `content` references a percussive macro. Mirrors
/// `spec_is_drum_content`.
pub fn is_drum_content(content: &Vec<char>, table: &Vec<VarEntry>, Ghost(gs): Ghost<Seq<GVar>>) -> (
    r: bool)
    requires
        vars_match(table@, gs),
    ensures
        r == spec_is_drum_content(content@, 0, gs),
{
    is_drum_rec(content, 0, table, Ghost(gs))
}

fn is_drum_rec(code: &Vec<char>, i: usize, table: &Vec<VarEntry>, Ghost(gs): Ghost<Seq<GVar>>) -> (
    r: bool)
    requires
        i <= code@.len(),
        vars_match(table@, gs),
    ensures
        r == spec_is_drum_content(code@, i as int, gs),
    decreases code@.len() - i,
{
    if i >= code.len() {
        return false;
    }
    if code[i] == '\\' && i + 1 < code.len() && ident_start_char(code[i + 1]) {
        let w = scan_ident(code, i + 2);
        let next = if i + 2 <= w && w <= code.len() {
            w
        } else {
            i + 2
        };
        let mut name: Vec<char> = Vec::new();
        push_range(&mut name, code, i + 1, next);
        proof {
            assert(name@ =~= code@.subrange(i + 1 as int, next as int));
        }
        match lookup_var(table, &name, Ghost(gs)) {
            Some(k) => {
                if table[k].drum {
                    true
                } else {
                    is_drum_rec(code, next, table, Ghost(gs))
                }
            },
            None => is_drum_rec(code, next, table, Ghost(gs)),
        }
    } else {
        is_drum_rec(code, i + 1, table, Ghost(gs))
    }
}

} // verus!
