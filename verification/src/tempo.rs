//! The tempo extractor: `\tempo <int> = <int>` literally, or `\tempo
//! <int> = \name` with a top-level scalar assignment `name = <int>`.

use vstd::prelude::*;

use crate::chars::digits_nat;
use crate::chars::is_digit;
use crate::chars::is_ident_start;
use crate::chars::match_at;
use crate::chars::skip_digits;
use crate::chars::skip_ident;
use crate::chars::skip_spaces;
use crate::chars::ident_start_char;
use crate::chars::lit_at;
use crate::chars::push_range;
use crate::chars::scan_digits;
use crate::chars::scan_ident;
use crate::chars::scan_spaces;
use crate::events::Tempo;

verus! {

/// The value of the digit run `s[from..to]` as a `u32`, or `None` when it
/// does not fit.
pub open spec fn try_u32(s: Seq<char>, from: int, to: int) -> Option<u32> {
    if digits_nat(s.subrange(from, to)) <= u32::MAX {
        Some(digits_nat(s.subrange(from, to)) as u32)
    } else {
        None
    }
}

fn try_read_u32(s: &Vec<char>, from: usize, to: usize) -> (r: Option<u32>)
    requires
        from < to <= s@.len(),
        forall|j: int| from <= j < to ==> is_digit(s@[j]),
    ensures
        r == try_u32(s@, from as int, to as int),
{
    let v = crate::chars::read_u32(s, from, to, 0);
    let w = crate::chars::read_u32(s, from, to, 1);
    if v == w {
        Some(v)
    } else {
        None
    }
}

/// A literal `\tempo <int> = <int>` at `p`: both digit runs.
pub open spec fn tempo_lit_at(s: Seq<char>, p: int) -> Option<(int, int, int, int)> {
    if !match_at(s, p, "\\tempo"@) {
        None
    } else {
        let q = skip_spaces(s, p + 6);
        if q == p + 6 {
            None
        } else {
            let e1 = skip_digits(s, q);
            if e1 == q {
                None
            } else {
                let q2 = skip_spaces(s, e1);
                if !(q2 < s.len() && s[q2] == '=') {
                    None
                } else {
                    let q3 = skip_spaces(s, q2 + 1);
                    let e2 = skip_digits(s, q3);
                    if e2 == q3 {
                        None
                    } else {
                        Some((q, e1, q3, e2))
                    }
                }
            }
        }
    }
}

pub open spec fn find_tempo_lit(s: Seq<char>, p: int) -> Option<int>
    decreases s.len() + 1 - p,
{
    if p < 0 || p > s.len() {
        None
    } else if tempo_lit_at(s, p) is Some {
        Some(p)
    } else if p == s.len() {
        None
    } else {
        find_tempo_lit(s, p + 1)
    }
}

/// A `\tempo <int> = \name` at `p`: the digit run and the name bounds.
pub open spec fn tempo_var_at(s: Seq<char>, p: int) -> Option<(int, int, int, int)> {
    if !match_at(s, p, "\\tempo"@) {
        None
    } else {
        let q = skip_spaces(s, p + 6);
        if q == p + 6 {
            None
        } else {
            let e1 = skip_digits(s, q);
            if e1 == q {
                None
            } else {
                let q2 = skip_spaces(s, e1);
                if !(q2 < s.len() && s[q2] == '=') {
                    None
                } else {
                    let q3 = skip_spaces(s, q2 + 1);
                    if q3 + 1 < s.len() && s[q3] == '\\' && is_ident_start(s[q3 + 1]) {
                        let w = skip_ident(s, q3 + 2);
                        let we = if q3 + 2 <= w <= s.len() {
                            w
                        } else {
                            q3 + 2
                        };
                        Some((q, e1, q3 + 1, we))
                    } else {
                        None
                    }
                }
            }
        }
    }
}

pub open spec fn find_tempo_var(s: Seq<char>, p: int) -> Option<int>
    decreases s.len() + 1 - p,
{
    if p < 0 || p > s.len() {
        None
    } else if tempo_var_at(s, p) is Some {
        Some(p)
    } else if p == s.len() {
        None
    } else {
        find_tempo_var(s, p + 1)
    }
}

/// A line-start scalar assignment `name = <int>` at `p`: the digit run.
pub open spec fn scalar_at(s: Seq<char>, p: int, name: Seq<char>) -> Option<(int, int)> {
    if !((p == 0 || (0 <= p - 1 < s.len() && s[p - 1] == '\n')) && match_at(s, p, name)) {
        None
    } else {
        let q = skip_spaces(s, p + name.len());
        if !(q < s.len() && s[q] == '=') {
            None
        } else {
            let q2 = skip_spaces(s, q + 1);
            let e = skip_digits(s, q2);
            if e == q2 {
                None
            } else {
                Some((q2, e))
            }
        }
    }
}

pub open spec fn find_scalar(s: Seq<char>, p: int, name: Seq<char>) -> Option<int>
    decreases s.len() + 1 - p,
{
    if p < 0 || p > s.len() {
        None
    } else if scalar_at(s, p, name) is Some {
        Some(p)
    } else if p == s.len() {
        None
    } else {
        find_scalar(s, p + 1, name)
    }
}

/// The tempo stated in `s`: the first literal directive, or the first
/// macro-referencing directive resolved through a scalar assignment. A
/// digit run that does not fit a `u32` yields no tempo.
pub open spec fn spec_parse_tempo(s: Seq<char>) -> Option<Tempo> {
    match find_tempo_lit(s, 0) {
        Option::Some(p) => {
            let (a, b, c, d) = tempo_lit_at(s, p).unwrap();
            match (try_u32(s, a, b), try_u32(s, c, d)) {
                (Option::Some(beat_unit), Option::Some(bpm)) => Some(Tempo { beat_unit, bpm }),
                _ => None,
            }
        },
        Option::None => {
            match find_tempo_var(s, 0) {
                Option::None => None,
                Option::Some(p) => {
                    let (a, b, c, d) = tempo_var_at(s, p).unwrap();
                    match try_u32(s, a, b) {
                        Option::None => None,
                        Option::Some(beat_unit) => {
                            match find_scalar(s, 0, s.subrange(c, d)) {
                                Option::None => None,
                                Option::Some(p2) => {
                                    let (x, y) = scalar_at(s, p2, s.subrange(c, d)).unwrap();
                                    match try_u32(s, x, y) {
                                        Option::Some(bpm) => Some(Tempo { beat_unit, bpm }),
                                        Option::None => None,
                                    }
                                },
                            }
                        },
                    }
                },
            }
        },
    }
}

fn try_tempo_lit(code: &Vec<char>, p: usize) -> (r: Option<(usize, usize, usize, usize)>)
    requires
        p <= code@.len(),
    ensures
        match r {
            Some((a, b, c, d)) => tempo_lit_at(code@, p as int) == Some(
                (a as int, b as int, c as int, d as int),
            ) && a < b <= c < d <= code@.len() && (forall|j: int| a <= j < b ==> is_digit(code@[j]))
                && (forall|j: int| c <= j < d ==> is_digit(code@[j])),
            None => tempo_lit_at(code@, p as int) is None,
        },
{
    if !lit_at(code, p, "\\tempo") {
        return None;
    }
    let n = code.len();
    proof {
        reveal_strlit("\\tempo");
        assert(p + 6 <= n);
    }
    let q = scan_spaces(code, p + 6);
    if q == p + 6 {
        return None;
    }
    let e1 = scan_digits(code, q);
    if e1 == q {
        return None;
    }
    let q2 = scan_spaces(code, e1);
    if !(q2 < code.len() && code[q2] == '=') {
        return None;
    }
    let q3 = scan_spaces(code, q2 + 1);
    let e2 = scan_digits(code, q3);
    if e2 == q3 {
        return None;
    }
    Some((q, e1, q3, e2))
}

fn find_tempo_lit_from(code: &Vec<char>, p: usize) -> (r: Option<usize>)
    requires
        p <= code@.len(),
    ensures
        match r {
            Some(q) => find_tempo_lit(code@, p as int) == Some(q as int) && tempo_lit_at(
                code@,
                q as int,
            ) is Some,
            None => find_tempo_lit(code@, p as int) is None,
        },
    decreases code@.len() + 1 - p,
{
    match try_tempo_lit(code, p) {
        Some(_) => Some(p),
        None => {
            if p == code.len() {
                None
            } else {
                find_tempo_lit_from(code, p + 1)
            }
        },
    }
}

fn try_tempo_var(code: &Vec<char>, p: usize) -> (r: Option<(usize, usize, usize, usize)>)
    requires
        p <= code@.len(),
    ensures
        match r {
            Some((a, b, c, d)) => tempo_var_at(code@, p as int) == Some(
                (a as int, b as int, c as int, d as int),
            ) && a < b && c <= d <= code@.len() && (forall|j: int|
                a <= j < b ==> is_digit(code@[j])),
            None => tempo_var_at(code@, p as int) is None,
        },
{
    if !lit_at(code, p, "\\tempo") {
        return None;
    }
    let n = code.len();
    proof {
        reveal_strlit("\\tempo");
        assert(p + 6 <= n);
    }
    let q = scan_spaces(code, p + 6);
    if q == p + 6 {
        return None;
    }
    let e1 = scan_digits(code, q);
    if e1 == q {
        return None;
    }
    let q2 = scan_spaces(code, e1);
    if !(q2 < code.len() && code[q2] == '=') {
        return None;
    }
    let q3 = scan_spaces(code, q2 + 1);
    if q3 < code.len() && q3 + 1 < code.len() && code[q3] == '\\' && ident_start_char(
        code[q3 + 1],
    ) {
        let w = scan_ident(code, q3 + 2);
        Some((q, e1, q3 + 1, w))
    } else {
        None
    }
}

fn find_tempo_var_from(code: &Vec<char>, p: usize) -> (r: Option<usize>)
    requires
        p <= code@.len(),
    ensures
        match r {
            Some(q) => find_tempo_var(code@, p as int) == Some(q as int) && tempo_var_at(
                code@,
                q as int,
            ) is Some,
            None => find_tempo_var(code@, p as int) is None,
        },
    decreases code@.len() + 1 - p,
{
    match try_tempo_var(code, p) {
        Some(_) => Some(p),
        None => {
            if p == code.len() {
                None
            } else {
                find_tempo_var_from(code, p + 1)
            }
        },
    }
}

fn try_scalar(code: &Vec<char>, p: usize, name: &Vec<char>) -> (r: Option<(usize, usize)>)
    requires
        p <= code@.len(),
    ensures
        match r {
            Some((x, y)) => scalar_at(code@, p as int, name@) == Some((x as int, y as int)) && x < y
                <= code@.len() && (forall|j: int| x <= j < y ==> is_digit(code@[j])),
            None => scalar_at(code@, p as int, name@) is None,
        },
{
    if !(p == 0 || (p >= 1 && code[p - 1] == '\n')) {
        return None;
    }
    if !crate::chars::vec_at(code, p, name) {
        return None;
    }
    let n = code.len();
    proof {
        assert(p + name@.len() <= n);
    }
    let q = scan_spaces(code, p + name.len());
    if !(q < code.len() && code[q] == '=') {
        return None;
    }
    let q2 = scan_spaces(code, q + 1);
    let e = scan_digits(code, q2);
    if e == q2 {
        return None;
    }
    Some((q2, e))
}

fn find_scalar_from(code: &Vec<char>, p: usize, name: &Vec<char>) -> (r: Option<usize>)
    requires
        p <= code@.len(),
    ensures
        match r {
            Some(q) => find_scalar(code@, p as int, name@) == Some(q as int) && scalar_at(
                code@,
                q as int,
                name@,
            ) is Some,
            None => find_scalar(code@, p as int, name@) is None,
        },
    decreases code@.len() + 1 - p,
{
    match try_scalar(code, p, name) {
        Some(_) => Some(p),
        None => {
            if p == code.len() {
                None
            } else {
                find_scalar_from(code, p + 1, name)
            }
        },
    }
}

/// Read the tempo directive. Mirrors `spec_parse_tempo`.
pub fn parse_tempo(code: &Vec<char>) -> (r: Option<Tempo>)
    ensures
        r == spec_parse_tempo(code@),
{
    match find_tempo_lit_from(code, 0) {
        Some(p) => {
            match try_tempo_lit(code, p) {
                None => None,  // unreachable: the found position matches
                Some((a, b, c, d)) => {
                    match (try_read_u32(code, a, b), try_read_u32(code, c, d)) {
                        (Some(bu), Some(bpm)) => Some(Tempo { beat_unit: bu, bpm }),
                        _ => None,
                    }
                },
            }
        },
        None => {
            match find_tempo_var_from(code, 0) {
                None => None,
                Some(p) => {
                    match try_tempo_var(code, p) {
                        None => None,  // unreachable: the found position matches
                        Some((a, b, c, d)) => {
                            match try_read_u32(code, a, b) {
                                None => None,
                                Some(bu) => {
                                    let mut name: Vec<char> = Vec::new();
                                    push_range(&mut name, code, c, d);
                                    proof {
                                        assert(name@ =~= code@.subrange(c as int, d as int));
                                    }
                                    match find_scalar_from(code, 0, &name) {
                                        None => None,
                                        Some(p2) => {
                                            match try_scalar(code, p2, &name) {
                                                None => None,  // unreachable as above
                                                Some((x, y)) => {
                                                    match try_read_u32(code, x, y) {
                                                        Some(bpm) => Some(
                                                            Tempo { beat_unit: bu, bpm },
                                                        ),
                                                        None => None,
                                                    }
                                                },
                                            }
                                        },
                                    }
                                },
                            }
                        },
                    }
                },
            }
        },
    }
}

} // verus!
