//! Balanced-brace extraction: given the position of an opening `{`, the
//! substring strictly between it and its matching `}`, honouring nesting.

use vstd::prelude::*;

use crate::chars::push_range;

verus! {

/// Index of the `}` that brings the nesting depth back to zero, scanning
/// from `i` at depth `depth`; `None` when the depth never returns to zero.
pub open spec fn brace_end(s: Seq<char>, i: int, depth: int) -> Option<int>
    decreases s.len() - i,
{
    if i < 0 || i >= s.len() {
        None
    } else if s[i] == '{' {
        brace_end(s, i + 1, depth + 1)
    } else if s[i] == '}' {
        if depth == 1 {
            Some(i)
        } else {
            brace_end(s, i + 1, depth - 1)
        }
    } else {
        brace_end(s, i + 1, depth)
    }
}

/// The content strictly between the `{` at `brace_start` and its matching
/// `}`, or `None` when the brace is never closed.
pub open spec fn spec_braced(s: Seq<char>, brace_start: int) -> Option<Seq<char>> {
    match brace_end(s, brace_start + 1, 1) {
        Option::Some(e) => Some(s.subrange(brace_start + 1, e)),
        Option::None => None,
    }
}

pub fn scan_brace_end(code: &Vec<char>, i: usize, depth: usize) -> (r: Option<usize>)
    requires
        i <= code@.len(),
        1 <= depth <= i,
    ensures
        match r {
            Some(e) => brace_end(code@, i as int, depth as int) == Some(e as int) && i <= e
                < code@.len(),
            None => brace_end(code@, i as int, depth as int) is None,
        },
    decreases code@.len() - i,
{
    if i >= code.len() {
        None
    } else if code[i] == '{' {
        scan_brace_end(code, i + 1, depth + 1)
    } else if code[i] == '}' {
        if depth == 1 {
            Some(i)
        } else {
            scan_brace_end(code, i + 1, depth - 1)
        }
    } else {
        scan_brace_end(code, i + 1, depth)
    }
}

/// Extract the content between the `{` at `brace_start` and its matching
/// `}`. Mirrors `spec_braced`.
pub fn extract_braced_content(code: &Vec<char>, brace_start: usize) -> (r: Option<Vec<char>>)
    requires
        brace_start < code@.len(),
    ensures
        match r {
            Some(v) => spec_braced(code@, brace_start as int) == Some(v@),
            None => spec_braced(code@, brace_start as int) is None,
        },
{
    let n = code.len();
    proof {
        assert(brace_start < n);
    }
    match scan_brace_end(code, brace_start + 1, 1) {
        None => None,
        Some(e) => {
            let mut out: Vec<char> = Vec::new();
            push_range(&mut out, code, brace_start + 1, e);
            Some(out)
        },
    }
}

} // verus!
