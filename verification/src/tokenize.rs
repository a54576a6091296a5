//! The tokenizer: splits a staff region into whitespace-delimited tokens,
//! keeping a bracketed chord `<...>duration` together as one token (spaces
//! inside the bracket group, they do not separate).

use vstd::prelude::*;

use crate::chars::is_space;
use crate::chars::space_char;
use crate::chars::spec_trim;
use crate::chars::trim_chars;

verus! {

/// One step per character: `<` flushes the pending token and opens chord
/// mode, `>` closes it, whitespace flushes outside chord mode and becomes a
/// plain space inside it; at the end the pending token is flushed.
pub open spec fn spec_tok(
    s: Seq<char>,
    i: int,
    cur: Seq<char>,
    in_chord: bool,
    acc: Seq<Seq<char>>,
) -> Seq<Seq<char>>
    decreases s.len() - i,
{
    if i < 0 || i >= s.len() {
        if spec_trim(cur).len() > 0 {
            acc.push(spec_trim(cur))
        } else {
            acc
        }
    } else {
        let c = s[i];
        if c == '<' {
            let acc2 = if spec_trim(cur).len() > 0 {
                acc.push(spec_trim(cur))
            } else {
                acc
            };
            spec_tok(s, i + 1, seq!['<'], true, acc2)
        } else if c == '>' {
            spec_tok(s, i + 1, cur.push('>'), false, acc)
        } else if is_space(c) {
            if in_chord {
                spec_tok(s, i + 1, cur.push(' '), in_chord, acc)
            } else if cur.len() > 0 {
                spec_tok(s, i + 1, Seq::empty(), in_chord, acc.push(spec_trim(cur)))
            } else {
                spec_tok(s, i + 1, cur, in_chord, acc)
            }
        } else {
            spec_tok(s, i + 1, cur.push(c), in_chord, acc)
        }
    }
}

/// The non-empty tokens of `ts`, in order.
pub open spec fn keep_nonempty(ts: Seq<Seq<char>>, i: int, acc: Seq<Seq<char>>) -> Seq<Seq<char>>
    decreases ts.len() - i,
{
    if i < 0 || i >= ts.len() {
        acc
    } else if ts[i].len() > 0 {
        keep_nonempty(ts, i + 1, acc.push(ts[i]))
    } else {
        keep_nonempty(ts, i + 1, acc)
    }
}

/// The token sequence of a staff region.
pub open spec fn spec_tokenize(s: Seq<char>) -> Seq<Seq<char>> {
    keep_nonempty(spec_tok(s, 0, Seq::empty(), false, Seq::empty()), 0, Seq::empty())
}

fn tok_rec(s: &Vec<char>, i: usize, cur: Vec<char>, in_chord: bool, acc: Vec<Vec<char>>) -> (r: Vec<
    Vec<char>,
>)
    requires
        i <= s@.len(),
    ensures
        r.deep_view() == spec_tok(s@, i as int, cur@, in_chord, acc.deep_view()),
    decreases s@.len() - i,
{
    if i >= s.len() {
        let t = trim_chars(&cur);
        if t.len() > 0 {
            let mut acc2 = acc;
            let ghost av = acc2.deep_view();
            acc2.push(t);
            proof {
                assert(acc2.deep_view() =~~= av.push(spec_trim(cur@)));
            }
            acc2
        } else {
            acc
        }
    } else {
        let c = s[i];
        if c == '<' {
            let t = trim_chars(&cur);
            let acc2 = if t.len() > 0 {
                let mut a = acc;
                let ghost av = a.deep_view();
                a.push(t);
                proof {
                    assert(a.deep_view() =~~= av.push(spec_trim(cur@)));
                }
                a
            } else {
                acc
            };
            let mut c2: Vec<char> = Vec::new();
            c2.push('<');
            proof {
                assert(c2@ =~= seq!['<']);
            }
            tok_rec(s, i + 1, c2, true, acc2)
        } else if c == '>' {
            let mut c2 = cur;
            c2.push('>');
            tok_rec(s, i + 1, c2, false, acc)
        } else if space_char(c) {
            if in_chord {
                let mut c2 = cur;
                c2.push(' ');
                tok_rec(s, i + 1, c2, in_chord, acc)
            } else if cur.len() > 0 {
                let t = trim_chars(&cur);
                let mut a = acc;
                let ghost av = a.deep_view();
                a.push(t);
                proof {
                    assert(a.deep_view() =~~= av.push(spec_trim(cur@)));
                }
                tok_rec(s, i + 1, Vec::new(), in_chord, a)
            } else {
                tok_rec(s, i + 1, cur, in_chord, acc)
            }
        } else {
            let mut c2 = cur;
            c2.push(c);
            tok_rec(s, i + 1, c2, in_chord, acc)
        }
    }
}

/// Tokenize a staff region. Mirrors `spec_tokenize`.
pub fn tokenize(section: &Vec<char>) -> (r: Vec<Vec<char>>)
    ensures
        r.deep_view() == spec_tokenize(section@),
{
    let empty_cur: Vec<char> = Vec::new();
    let empty_acc: Vec<Vec<char>> = Vec::new();
    proof {
        assert(empty_acc.deep_view() =~= Seq::<Seq<char>>::empty());
    }
    let raw = tok_rec(section, 0, empty_cur, false, empty_acc);
    let mut out: Vec<Vec<char>> = Vec::new();
    let mut i: usize = 0;
    proof {
        assert(out.deep_view() =~= Seq::<Seq<char>>::empty());
    }
    while i < raw.len()
        invariant
            i <= raw@.len(),
            raw.deep_view() == spec_tok(section@, 0, Seq::empty(), false, Seq::empty()),
            keep_nonempty(raw.deep_view(), 0, Seq::empty()) == keep_nonempty(
                raw.deep_view(),
                i as int,
                out.deep_view(),
            ),
        decreases raw@.len() - i,
    {
        proof {
            assert(raw@[i as int]@ =~= raw.deep_view()[i as int]);
        }
        if raw[i].len() > 0 {
            let ghost ov = out.deep_view();
            let t = clone_chars(&raw[i]);
            out.push(t);
            proof {
                assert(out.deep_view() =~~= ov.push(raw.deep_view()[i as int]));
            }
        }
        i = i + 1;
    }
    proof {
        assert(keep_nonempty(raw.deep_view(), raw.deep_view().len() as int, out.deep_view())
            == out.deep_view());
    }
    out
}

/// A copy of a character vector.
pub fn clone_chars(v: &Vec<char>) -> (r: Vec<char>)
    ensures
        r@ == v@,
{
    let mut r: Vec<char> = Vec::new();
    let mut i: usize = 0;
    while i < v.len()
        invariant
            i <= v@.len(),
            r@ == v@.subrange(0, i as int),
        decreases v@.len() - i,
    {
        r.push(v[i]);
        i = i + 1;
        proof {
            assert(r@ =~= v@.subrange(0, i as int));
        }
    }
    proof {
        assert(r@ =~= v@);
    }
    r
}

} // verus!
