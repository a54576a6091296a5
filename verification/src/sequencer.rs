//! The bar-sequence assembler: a sequence of named pattern snippets
//! (each a set of percussive voices) is stitched into notation text for
//! the core, bar separators and repeat constructs included. Pattern
//! snippets arrive pre-resolved in a lookup table; reading them from
//! files is the caller's business.

use vstd::prelude::*;

use crate::chars::chars_of;
use crate::chars::push_chars;
use crate::chars::push_str_chars;
use crate::chars::spec_trim;
use crate::chars::string_of;
use crate::chars::trim_chars;
use crate::chars::spec_u32_str;
use crate::chars::u32_chars;
use crate::pattern::join_chars;
use crate::pattern::spec_join;

verus! {

broadcast use vstd::std_specs::vec::group_vec_axioms;

/// One pattern snippet: a description and one notation line per voice.
#[derive(Debug)]
pub struct Pattern {
    pub description: String,
    pub voices: Vec<String>,
}

/// One bar of the sequence, naming the pattern snippet it plays.
#[derive(Debug)]
pub struct Bar {
    pub pattern_name: String,
}

/// A sequence element: one bar, a group, or a repeated bar or group.
#[derive(Debug)]
pub enum EBarSequence {
    Single(Bar),
    Group(Vec<EBarSequence>),
    RepeatBar(u32, Bar),
    RepeatGroup(u32, Vec<EBarSequence>),
}

/// One sequence entry with its display description.
#[derive(Debug)]
pub struct SequenceItem {
    pub item: EBarSequence,
    pub description: String,
}

/// A whole bar sequence: tempo and entries in playing order.
#[derive(Debug)]
pub struct BarSequence {
    pub tempo: u32,
    pub sequence: Vec<SequenceItem>,
}

/// A pattern snippet under the name the sequence refers to it by.
#[derive(Debug)]
pub struct NamedPattern {
    pub name: String,
    pub pattern: Pattern,
}

/// One snippet block: each voice on its own `\new DrumVoice` line,
/// wrapped in a simultaneous block.
pub open spec fn spec_snippet_block(p: Pattern) -> Seq<char> {
    "<<\n"@ + spec_join(
        Seq::new(
            p.voices@.len(),
            |i: int| "  \\new DrumVoice { "@ + spec_trim(p.voices@[i]@) + " }"@,
        ),
        "\n"@,
    ) + "\n>>"@
}

/// The notation text of several snippets, one block per snippet.
pub open spec fn spec_bar_snippet(ps: Seq<Pattern>) -> Seq<char> {
    spec_join(Seq::new(ps.len(), |i: int| spec_snippet_block(ps[i])), "\n"@)
}

/// Render pattern snippets as notation blocks. Mirrors
/// `spec_bar_snippet`.
pub fn lilypond_bar_of_snippet(patterns: &[Pattern]) -> (r: String)
    ensures
        r@ == spec_bar_snippet(patterns@),
{
    let ghost parts = Seq::new(patterns@.len(), |i: int| spec_snippet_block(patterns@[i]));
    let mut blocks: Vec<Vec<char>> = Vec::new();
    let mut i: usize = 0;
    while i < patterns.len()
        invariant
            parts == Seq::new(patterns@.len(), |k: int| spec_snippet_block(patterns@[k])),
            i <= patterns@.len(),
            blocks@.len() == i,
            forall|k: int| 0 <= k < i ==> #[trigger] blocks.deep_view()[k] == parts[k],
        decreases patterns@.len() - i,
    {
        let p = &patterns[i];
        let ghost vlines = Seq::new(
            p.voices@.len(),
            |k: int| "  \\new DrumVoice { "@ + spec_trim(p.voices@[k]@) + " }"@,
        );
        let mut lines: Vec<Vec<char>> = Vec::new();
        let mut j: usize = 0;
        while j < p.voices.len()
            invariant
                vlines == Seq::new(
                    p.voices@.len(),
                    |k: int| "  \\new DrumVoice { "@ + spec_trim(p.voices@[k]@) + " }"@,
                ),
                j <= p.voices@.len(),
                lines@.len() == j,
                forall|k: int| 0 <= k < j ==> #[trigger] lines.deep_view()[k] == vlines[k],
            decreases p.voices@.len() - j,
        {
            let vc = chars_of(p.voices[j].as_str());
            let vt = trim_chars(&vc);
            let mut line: Vec<char> = Vec::new();
            push_str_chars(&mut line, "  \\new DrumVoice { ");
            push_chars(&mut line, &vt);
            push_str_chars(&mut line, " }");
            proof {
                assert(line@ =~= vlines[j as int]);
            }
            let ghost dv = lines.deep_view();
            lines.push(line);
            j = j + 1;
            proof {
                assert(lines.deep_view() =~~= dv.push(line@));
            }
        }
        proof {
            assert(lines.deep_view() =~~= vlines);
        }
        let joined = join_chars(&lines, "\n");
        let mut block: Vec<char> = Vec::new();
        push_str_chars(&mut block, "<<\n");
        push_chars(&mut block, &joined);
        push_str_chars(&mut block, "\n>>");
        proof {
            assert(block@ =~= spec_snippet_block(patterns@[i as int]));
        }
        let ghost dv = blocks.deep_view();
        blocks.push(block);
        i = i + 1;
        proof {
            assert(blocks.deep_view() =~~= dv.push(block@));
        }
    }
    proof {
        assert(blocks.deep_view() =~~= parts);
    }
    let joined = join_chars(&blocks, "\n");
    proof {
        assert(joined@ =~= spec_bar_snippet(patterns@));
    }
    string_of(&joined)
}

/// The name the first bar of the tree refers to, searching groups depth
/// first.
pub open spec fn spec_first_bar_in(item: EBarSequence) -> Option<Seq<char>>
    decreases item,
{
    match item {
        EBarSequence::Single(b) => Some(b.pattern_name@),
        EBarSequence::RepeatBar(_, b) => Some(b.pattern_name@),
        EBarSequence::Group(inner) => spec_first_bar_list(inner@),
        EBarSequence::RepeatGroup(_, inner) => spec_first_bar_list(inner@),
    }
}

pub open spec fn spec_first_bar_list(items: Seq<EBarSequence>) -> Option<Seq<char>>
    decreases items, items.len(),
{
    if items.len() == 0 {
        None
    } else {
        match spec_first_bar_in(items[0]) {
            Option::Some(n) => Some(n),
            Option::None => spec_first_bar_list(items.drop_first()),
        }
    }
}

fn first_bar_in<'a>(item: &'a EBarSequence) -> (r: Option<&'a Bar>)
    ensures
        match r {
            Some(b) => spec_first_bar_in(*item) == Some(b.pattern_name@),
            None => spec_first_bar_in(*item) is None,
        },
    decreases *item,
{
    match item {
        EBarSequence::Single(b) => Some(b),
        EBarSequence::RepeatBar(_, b) => Some(b),
        EBarSequence::Group(inner) => {
            let mut k: usize = 0;
            proof {
                assert(inner@.subrange(0, inner@.len() as int) =~= inner@);
            }
            while k < inner.len()
                invariant
                    k <= inner@.len(),
                    spec_first_bar_list(inner@) == spec_first_bar_list(
                        inner@.subrange(k as int, inner@.len() as int),
                    ),
                    *item == EBarSequence::Group(*inner),
                decreases inner@.len() - k,
            {
                let ghost sub = inner@.subrange(k as int, inner@.len() as int);
                proof {
                    assert(sub[0] == inner@[k as int]);
                    assert(sub.drop_first() =~= inner@.subrange(k + 1 as int, inner@.len() as int));
                    assert(decreases_to!(*item => *inner));
                    assert(decreases_to!(*inner => inner@[k as int]));
                }
                match first_bar_in(&inner[k]) {
                    Some(b) => {
                        return Some(b);
                    },
                    None => {},
                }
                k = k + 1;
            }
            proof {
                assert(inner@.subrange(inner@.len() as int, inner@.len() as int) =~= Seq::<
                    EBarSequence,
                >::empty());
            }
            None
        },
        EBarSequence::RepeatGroup(cnt, inner) => {
            let mut k: usize = 0;
            proof {
                assert(inner@.subrange(0, inner@.len() as int) =~= inner@);
            }
            while k < inner.len()
                invariant
                    k <= inner@.len(),
                    spec_first_bar_list(inner@) == spec_first_bar_list(
                        inner@.subrange(k as int, inner@.len() as int),
                    ),
                    *item == EBarSequence::RepeatGroup(*cnt, *inner),
                decreases inner@.len() - k,
            {
                let ghost sub = inner@.subrange(k as int, inner@.len() as int);
                proof {
                    assert(sub[0] == inner@[k as int]);
                    assert(sub.drop_first() =~= inner@.subrange(k + 1 as int, inner@.len() as int));
                    assert(decreases_to!(*item => *inner));
                    assert(decreases_to!(*inner => inner@[k as int]));
                }
                match first_bar_in(&inner[k]) {
                    Some(b) => {
                        return Some(b);
                    },
                    None => {},
                }
                k = k + 1;
            }
            proof {
                assert(inner@.subrange(inner@.len() as int, inner@.len() as int) =~= Seq::<
                    EBarSequence,
                >::empty());
            }
            None
        },
    }
}

/// The first bar of a sequence tree, searching groups depth first.
/// Mirrors `spec_first_bar_list`.
pub fn find_first_bar<'a>(items: &'a [EBarSequence]) -> (r: Option<&'a Bar>)
    ensures
        match r {
            Some(b) => spec_first_bar_list(items@) == Some(b.pattern_name@),
            None => spec_first_bar_list(items@) is None,
        },
{
    let mut i: usize = 0;
    proof {
        assert(items@.subrange(0, items@.len() as int) =~= items@);
    }
    while i < items.len()
        invariant
            i <= items@.len(),
            spec_first_bar_list(items@) == spec_first_bar_list(
                items@.subrange(i as int, items@.len() as int),
            ),
        decreases items@.len() - i,
    {
        let ghost sub = items@.subrange(i as int, items@.len() as int);
        proof {
            assert(sub[0] == items@[i as int]);
            assert(sub.drop_first() =~= items@.subrange(i + 1 as int, items@.len() as int));
        }
        match first_bar_in(&items[i]) {
            Some(b) => {
                return Some(b);
            },
            None => {},
        }
        i = i + 1;
    }
    proof {
        assert(items@.subrange(items@.len() as int, items@.len() as int) =~= Seq::<
            EBarSequence,
        >::empty());
    }
    None
}

/// The first table entry under a name, if any.
pub open spec fn lookup_named(lib: Seq<NamedPattern>, name: Seq<char>, i: int) -> Option<int>
    decreases lib.len() - i,
{
    if i < 0 || i >= lib.len() {
        None
    } else if lib[i].name@ == name {
        Some(i)
    } else {
        lookup_named(lib, name, i + 1)
    }
}

fn lookup_pattern<'a>(lib: &'a Vec<NamedPattern>, name: &str) -> (r: Option<&'a Pattern>)
    ensures
        match r {
            Some(p) => lookup_named(lib@, name@, 0) matches Some(k) && 0 <= k < lib@.len()
                && lib@[k].pattern == *p,
            None => lookup_named(lib@, name@, 0) is None,
        },
{
    let mut i: usize = 0;
    while i < lib.len()
        invariant
            i <= lib@.len(),
            lookup_named(lib@, name@, 0) == lookup_named(lib@, name@, i as int),
        decreases lib@.len() - i,
    {
        if crate::chars::str_eq(lib[i].name.as_str(), name) {
            return Some(&lib[i].pattern);
        }
        i = i + 1;
    }
    None
}

/// The named voice line of a snippet; a snippet with fewer voices
/// contributes an empty line for the missing index.
pub open spec fn voice_of(p: Pattern, vidx: int) -> Seq<char> {
    if 0 <= vidx < p.voices@.len() {
        p.voices@[vidx]@
    } else {
        Seq::empty()
    }
}

/// The lines one sequence element contributes to a voice, or the name of
/// a pattern the table does not hold.
pub ghost enum GenLines {
    Lines(Seq<Seq<char>>, bool),
    Missing(Seq<char>),
}

/// The optional bar separator and comment lines that precede an element.
pub open spec fn pre_lines(indent: Seq<char>, comment: Option<Seq<char>>, sep: bool) -> Seq<
    Seq<char>,
> {
    (if sep {
        seq![indent + "|"@]
    } else {
        Seq::empty()
    }) + (match comment {
        Option::Some(c) => seq![indent + "% @strudel-of-lilypond@ comment "@ + c],
        Option::None => Seq::empty(),
    })
}

/// The lines of one sequence element: a bar separator when one is due, a
/// comment directive when one is given, then the element's own notation;
/// the flag says whether the next element needs a separator first.
pub open spec fn spec_item_lines(
    item: EBarSequence,
    lib: Seq<NamedPattern>,
    vidx: int,
    indent: Seq<char>,
    comment: Option<Seq<char>>,
    sep: bool,
) -> GenLines
    decreases item,
{
    match item {
        EBarSequence::Single(b) => {
            match lookup_named(lib, b.pattern_name@, 0) {
                Option::None => GenLines::Missing(b.pattern_name@),
                Option::Some(k) => GenLines::Lines(
                    pre_lines(indent, comment, sep) + seq![
                        indent + spec_trim(voice_of(lib[k].pattern, vidx)),
                    ],
                    true,
                ),
            }
        },
        EBarSequence::Group(inner) => {
            match spec_list_lines(inner@, 0, lib, vidx, indent, comment, sep, Seq::empty()) {
                GenLines::Missing(n) => GenLines::Missing(n),
                GenLines::Lines(ls, sep2) => GenLines::Lines(seq![spec_join(ls, "\n"@)], sep2),
            }
        },
        EBarSequence::RepeatBar(cnt, b) => {
            match lookup_named(lib, b.pattern_name@, 0) {
                Option::None => GenLines::Missing(b.pattern_name@),
                Option::Some(k) => GenLines::Lines(
                    pre_lines(indent, comment, sep) + seq![
                        indent + "\\repeat volta "@ + spec_u32_str(cnt) + " {"@,
                        indent + "  "@ + spec_trim(voice_of(lib[k].pattern, vidx)),
                        indent + "}"@,
                    ],
                    false,
                ),
            }
        },
        EBarSequence::RepeatGroup(cnt, inner) => {
            match spec_list_lines(
                inner@,
                0,
                lib,
                vidx,
                indent + "  "@,
                None,
                false,
                Seq::empty(),
            ) {
                GenLines::Missing(n) => GenLines::Missing(n),
                GenLines::Lines(ls, _) => GenLines::Lines(
                    pre_lines(indent, comment, sep) + seq![
                        indent + "\\repeat volta "@ + spec_u32_str(cnt) + " {"@,
                        spec_join(ls, "\n"@),
                        indent + "}"@,
                    ],
                    false,
                ),
            }
        },
    }
}

/// The lines of a list of elements, the given comment applying to the
/// first one only, the separator flag threading through.
pub open spec fn spec_list_lines(
    items: Seq<EBarSequence>,
    i: int,
    lib: Seq<NamedPattern>,
    vidx: int,
    indent: Seq<char>,
    comment: Option<Seq<char>>,
    sep: bool,
    acc: Seq<Seq<char>>,
) -> GenLines
    decreases items, items.len() - i,
{
    if i < 0 || i >= items.len() {
        GenLines::Lines(acc, sep)
    } else {
        let c = if i == 0 {
            comment
        } else {
            None
        };
        match spec_item_lines(items[i], lib, vidx, indent, c, sep) {
            GenLines::Missing(n) => GenLines::Missing(n),
            GenLines::Lines(ls, sep2) => spec_list_lines(
                items,
                i + 1,
                lib,
                vidx,
                indent,
                comment,
                sep2,
                acc + ls,
            ),
        }
    }
}

/// The comment text a caller handed in, viewed.
pub open spec fn cmt_view(c: Option<&Vec<char>>) -> Option<Seq<char>> {
    match c {
        Option::Some(v) => Some(v@),
        Option::None => None,
    }
}

fn voice_line(p: &Pattern, vidx: usize) -> (r: Vec<char>)
    ensures
        r@ == spec_trim(voice_of(*p, vidx as int)),
{
    if vidx < p.voices.len() {
        let vc = chars_of(p.voices[vidx].as_str());
        trim_chars(&vc)
    } else {
        let empty: Vec<char> = Vec::new();
        let r = trim_chars(&empty);
        r
    }
}

fn pre_lines_exec(indent: &Vec<char>, comment: Option<&Vec<char>>, sep: bool) -> (r: Vec<Vec<char>>)
    ensures
        r.deep_view() == pre_lines(indent@, cmt_view(comment), sep),
{
    let mut out: Vec<Vec<char>> = Vec::new();
    if sep {
        let mut line = crate::tokenize::clone_chars(indent);
        push_str_chars(&mut line, "|");
        let ghost dv = out.deep_view();
        out.push(line);
        proof {
            assert(out.deep_view() =~~= dv.push(indent@ + "|"@));
        }
    }
    match comment {
        Some(c) => {
            let mut line = crate::tokenize::clone_chars(indent);
            push_str_chars(&mut line, "% @strudel-of-lilypond@ comment ");
            push_chars(&mut line, c);
            let ghost dv = out.deep_view();
            out.push(line);
            proof {
                assert(out.deep_view() =~~= dv.push(
                    indent@ + "% @strudel-of-lilypond@ comment "@ + c@,
                ));
                assert(out.deep_view() =~~= pre_lines(indent@, cmt_view(comment), sep));
            }
        },
        None => {
            proof {
                assert(out.deep_view() =~~= pre_lines(indent@, cmt_view(comment), sep));
            }
        },
    }
    out
}

fn missing_message(name: &String) -> (r: String)
    ensures
        r@ == "pattern '"@ + name@ + "' not found"@,
{
    let mut out: Vec<char> = Vec::new();
    push_str_chars(&mut out, "pattern '");
    let nv = chars_of(name.as_str());
    push_chars(&mut out, &nv);
    push_str_chars(&mut out, "' not found");
    proof {
        assert(out@ =~= "pattern '"@ + name@ + "' not found"@);
    }
    string_of(&out)
}

fn repeat_header(indent: &Vec<char>, cnt: u32) -> (r: Vec<char>)
    ensures
        r@ == indent@ + "\\repeat volta "@ + spec_u32_str(cnt) + " {"@,
{
    let mut line = crate::tokenize::clone_chars(indent);
    push_str_chars(&mut line, "\\repeat volta ");
    let d = u32_chars(cnt);
    push_chars(&mut line, &d);
    push_str_chars(&mut line, " {");
    proof {
        assert(line@ =~= indent@ + "\\repeat volta "@ + spec_u32_str(cnt) + " {"@);
    }
    line
}

/// The lines one element contributes. Mirrors `spec_item_lines`.
fn gen_item_lines(
    item: &EBarSequence,
    lib: &Vec<NamedPattern>,
    vidx: usize,
    indent: &Vec<char>,
    comment: Option<&Vec<char>>,
    sep: bool,
) -> (r: Result<(Vec<Vec<char>>, bool), String>)
    ensures
        match r {
            Ok((ls, s2)) => spec_item_lines(
                *item,
                lib@,
                vidx as int,
                indent@,
                cmt_view(comment),
                sep,
            ) == GenLines::Lines(ls.deep_view(), s2),
            Err(m) => spec_item_lines(*item, lib@, vidx as int, indent@, cmt_view(comment), sep)
                matches GenLines::Missing(n) && m@ == "pattern '"@ + n + "' not found"@,
        },
    decreases *item,
{
    match item {
        EBarSequence::Single(b) => {
            match lookup_pattern(lib, b.pattern_name.as_str()) {
                None => Err(missing_message(&b.pattern_name)),
                Some(p) => {
                    let mut ls = pre_lines_exec(indent, comment, sep);
                    let mut line = crate::tokenize::clone_chars(indent);
                    let v = voice_line(p, vidx);
                    push_chars(&mut line, &v);
                    let ghost dv = ls.deep_view();
                    ls.push(line);
                    proof {
                        let k = lookup_named(lib@, b.pattern_name@, 0).unwrap();
                        assert(ls.deep_view() =~~= dv.push(
                            indent@ + spec_trim(voice_of(lib@[k].pattern, vidx as int)),
                        ));
                        assert(ls.deep_view() =~~= pre_lines(indent@, cmt_view(comment), sep)
                            + seq![indent@ + spec_trim(voice_of(lib@[k].pattern, vidx as int))]);
                    }
                    Ok((ls, true))
                },
            }
        },
        EBarSequence::RepeatBar(cnt, b) => {
            match lookup_pattern(lib, b.pattern_name.as_str()) {
                None => Err(missing_message(&b.pattern_name)),
                Some(p) => {
                    let mut ls = pre_lines_exec(indent, comment, sep);
                    let header = repeat_header(indent, *cnt);
                    let mut mid = crate::tokenize::clone_chars(indent);
                    push_str_chars(&mut mid, "  ");
                    let v = voice_line(p, vidx);
                    push_chars(&mut mid, &v);
                    let mut closer = crate::tokenize::clone_chars(indent);
                    push_str_chars(&mut closer, "}");
                    let ghost dv = ls.deep_view();
                    ls.push(header);
                    ls.push(mid);
                    ls.push(closer);
                    proof {
                        let k = lookup_named(lib@, b.pattern_name@, 0).unwrap();
                        assert(ls.deep_view() =~~= pre_lines(indent@, cmt_view(comment), sep)
                            + seq![
                            indent@ + "\\repeat volta "@ + spec_u32_str(*cnt) + " {"@,
                            indent@ + "  "@ + spec_trim(voice_of(lib@[k].pattern, vidx as int)),
                            indent@ + "}"@,
                        ]);
                    }
                    Ok((ls, false))
                },
            }
        },
        EBarSequence::Group(inner) => {
            let mut acc: Vec<Vec<char>> = Vec::new();
            let mut cur_sep = sep;
            let mut k: usize = 0;
            proof {
                assert(acc.deep_view() =~= Seq::<Seq<char>>::empty());
            }
            loop
                invariant
                    k <= inner@.len(),
                    *item == EBarSequence::Group(*inner),
                    spec_list_lines(
                        inner@,
                        0,
                        lib@,
                        vidx as int,
                        indent@,
                        cmt_view(comment),
                        sep,
                        Seq::empty(),
                    ) == spec_list_lines(
                        inner@,
                        k as int,
                        lib@,
                        vidx as int,
                        indent@,
                        cmt_view(comment),
                        cur_sep,
                        acc.deep_view(),
                    ),
                decreases inner@.len() - k,
            {
                if k >= inner.len() {
                    let joined = join_chars(&acc, "\n");
                    let mut one: Vec<Vec<char>> = Vec::new();
                    one.push(joined);
                    proof {
                        assert(one.deep_view() =~~= seq![
                            spec_join(acc.deep_view(), "\n"@),
                        ]);
                    }
                    return Ok((one, cur_sep));
                }
                let ck: Option<&Vec<char>> = if k == 0 {
                    comment
                } else {
                    None
                };
                proof {
                    assert(decreases_to!(*item => *inner));
                    assert(decreases_to!(*inner => inner@[k as int]));
                    assert(cmt_view(ck) == (if k == 0 {
                        cmt_view(comment)
                    } else {
                        Option::<Seq<char>>::None
                    }));
                }
                match gen_item_lines(&inner[k], lib, vidx, indent, ck, cur_sep) {
                    Err(m) => {
                        return Err(m);
                    },
                    Ok((ls, s2)) => {
                        let ghost av = acc.deep_view();
                        let ghost lv = ls.deep_view();
                        let mut ls2 = ls;
                        acc.append(&mut ls2);
                        cur_sep = s2;
                        k = k + 1;
                        proof {
                            assert(acc.deep_view() =~~= av + lv);
                        }
                    },
                }
            }
        },
        EBarSequence::RepeatGroup(cnt, inner) => {
            let mut indent2 = crate::tokenize::clone_chars(indent);
            push_str_chars(&mut indent2, "  ");
            let mut acc: Vec<Vec<char>> = Vec::new();
            let mut cur_sep = false;
            let mut k: usize = 0;
            proof {
                assert(acc.deep_view() =~= Seq::<Seq<char>>::empty());
            }
            loop
                invariant
                    k <= inner@.len(),
                    *item == EBarSequence::RepeatGroup(*cnt, *inner),
                    indent2@ == indent@ + "  "@,
                    spec_list_lines(
                        inner@,
                        0,
                        lib@,
                        vidx as int,
                        indent@ + "  "@,
                        None,
                        false,
                        Seq::empty(),
                    ) == spec_list_lines(
                        inner@,
                        k as int,
                        lib@,
                        vidx as int,
                        indent@ + "  "@,
                        None,
                        cur_sep,
                        acc.deep_view(),
                    ),
                decreases inner@.len() - k,
            {
                if k >= inner.len() {
                    let mut ls = pre_lines_exec(indent, comment, sep);
                    let header = repeat_header(indent, *cnt);
                    let joined = join_chars(&acc, "\n");
                    let mut closer = crate::tokenize::clone_chars(indent);
                    push_str_chars(&mut closer, "}");
                    let ghost dv = ls.deep_view();
                    ls.push(header);
                    ls.push(joined);
                    ls.push(closer);
                    proof {
                        assert(ls.deep_view() =~~= pre_lines(indent@, cmt_view(comment), sep)
                            + seq![
                            indent@ + "\\repeat volta "@ + spec_u32_str(*cnt) + " {"@,
                            spec_join(acc.deep_view(), "\n"@),
                            indent@ + "}"@,
                        ]);
                    }
                    return Ok((ls, false));
                }
                proof {
                    assert(decreases_to!(*item => *inner));
                    assert(decreases_to!(*inner => inner@[k as int]));
                }
                match gen_item_lines(&inner[k], lib, vidx, &indent2, None, cur_sep) {
                    Err(m) => {
                        return Err(m);
                    },
                    Ok((ls, s2)) => {
                        let ghost av = acc.deep_view();
                        let ghost lv = ls.deep_view();
                        let mut ls2 = ls;
                        acc.append(&mut ls2);
                        cur_sep = s2;
                        k = k + 1;
                        proof {
                            assert(acc.deep_view() =~~= av + lv);
                        }
                    },
                }
            }
        },
    }
}

/// The indentation of voice content inside the generated score.
pub open spec fn content_indent() -> Seq<char> {
    "            "@
}

/// Parts of one voice: each sequence entry's lines joined, the entry's
/// description standing as the comment of its first bar, the separator
/// flag threading across entries.
pub open spec fn spec_voice_parts(
    items: Seq<SequenceItem>,
    i: int,
    lib: Seq<NamedPattern>,
    vidx: int,
    sep: bool,
    acc: Seq<Seq<char>>,
) -> GenLines
    decreases items.len() - i,
{
    if i < 0 || i >= items.len() {
        GenLines::Lines(acc, sep)
    } else {
        match spec_item_lines(
            items[i].item,
            lib,
            vidx,
            content_indent(),
            Some(items[i].description@),
            sep,
        ) {
            GenLines::Missing(n) => GenLines::Missing(n),
            GenLines::Lines(ls, s2) => spec_voice_parts(
                items,
                i + 1,
                lib,
                vidx,
                s2,
                acc.push(spec_join(ls, "\n"@)),
            ),
        }
    }
}

/// The voice directive of the first four voices.
pub open spec fn voice_directive(vidx: int) -> Seq<char> {
    if vidx == 0 {
        "\\voiceOne"@
    } else if vidx == 1 {
        "\\voiceTwo"@
    } else if vidx == 2 {
        "\\voiceThree"@
    } else if vidx == 3 {
        "\\voiceFour"@
    } else {
        Seq::empty()
    }
}

/// The rendered voice blocks of the score, or a missing pattern name.
pub ghost enum GenBlocks {
    Blocks(Seq<Seq<char>>),
    Missing(Seq<char>),
}

pub open spec fn spec_voice_blocks(
    items: Seq<SequenceItem>,
    lib: Seq<NamedPattern>,
    vidx: int,
    nv: int,
    acc: Seq<Seq<char>>,
) -> GenBlocks
    decreases nv - vidx,
{
    if vidx >= nv {
        GenBlocks::Blocks(acc)
    } else {
        match spec_voice_parts(items, 0, lib, vidx, false, Seq::empty()) {
            GenLines::Missing(n) => GenBlocks::Missing(n),
            GenLines::Lines(parts, _) => spec_voice_blocks(
                items,
                lib,
                vidx + 1,
                nv,
                acc.push(
                    "        \\new DrumVoice {\n          "@ + voice_directive(vidx) + "\n"@
                        + spec_join(parts, "\n"@) + "\n        }"@,
                ),
            ),
        }
    }
}

/// The name of the first bar across the sequence entries.
pub open spec fn spec_first_item_bar(items: Seq<SequenceItem>, i: int) -> Option<Seq<char>>
    decreases items.len() - i,
{
    if i < 0 || i >= items.len() {
        None
    } else {
        match spec_first_bar_in(items[i].item) {
            Option::Some(n) => Some(n),
            Option::None => spec_first_item_bar(items, i + 1),
        }
    }
}

/// The fixed document text around the generated score.
pub open spec fn score_head_text() -> Seq<char> {
    "\\version \"2.24.4\"\n\n\\paper {\n  #(include-special-characters)\n  indent = 0\\mm\n  line-width = 180\\mm\n  oddHeaderMarkup = \"\"\n  evenHeaderMarkup = \"\"\n  oddFooterMarkup = \"\"\n  evenFooterMarkup = \"\"\n  #(add-text-replacements!\n    '((\"100\" . \"hundred\")\n      (\"dpi\" . \"dots per inch\")))\n}\n\n\\score {\n  <<\n    \\tempo 4 = "@
}

fn score_head() -> (r: &'static str)
    ensures
        r@ == score_head_text(),
{
    "\\version \"2.24.4\"\n\n\\paper {\n  #(include-special-characters)\n  indent = 0\\mm\n  line-width = 180\\mm\n  oddHeaderMarkup = \"\"\n  evenHeaderMarkup = \"\"\n  oddFooterMarkup = \"\"\n  evenFooterMarkup = \"\"\n  #(add-text-replacements!\n    '((\"100\" . \"hundred\")\n      (\"dpi\" . \"dots per inch\")))\n}\n\n\\score {\n  <<\n    \\tempo 4 = "
}

pub open spec fn score_mid_text() -> Seq<char> {
    "\n\n    \\new DrumStaff {\n      <<\n"@
}

fn score_mid() -> (r: &'static str)
    ensures
        r@ == score_mid_text(),
{
    "\n\n    \\new DrumStaff {\n      <<\n"
}

pub open spec fn score_tail_text() -> Seq<char> {
    "\n      >>\n    }\n  >>\n\n  \\layout {}\n}\n"@
}

fn score_tail() -> (r: &'static str)
    ensures
        r@ == score_tail_text(),
{
    "\n      >>\n    }\n  >>\n\n  \\layout {}\n}\n"
}

/// The outcome of assembling a whole sequence.
pub ghost enum GAssemble {
    Done(Seq<char>),
    Empty,
    Missing(Seq<char>),
}

/// The assembled score: one `DrumVoice` block per voice of the first
/// bar's pattern, each voice carrying every sequence entry in order.
pub open spec fn spec_lilypond_of_sequence(bs: BarSequence, lib: Seq<NamedPattern>) -> GAssemble {
    match spec_first_item_bar(bs.sequence@, 0) {
        Option::None => GAssemble::Empty,
        Option::Some(name) => {
            match lookup_named(lib, name, 0) {
                Option::None => GAssemble::Missing(name),
                Option::Some(k) => {
                    let nv = lib[k].pattern.voices@.len() as int;
                    match spec_voice_blocks(bs.sequence@, lib, 0, nv, Seq::empty()) {
                        GenBlocks::Missing(n) => GAssemble::Missing(n),
                        GenBlocks::Blocks(bl) => GAssemble::Done(
                            score_head_text() + spec_u32_str(bs.tempo) + score_mid_text()
                                + spec_join(bl, "\n"@) + score_tail_text(),
                        ),
                    }
                },
            }
        },
    }
}

fn first_item_bar<'a>(items: &'a Vec<SequenceItem>) -> (r: Option<&'a Bar>)
    ensures
        match r {
            Some(b) => spec_first_item_bar(items@, 0) == Some(b.pattern_name@),
            None => spec_first_item_bar(items@, 0) is None,
        },
{
    let mut i: usize = 0;
    while i < items.len()
        invariant
            i <= items@.len(),
            spec_first_item_bar(items@, 0) == spec_first_item_bar(items@, i as int),
        decreases items@.len() - i,
    {
        match first_bar_in(&items[i].item) {
            Some(b) => {
                return Some(b);
            },
            None => {},
        }
        i = i + 1;
    }
    None
}

fn content_indent_vec() -> (r: Vec<char>)
    ensures
        r@ == content_indent(),
{
    let mut v: Vec<char> = Vec::new();
    push_str_chars(&mut v, "            ");
    v
}

fn voice_directive_of(vidx: usize) -> (r: &'static str)
    ensures
        r@ == voice_directive(vidx as int),
{
    if vidx == 0 {
        "\\voiceOne"
    } else if vidx == 1 {
        "\\voiceTwo"
    } else if vidx == 2 {
        "\\voiceThree"
    } else if vidx == 3 {
        "\\voiceFour"
    } else {
        proof {
            reveal_strlit("");
            assert(""@ =~= Seq::<char>::empty());
        }
        ""
    }
}

fn gen_list_exec(
    items: &[EBarSequence],
    lib: &Vec<NamedPattern>,
    vidx: usize,
    indent: &Vec<char>,
    comment: Option<&Vec<char>>,
    sep: bool,
) -> (r: Result<(Vec<Vec<char>>, bool), String>)
    ensures
        match r {
            Ok((ls, s2)) => spec_list_lines(
                items@,
                0,
                lib@,
                vidx as int,
                indent@,
                cmt_view(comment),
                sep,
                Seq::empty(),
            ) == GenLines::Lines(ls.deep_view(), s2),
            Err(m) => spec_list_lines(
                items@,
                0,
                lib@,
                vidx as int,
                indent@,
                cmt_view(comment),
                sep,
                Seq::empty(),
            ) matches GenLines::Missing(n) && m@ == "pattern '"@ + n + "' not found"@,
        },
{
    let mut acc: Vec<Vec<char>> = Vec::new();
    let mut cur_sep = sep;
    let mut k: usize = 0;
    proof {
        assert(acc.deep_view() =~= Seq::<Seq<char>>::empty());
    }
    while k < items.len()
        invariant
            k <= items@.len(),
            spec_list_lines(
                items@,
                0,
                lib@,
                vidx as int,
                indent@,
                cmt_view(comment),
                sep,
                Seq::empty(),
            ) == spec_list_lines(
                items@,
                k as int,
                lib@,
                vidx as int,
                indent@,
                cmt_view(comment),
                cur_sep,
                acc.deep_view(),
            ),
        decreases items@.len() - k,
    {
        let ck: Option<&Vec<char>> = if k == 0 {
            comment
        } else {
            None
        };
        proof {
            assert(cmt_view(ck) == (if k == 0 {
                cmt_view(comment)
            } else {
                Option::<Seq<char>>::None
            }));
        }
        match gen_item_lines(&items[k], lib, vidx, indent, ck, cur_sep) {
            Err(m) => {
                return Err(m);
            },
            Ok((ls, s2)) => {
                let ghost av = acc.deep_view();
                let ghost lv = ls.deep_view();
                let mut ls2 = ls;
                acc.append(&mut ls2);
                cur_sep = s2;
                k = k + 1;
                proof {
                    assert(acc.deep_view() =~~= av + lv);
                }
            },
        }
    }
    Ok((acc, cur_sep))
}

/// The notation lines a sequence slice contributes to one voice, joined;
/// the flag says whether the next element needs a bar separator first.
/// Mirrors `spec_list_lines`.
pub fn generate_voice_content(
    sequence: &[EBarSequence],
    lib: &Vec<NamedPattern>,
    voice_idx: usize,
    indent: &str,
    comment: Option<&str>,
    need_bar_sep: bool,
) -> (r: Result<(String, bool), String>)
    ensures
        match r {
            Ok((text, s2)) => spec_list_lines(
                sequence@,
                0,
                lib@,
                voice_idx as int,
                indent@,
                match comment {
                    Some(c) => Some(c@),
                    None => None,
                },
                need_bar_sep,
                Seq::empty(),
            ) matches GenLines::Lines(ls, s3) && s3 == s2 && text@ == spec_join(ls, "\n"@),
            Err(m) => spec_list_lines(
                sequence@,
                0,
                lib@,
                voice_idx as int,
                indent@,
                match comment {
                    Some(c) => Some(c@),
                    None => None,
                },
                need_bar_sep,
                Seq::empty(),
            ) matches GenLines::Missing(n) && m@ == "pattern '"@ + n + "' not found"@,
        },
{
    let iv = chars_of(indent);
    let cv: Option<Vec<char>> = match comment {
        Some(c) => Some(chars_of(c)),
        None => None,
    };
    let cr: Option<&Vec<char>> = match &cv {
        Some(v) => Some(v),
        None => None,
    };
    match gen_list_exec(sequence, lib, voice_idx, &iv, cr, need_bar_sep) {
        Err(m) => Err(m),
        Ok((ls, s2)) => {
            let joined = join_chars(&ls, "\n");
            Ok((string_of(&joined), s2))
        },
    }
}

/// Assemble the notation text of a whole bar sequence. Mirrors
/// `spec_lilypond_of_sequence`; an empty sequence and a name the table
/// does not hold are the two errors.
pub fn lilypond_of_sequence(bar_sequence: &BarSequence, lib: &Vec<NamedPattern>) -> (r: Result<
    String,
    String,
>)
    ensures
        match r {
            Ok(s) => spec_lilypond_of_sequence(*bar_sequence, lib@) matches GAssemble::Done(t) && s@
                == t,
            Err(m) => match spec_lilypond_of_sequence(*bar_sequence, lib@) {
                GAssemble::Empty => m@ == "Empty sequence"@,
                GAssemble::Missing(n) => m@ == "pattern '"@ + n + "' not found"@,
                GAssemble::Done(_) => false,
            },
        },
{
    let first = match first_item_bar(&bar_sequence.sequence) {
        None => {
            return Err(String::from_str("Empty sequence"));
        },
        Some(b) => b,
    };
    let pat = match lookup_pattern(lib, first.pattern_name.as_str()) {
        None => {
            return Err(missing_message(&first.pattern_name));
        },
        Some(p) => p,
    };
    let ghost fname = first.pattern_name@;
    let ghost gk = lookup_named(lib@, fname, 0)->Some_0;
    let nv = pat.voices.len();
    let ghost seqv = bar_sequence.sequence@;
    proof {
        assert(nv as int == lib@[gk].pattern.voices@.len());
    }
    let indent = content_indent_vec();
    let mut blocks: Vec<Vec<char>> = Vec::new();
    let mut vidx: usize = 0;
    proof {
        assert(blocks.deep_view() =~= Seq::<Seq<char>>::empty());
    }
    while vidx < nv
        invariant
            vidx <= nv,
            seqv == bar_sequence.sequence@,
            indent@ == content_indent(),
            spec_first_item_bar(seqv, 0) == Some(fname),
            lookup_named(lib@, fname, 0) == Some(gk),
            0 <= gk < lib@.len(),
            nv as int == lib@[gk].pattern.voices@.len(),
            spec_voice_blocks(seqv, lib@, 0, nv as int, Seq::empty()) == spec_voice_blocks(
                seqv,
                lib@,
                vidx as int,
                nv as int,
                blocks.deep_view(),
            ),
        decreases nv - vidx,
    {
        let items = &bar_sequence.sequence;
        let mut parts: Vec<Vec<char>> = Vec::new();
        let mut cur_sep = false;
        let mut j: usize = 0;
        proof {
            assert(parts.deep_view() =~= Seq::<Seq<char>>::empty());
        }
        while j < items.len()
            invariant
                j <= items@.len(),
                items@ == seqv,
                seqv == bar_sequence.sequence@,
                indent@ == content_indent(),
                vidx < nv,
                spec_first_item_bar(seqv, 0) == Some(fname),
                lookup_named(lib@, fname, 0) == Some(gk),
                0 <= gk < lib@.len(),
                nv as int == lib@[gk].pattern.voices@.len(),
                spec_voice_blocks(seqv, lib@, 0, nv as int, Seq::empty()) == spec_voice_blocks(
                    seqv,
                    lib@,
                    vidx as int,
                    nv as int,
                    blocks.deep_view(),
                ),
                spec_voice_parts(seqv, 0, lib@, vidx as int, false, Seq::empty())
                    == spec_voice_parts(
                    seqv,
                    j as int,
                    lib@,
                    vidx as int,
                    cur_sep,
                    parts.deep_view(),
                ),
            decreases items@.len() - j,
        {
            let desc = chars_of(items[j].description.as_str());
            match gen_item_lines(&items[j].item, lib, vidx, &indent, Some(&desc), cur_sep) {
                Err(m) => {
                    return Err(m);
                },
                Ok((ls, s2)) => {
                    let joined = join_chars(&ls, "\n");
                    let ghost pv = parts.deep_view();
                    parts.push(joined);
                    cur_sep = s2;
                    j = j + 1;
                    proof {
                        assert(parts.deep_view() =~~= pv.push(
                            spec_join(ls.deep_view(), "\n"@),
                        ));
                    }
                },
            }
        }
        let mut block: Vec<char> = Vec::new();
        push_str_chars(&mut block, "        \\new DrumVoice {\n          ");
        push_str_chars(&mut block, voice_directive_of(vidx));
        push_str_chars(&mut block, "\n");
        let joined = join_chars(&parts, "\n");
        push_chars(&mut block, &joined);
        push_str_chars(&mut block, "\n        }");
        proof {
            assert(block@ =~= "        \\new DrumVoice {\n          "@ + voice_directive(
                vidx as int,
            ) + "\n"@ + spec_join(parts.deep_view(), "\n"@) + "\n        }"@);
        }
        let ghost bv = blocks.deep_view();
        blocks.push(block);
        vidx = vidx + 1;
        proof {
            assert(blocks.deep_view() =~~= bv.push(block@));
        }
    }
    let mut out: Vec<char> = Vec::new();
    push_str_chars(&mut out, score_head());
    let d = u32_chars(bar_sequence.tempo);
    push_chars(&mut out, &d);
    push_str_chars(&mut out, score_mid());
    let joined = join_chars(&blocks, "\n");
    push_chars(&mut out, &joined);
    push_str_chars(&mut out, score_tail());
    proof {
        assert(out@ =~= score_head_text() + spec_u32_str(bar_sequence.tempo) + score_mid_text()
            + spec_join(blocks.deep_view(), "\n"@) + score_tail_text());
    }
    Ok(string_of(&out))
}

/// Assemble a sequence, parse the result through the core, and wrap the
/// generated pattern in the document shell. The parse error text is
/// prefixed; a parse result whose rests cannot be rendered is refused
/// rather than rendered wrongly.
pub fn strudel_of_sequence(bar_sequence: &BarSequence, lib: &Vec<NamedPattern>, title: &str) -> (r:
    Result<String, String>)
    ensures
        match r {
            Ok(html) => ({
                &&& spec_lilypond_of_sequence(*bar_sequence, lib@) matches GAssemble::Done(ly)
                    && crate::score::spec_parse(ly) matches crate::score::GParse::Parsed(
                    gstaves,
                    t,
                )
                    && exists|staves: Seq<crate::events::Staff>|
                    crate::score::staves_match(staves, gstaves) && crate::emit::staves_renderable(
                        staves,
                    ) && html@ == crate::emit::StrudelGenerator::spec_html(
                        staves,
                        true,
                        "const tempo = "@ + spec_u32_str(t.bpm) + ";"@,
                        title@,
                    )
            }),
            Err(m) => match spec_lilypond_of_sequence(*bar_sequence, lib@) {
                GAssemble::Empty => m@ == "Empty sequence"@,
                GAssemble::Missing(n) => m@ == "pattern '"@ + n + "' not found"@,
                GAssemble::Done(ly) => match crate::score::spec_parse(ly) {
                    crate::score::GParse::MissingTempo => m@ == "LilyPond parse error: "@
                        + crate::score::missing_tempo_message(),
                    crate::score::GParse::NoOpen => m@ == "LilyPond parse error: "@
                        + "No '{' found"@,
                    crate::score::GParse::NoClose => m@ == "LilyPond parse error: "@
                        + "No '}' found"@,
                    crate::score::GParse::Parsed(gstaves, _) => (exists|
                        staves: Seq<crate::events::Staff>,
                    |
                        crate::score::staves_match(staves, gstaves)
                            && !crate::emit::staves_renderable(staves)) && m@
                        == "generated score holds a rest of zero duration"@,
                },
            },
        },
{
    let ly = match lilypond_of_sequence(bar_sequence, lib) {
        Err(e) => {
            return Err(e);
        },
        Ok(s) => s,
    };
    let parser = crate::score::LilyPondParser::new();
    let result = match parser.parse(ly.as_str()) {
        Err(e) => {
            let mut msg: Vec<char> = Vec::new();
            push_str_chars(&mut msg, "LilyPond parse error: ");
            let ev = chars_of(e.as_str());
            push_chars(&mut msg, &ev);
            proof {
                assert(msg@ =~= "LilyPond parse error: "@ + e@);
            }
            return Err(string_of(&msg));
        },
        Ok(rp) => rp,
    };
    if !crate::emit::staves_renderable_check(&result.staves) {
        return Err(String::from_str("generated score holds a rest of zero duration"));
    }
    let html = crate::emit::StrudelGenerator::generate_html(
        &result.staves,
        Some(&result.tempo),
        title,
    );
    proof {
        let gstaves = match crate::score::spec_parse(ly@) {
            crate::score::GParse::Parsed(g, _) => g,
            _ => Seq::empty(),
        };
        assert(crate::score::staves_match(result.staves@, gstaves)
            && crate::emit::staves_renderable(result.staves@) && html@
            == crate::emit::StrudelGenerator::spec_html(
            result.staves@,
            true,
            "const tempo = "@ + spec_u32_str(result.tempo.bpm) + ";"@,
            title@,
        ));
    }
    Ok(html)
}

} // verus!
