//! General properties of the pattern walk, stated and proved over the
//! generation model: bar groups and bar counts agree for repeat-free
//! bodies, and nested repeat regions multiply bar counts.

use vstd::prelude::*;

use crate::emit::pevs_render;
use crate::events::PitchedEvent;
use crate::score::missing_tempo_message;
use crate::tempo::find_tempo_lit;
use crate::tempo::find_tempo_var;
use crate::tempo::spec_parse_tempo;
use crate::tempo::tempo_lit_at;
use crate::tempo::tempo_var_at;
use crate::pattern::GRender;
use crate::pattern::lemma_gen_count;
use crate::pattern::sat_add;
use crate::pattern::sat_mul;
use crate::pattern::spec_count;
use crate::pattern::spec_gen;

verus! {

/// No repeat sentinels anywhere in the sequence.
pub open spec fn no_repeats(gs: Seq<GRender>) -> bool {
    forall|i: int|
        0 <= i < gs.len() ==> !((#[trigger] gs[i]) is RepStart) && !(gs[i] is RepEnd)
}

/// The bars of a repeat-free body: the cell lists between bar lines,
/// empty bars skipped, the trailing one kept when it has content.
pub open spec fn split_bars(gs: Seq<GRender>, i: int, cur: Seq<Seq<char>>) -> Seq<Seq<Seq<char>>>
    decreases gs.len() - i,
{
    if i < 0 || i >= gs.len() {
        if cur.len() > 0 {
            seq![cur]
        } else {
            Seq::empty()
        }
    } else {
        match gs[i] {
            GRender::Cell(s) => split_bars(gs, i + 1, cur.push(s)),
            GRender::Bar => {
                if cur.len() > 0 {
                    seq![cur] + split_bars(gs, i + 1, Seq::empty())
                } else {
                    split_bars(gs, i + 1, cur)
                }
            },
            _ => split_bars(gs, i + 1, cur),
        }
    }
}

/// Each bar rendered as one bracketed, space-joined group.
pub open spec fn bar_groups_of(bars: Seq<Seq<Seq<char>>>) -> Seq<Seq<char>> {
    Seq::new(bars.len(), |k: int| crate::pattern::bracket(crate::pattern::spec_join(bars[k], " "@)))
}

proof fn lemma_split_tracks(
    gs: Seq<GRender>,
    i: int,
    cur: Seq<Seq<char>>,
    groups: Seq<Seq<char>>,
    bars: u32,
)
    requires
        no_repeats(gs),
        0 <= i,
        bars as int == groups.len(),
        groups.len() + (if gs.len() - i >= 0 {
            gs.len() - i
        } else {
            0
        }) + 1 <= u32::MAX,
    ensures
        ({
            let r = spec_gen(gs, i, cur, groups, bars);
            r.groups == groups + bar_groups_of(split_bars(gs, i, cur)) && r.bars as int
                == groups.len() + split_bars(gs, i, cur).len()
        }),
    decreases gs.len() - i,
{
    if i >= gs.len() {
        if cur.len() > 0 {
            assert(bar_groups_of(seq![cur]) =~= seq![
                crate::pattern::bracket(crate::pattern::spec_join(cur, " "@)),
            ]);
            assert(groups.push(crate::pattern::bracket(crate::pattern::spec_join(cur, " "@)))
                =~= groups + bar_groups_of(seq![cur]));
        } else {
            assert(bar_groups_of(Seq::<Seq<Seq<char>>>::empty()) =~= Seq::<Seq<char>>::empty());
            assert(groups + Seq::<Seq<char>>::empty() =~= groups);
        }
    } else {
        match gs[i] {
            GRender::Cell(s) => {
                lemma_split_tracks(gs, i + 1, cur.push(s), groups, bars);
            },
            GRender::Bar => {
                if cur.len() > 0 {
                    let g = crate::pattern::bracket(crate::pattern::spec_join(cur, " "@));
                    lemma_split_tracks(gs, i + 1, Seq::empty(), groups.push(g), sat_add(bars, 1));
                    let rest = split_bars(gs, i + 1, Seq::empty());
                    assert(bar_groups_of(seq![cur] + rest) =~= seq![g] + bar_groups_of(rest));
                    assert(groups.push(g) + bar_groups_of(rest) =~= groups + (seq![g]
                        + bar_groups_of(rest)));
                } else {
                    lemma_split_tracks(gs, i + 1, cur, groups, bars);
                }
            },
            GRender::Skip => {
                lemma_split_tracks(gs, i + 1, cur, groups, bars);
            },
            GRender::RepEnd => {
                assert(false);
            },
            GRender::RepStart(_) => {
                assert(false);
            },
        }
    }
}

/// For a body without repeat regions, the generated groups are exactly
/// the body's bars, in source order, each bracketed, and the bar count
/// is their number.
pub proof fn theorem_bar_groups(gs: Seq<GRender>)
    requires
        no_repeats(gs),
        gs.len() + 1 <= u32::MAX,
    ensures
        ({
            let r = spec_gen(gs, 0, Seq::empty(), Seq::empty(), 0);
            let bars = split_bars(gs, 0, Seq::empty());
            r.groups == bar_groups_of(bars) && r.bars as int == bars.len()
        }),
{
    lemma_split_tracks(gs, 0, Seq::empty(), Seq::empty(), 0);
    assert(Seq::<Seq<char>>::empty() + bar_groups_of(split_bars(gs, 0, Seq::empty()))
        =~= bar_groups_of(split_bars(gs, 0, Seq::empty())));
}

/// The same, stated over pitched event sequences: an input of plain bars
/// (no repeat events) generates exactly one bracketed group per bar, in
/// the input's order.
pub proof fn theorem_pitched_bar_groups(events: Seq<PitchedEvent>)
    requires
        forall|i: int|
            0 <= i < events.len() ==> !((#[trigger] events[i]) is RepeatStart) && !(events[i]
                is RepeatEnd),
        events.len() + 1 <= u32::MAX,
    ensures
        ({
            let r = spec_gen(pevs_render(events), 0, Seq::empty(), Seq::empty(), 0);
            let bars = split_bars(pevs_render(events), 0, Seq::empty());
            r.groups == bar_groups_of(bars) && r.bars as int == bars.len()
        }),
{
    assert(no_repeats(pevs_render(events)));
    theorem_bar_groups(pevs_render(events));
}

/// Scanning an embedded repeat-free body stops at the closing sentinel
/// and counts exactly the body's own bars.
proof fn lemma_count_body(
    es: Seq<GRender>,
    body: Seq<GRender>,
    lo: int,
    j: int,
    has: bool,
    bars: u32,
)
    requires
        0 <= lo,
        lo + body.len() + 1 <= es.len(),
        forall|k: int| 0 <= k < body.len() ==> es[lo + k] == body[k],
        no_repeats(body),
        es[lo + body.len()] is RepEnd,
        0 <= j <= body.len(),
    ensures
        spec_count(es, lo + j, has, bars) == (
            spec_count(body, j, has, bars).0,
            lo + body.len() + 1,
        ),
    decreases body.len() - j,
{
    if j == body.len() {
        assert(es[lo + j] is RepEnd);
    } else {
        assert(es[lo + j] == body[j]);
        match body[j] {
            GRender::Cell(_) => {
                lemma_count_body(es, body, lo, j + 1, true, bars);
            },
            GRender::Bar => {
                if has {
                    lemma_count_body(es, body, lo, j + 1, false, sat_add(bars, 1));
                } else {
                    lemma_count_body(es, body, lo, j + 1, has, bars);
                }
            },
            GRender::Skip => {
                lemma_count_body(es, body, lo, j + 1, has, bars);
            },
            GRender::RepEnd => {
                assert(false);
            },
            GRender::RepStart(_) => {
                assert(false);
            },
        }
    }
}

/// Repeat nesting is associative in bar-count arithmetic: an outer repeat
/// of `outer` around an inner repeat of `inner` around a repeat-free body
/// of `b` bars counts `b * inner * outer` bars.
pub proof fn theorem_nested_repeat_bars(body: Seq<GRender>, outer: u32, inner: u32)
    requires
        no_repeats(body),
        1 <= outer,
        1 <= inner,
        spec_count(body, 0, false, 0).0 * inner * outer <= u32::MAX,
    ensures
        ({
            let es = seq![GRender::RepStart(outer), GRender::RepStart(inner)] + body + seq![
                GRender::RepEnd,
                GRender::RepEnd,
            ];
            let b = spec_count(body, 0, false, 0).0;
            spec_gen(es, 0, Seq::empty(), Seq::empty(), 0).bars == b * inner * outer
        }),
{
    let es = seq![GRender::RepStart(outer), GRender::RepStart(inner)] + body + seq![
        GRender::RepEnd,
        GRender::RepEnd,
    ];
    let l = body.len() as int;
    let b = spec_count(body, 0, false, 0).0;
    assert(es.len() == l + 4);
    assert(es[0] == GRender::RepStart(outer));
    assert(es[1] == GRender::RepStart(inner));
    assert forall|k: int| 0 <= k < l implies es[2 + k] == body[k] by {
        assert(es[2 + k] == (seq![GRender::RepStart(outer), GRender::RepStart(inner)]
            + body)[2 + k]);
    }
    assert(es[2 + l] is RepEnd);
    assert(es[3 + l] is RepEnd);
    lemma_count_body(es, body, 2, 0, false, 0);
    assert(spec_count(es, 2, false, 0) == (b, l + 3));
    assert(b * inner <= u32::MAX) by (nonlinear_arith)
        requires
            b * inner * outer <= u32::MAX,
            1 <= outer,
            0 <= b,
            0 <= inner,
    ;
    assert(sat_mul(b, inner) == b * inner);
    assert(spec_count(es, 1, false, 0) == spec_count(es, l + 3, false, sat_mul(b, inner)));
    assert(spec_count(es, l + 3, false, sat_mul(b, inner)) == (sat_mul(b, inner), l + 4));
    assert(spec_count(es, 1, false, 0) == ((b * inner) as u32, l + 4));
    assert((b * inner) as u32 * outer == b * inner * outer) by (nonlinear_arith)
        requires
            b * inner <= u32::MAX,
            0 <= b,
            0 <= inner,
            0 <= outer,
    ;
    assert(sat_mul((b * inner) as u32, outer) == b * inner * outer);
    assert(spec_count(es, 0, false, 0) == spec_count(
        es,
        l + 4,
        false,
        sat_mul((b * inner) as u32, outer),
    ));
    assert(spec_count(es, l + 4, false, sat_mul((b * inner) as u32, outer)) == (
        (b * inner * outer) as u32,
        l + 4,
    ));
    lemma_gen_count(es, 0, Seq::empty(), Seq::empty(), 0);
}

proof fn lemma_find_tempo_lit_iff(s: Seq<char>, p: int)
    requires
        0 <= p <= s.len(),
    ensures
        find_tempo_lit(s, p) is Some <==> exists|q: int|
            p <= q <= s.len() && tempo_lit_at(s, q) is Some,
    decreases s.len() + 1 - p,
{
    if tempo_lit_at(s, p) is Some {
        assert(p <= p <= s.len() && tempo_lit_at(s, p) is Some);
    } else if p == s.len() {
        assert(forall|q: int| p <= q <= s.len() ==> tempo_lit_at(s, q) is None);
    } else {
        lemma_find_tempo_lit_iff(s, p + 1);
        if exists|q: int| p <= q <= s.len() && tempo_lit_at(s, q) is Some {
            let q = choose|q: int| p <= q <= s.len() && tempo_lit_at(s, q) is Some;
            assert(p + 1 <= q <= s.len() && tempo_lit_at(s, q) is Some);
        }
        if exists|q: int| p + 1 <= q <= s.len() && tempo_lit_at(s, q) is Some {
            let q = choose|q: int| p + 1 <= q <= s.len() && tempo_lit_at(s, q) is Some;
            assert(p <= q <= s.len() && tempo_lit_at(s, q) is Some);
        }
    }
}

proof fn lemma_find_tempo_var_iff(s: Seq<char>, p: int)
    requires
        0 <= p <= s.len(),
    ensures
        find_tempo_var(s, p) is Some <==> exists|q: int|
            p <= q <= s.len() && tempo_var_at(s, q) is Some,
    decreases s.len() + 1 - p,
{
    if tempo_var_at(s, p) is Some {
        assert(p <= p <= s.len() && tempo_var_at(s, p) is Some);
    } else if p == s.len() {
        assert(forall|q: int| p <= q <= s.len() ==> tempo_var_at(s, q) is None);
    } else {
        lemma_find_tempo_var_iff(s, p + 1);
        if exists|q: int| p <= q <= s.len() && tempo_var_at(s, q) is Some {
            let q = choose|q: int| p <= q <= s.len() && tempo_var_at(s, q) is Some;
            assert(p + 1 <= q <= s.len() && tempo_var_at(s, q) is Some);
        }
        if exists|q: int| p + 1 <= q <= s.len() && tempo_var_at(s, q) is Some {
            let q = choose|q: int| p + 1 <= q <= s.len() && tempo_var_at(s, q) is Some;
            assert(p <= q <= s.len() && tempo_var_at(s, q) is Some);
        }
    }
}

/// The tempo is reported missing exactly as absence demands: a text
/// without any tempo directive, in either form, yields none; and a tempo
/// is only ever found where a directive stands (its numbers are then the
/// directive's own digit runs, see `spec_parse_tempo`).
pub proof fn theorem_tempo_presence(s: Seq<char>)
    ensures
        (forall|q: int|
            0 <= q <= s.len() ==> tempo_lit_at(s, q) is None && tempo_var_at(s, q) is None)
            ==> spec_parse_tempo(s) is None,
        spec_parse_tempo(s) is Some ==> exists|q: int|
            0 <= q <= s.len() && (tempo_lit_at(s, q) is Some || tempo_var_at(s, q) is Some),
{
    lemma_find_tempo_lit_iff(s, 0);
    lemma_find_tempo_var_iff(s, 0);
    if spec_parse_tempo(s) is Some {
        if find_tempo_lit(s, 0) is Some {
            let q = choose|q: int| 0 <= q <= s.len() && tempo_lit_at(s, q) is Some;
            assert(0 <= q <= s.len() && (tempo_lit_at(s, q) is Some || tempo_var_at(s, q)
                is Some));
        } else {
            let q = choose|q: int| 0 <= q <= s.len() && tempo_var_at(s, q) is Some;
            assert(0 <= q <= s.len() && (tempo_lit_at(s, q) is Some || tempo_var_at(s, q)
                is Some));
        }
    }
}

/// The missing-tempo error names the word it is about.
pub proof fn lemma_missing_tempo_message_names_tempo()
    ensures
        exists|i: int|
            0 <= i && i + 5 <= missing_tempo_message().len() && #[trigger] missing_tempo_message().subrange(
                i,
                i + 5,
            ) == "tempo"@,
{
    reveal_strlit(
        "Missing tempo: LilyPond input must include a \\tempo directive (e.g., \\tempo 4 = 120)",
    );
    reveal_strlit("tempo");
    assert(missing_tempo_message().subrange(8, 13) =~= "tempo"@);
    assert(0 <= 8 && 8 + 5 <= missing_tempo_message().len() && missing_tempo_message().subrange(
        8,
        13,
    ) == "tempo"@);
}

} // verus!
