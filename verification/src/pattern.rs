//! The pattern walk shared by pitched and percussive staves: items
//! accumulate into the current bar, a bar line or repeat start flushes it
//! as one bracketed group, and a repeat region is rendered once with a
//! multiplicity suffix (and a duration multiplier when it spans several
//! bars). Bar counts saturate at the `u32` range.

use vstd::prelude::*;

use crate::chars::spec_u32_str;
use crate::chars::push_chars;
use crate::chars::push_str_chars;
use crate::chars::u32_chars;

verus! {

/// One renderable event: an already-rendered item, a bar line, the repeat
/// sentinels, or something to step over.
pub enum RenderEvent {
    Cell(Vec<char>),
    Bar,
    RepStart(u32),
    RepEnd,
    Skip,
}

/// Ghost model of a renderable event.
pub ghost enum GRender {
    Cell(Seq<char>),
    Bar,
    RepStart(u32),
    RepEnd,
    Skip,
}

pub open spec fn render_matches(e: RenderEvent, g: GRender) -> bool {
    match (e, g) {
        (RenderEvent::Cell(v), GRender::Cell(s)) => v@ == s,
        (RenderEvent::Bar, GRender::Bar) => true,
        (RenderEvent::RepStart(c), GRender::RepStart(d)) => c == d,
        (RenderEvent::RepEnd, GRender::RepEnd) => true,
        (RenderEvent::Skip, GRender::Skip) => true,
        _ => false,
    }
}

pub open spec fn renders_match(es: Seq<RenderEvent>, gs: Seq<GRender>) -> bool {
    es.len() == gs.len() && forall|i: int|
        0 <= i < es.len() ==> render_matches(#[trigger] es[i], gs[i])
}

pub open spec fn sat_add(a: u32, b: u32) -> u32 {
    if a + b > u32::MAX {
        u32::MAX
    } else {
        (a + b) as u32
    }
}

pub open spec fn sat_mul(a: u32, b: u32) -> u32 {
    if a * b > u32::MAX {
        u32::MAX
    } else {
        (a * b) as u32
    }
}

/// `parts` joined with `sep` between them.
pub open spec fn join_from(parts: Seq<Seq<char>>, i: int, sep: Seq<char>) -> Seq<char>
    decreases parts.len() - i,
{
    if i < 0 || i >= parts.len() {
        Seq::empty()
    } else if i == parts.len() - 1 {
        parts[i]
    } else {
        parts[i] + sep + join_from(parts, i + 1, sep)
    }
}

pub open spec fn spec_join(parts: Seq<Seq<char>>, sep: Seq<char>) -> Seq<char> {
    join_from(parts, 0, sep)
}

/// Join rendered parts with a separator. Mirrors `spec_join`.
pub fn join_chars(parts: &Vec<Vec<char>>, sep: &str) -> (r: Vec<char>)
    ensures
        r@ == spec_join(parts.deep_view(), sep@),
{
    let out: Vec<char> = Vec::new();
    join_rec(parts, 0, sep, out)
}

fn join_rec(parts: &Vec<Vec<char>>, i: usize, sep: &str, acc: Vec<char>) -> (r: Vec<char>)
    requires
        i <= parts@.len(),
    ensures
        r@ == acc@ + join_from(parts.deep_view(), i as int, sep@),
    decreases parts@.len() - i,
{
    if i >= parts.len() {
        proof {
            assert(acc@ + join_from(parts.deep_view(), i as int, sep@) =~= acc@);
        }
        return acc;
    }
    let mut acc2 = acc;
    push_chars(&mut acc2, &parts[i]);
    proof {
        assert(parts@[i as int]@ =~= parts.deep_view()[i as int]);
    }
    if i == parts.len() - 1 {
        proof {
            assert(acc2@ =~= acc@ + join_from(parts.deep_view(), i as int, sep@));
        }
        acc2
    } else {
        push_str_chars(&mut acc2, sep);
        let r = join_rec(parts, i + 1, sep, acc2);
        proof {
            assert(acc@ + join_from(parts.deep_view(), i as int, sep@) =~= acc@ + (
            parts.deep_view()[i as int] + sep@ + join_from(parts.deep_view(), i + 1 as int, sep@)));
        }
        r
    }
}

pub open spec fn bracket(s: Seq<char>) -> Seq<char> {
    "["@ + s + "]"@
}

/// The result of one generation walk: the finished bar groups, the bar
/// count, and the index after the walk.
pub ghost struct GenRes {
    pub groups: Seq<Seq<char>>,
    pub bars: u32,
    pub next: int,
}

pub open spec fn gen_flush(cur: Seq<Seq<char>>, groups: Seq<Seq<char>>, bars: u32) -> (
    Seq<Seq<char>>,
    u32,
) {
    if cur.len() > 0 {
        (groups.push(bracket(spec_join(cur, " "@))), sat_add(bars, 1))
    } else {
        (groups, bars)
    }
}

/// The repeat group text: `[inner]!count`, or `[[inner]!count]@total`
/// when the region spans more than one bar.
pub open spec fn repeat_group(itext: Seq<char>, inner_bars: u32, count: u32, total: u32) -> Seq<
    char,
> {
    if inner_bars > 1 {
        "[["@ + itext + "]!"@ + spec_u32_str(count) + "]@"@ + spec_u32_str(total)
    } else {
        "["@ + itext + "]!"@ + spec_u32_str(count)
    }
}

/// The generation walk itself. A stray repeat end stops the walk (its
/// index is returned); the final pending bar is flushed either way.
pub open spec fn spec_gen(
    events: Seq<GRender>,
    i: int,
    cur: Seq<Seq<char>>,
    groups: Seq<Seq<char>>,
    bars: u32,
) -> GenRes
    decreases events.len() - i,
{
    if i < 0 || i >= events.len() {
        let (g, b) = gen_flush(cur, groups, bars);
        GenRes { groups: g, bars: b, next: i }
    } else {
        match events[i] {
            GRender::Cell(s) => spec_gen(events, i + 1, cur.push(s), groups, bars),
            GRender::Bar => {
                if cur.len() > 0 {
                    spec_gen(
                        events,
                        i + 1,
                        Seq::empty(),
                        groups.push(bracket(spec_join(cur, " "@))),
                        sat_add(bars, 1),
                    )
                } else {
                    spec_gen(events, i + 1, cur, groups, bars)
                }
            },
            GRender::Skip => spec_gen(events, i + 1, cur, groups, bars),
            GRender::RepEnd => {
                let (g, b) = gen_flush(cur, groups, bars);
                GenRes { groups: g, bars: b, next: i + 1 }
            },
            GRender::RepStart(c) => {
                let (g1, b1) = gen_flush(cur, groups, bars);
                let inner = spec_gen(events, i + 1, Seq::empty(), Seq::empty(), 0);
                let itext = spec_join(inner.groups, "\n"@);
                let total = sat_mul(inner.bars, c);
                let grp = repeat_group(itext, inner.bars, c, total);
                let next = if i + 1 <= inner.next <= events.len() {
                    inner.next
                } else {
                    i + 1
                };
                spec_gen(events, next, Seq::empty(), g1.push(grp), sat_add(b1, total))
            },
        }
    }
}

/// The bar-counting walk: the same flush discipline as the generation
/// walk, tracking only whether the current bar has content.
pub open spec fn spec_count(events: Seq<GRender>, i: int, has: bool, bars: u32) -> (u32, int)
    decreases events.len() - i,
{
    if i < 0 || i >= events.len() {
        ((if has {
            sat_add(bars, 1)
        } else {
            bars
        }), i)
    } else {
        match events[i] {
            GRender::Cell(_) => spec_count(events, i + 1, true, bars),
            GRender::Bar => {
                if has {
                    spec_count(events, i + 1, false, sat_add(bars, 1))
                } else {
                    spec_count(events, i + 1, has, bars)
                }
            },
            GRender::Skip => spec_count(events, i + 1, has, bars),
            GRender::RepEnd => ((if has {
                sat_add(bars, 1)
            } else {
                bars
            }), i + 1),
            GRender::RepStart(c) => {
                let (b1, h1) = (if has {
                    sat_add(bars, 1)
                } else {
                    bars
                }, false);
                let inner = spec_count(events, i + 1, false, 0);
                let total = sat_mul(inner.0, c);
                let next = if i + 1 <= inner.1 <= events.len() {
                    inner.1
                } else {
                    i + 1
                };
                spec_count(events, next, false, sat_add(b1, total))
            },
        }
    }
}

/// The two walks agree on the bar count and the stopping index; the
/// current bar matters only through its emptiness.
pub proof fn lemma_gen_count(
    events: Seq<GRender>,
    i: int,
    cur: Seq<Seq<char>>,
    groups: Seq<Seq<char>>,
    bars: u32,
)
    ensures
        spec_gen(events, i, cur, groups, bars).bars == spec_count(
            events,
            i,
            cur.len() > 0,
            bars,
        ).0,
        spec_gen(events, i, cur, groups, bars).next == spec_count(events, i, cur.len() > 0, bars).1,
    decreases events.len() - i,
{
    if i < 0 || i >= events.len() {
    } else {
        match events[i] {
            GRender::Cell(s) => {
                lemma_gen_count(events, i + 1, cur.push(s), groups, bars);
            },
            GRender::Bar => {
                if cur.len() > 0 {
                    lemma_gen_count(
                        events,
                        i + 1,
                        Seq::empty(),
                        groups.push(bracket(spec_join(cur, " "@))),
                        sat_add(bars, 1),
                    );
                } else {
                    lemma_gen_count(events, i + 1, cur, groups, bars);
                }
            },
            GRender::Skip => {
                lemma_gen_count(events, i + 1, cur, groups, bars);
            },
            GRender::RepEnd => {
            },
            GRender::RepStart(c) => {
                let (g1, b1) = gen_flush(cur, groups, bars);
                lemma_gen_count(events, i + 1, Seq::empty(), Seq::empty(), 0);
                let inner = spec_gen(events, i + 1, Seq::empty(), Seq::empty(), 0);
                let itext = spec_join(inner.groups, "\n"@);
                let total = sat_mul(inner.bars, c);
                let grp = repeat_group(itext, inner.bars, c, total);
                let next = if i + 1 <= inner.next <= events.len() {
                    inner.next
                } else {
                    i + 1
                };
                lemma_gen_count(events, next, Seq::empty(), g1.push(grp), sat_add(b1, total));
            },
        }
    }
}

fn sat_add_exec(a: u32, b: u32) -> (r: u32)
    ensures
        r == sat_add(a, b),
{
    a.saturating_add(b)
}

fn sat_mul_exec(a: u32, b: u32) -> (r: u32)
    ensures
        r == sat_mul(a, b),
{
    match a.checked_mul(b) {
        Some(v) => v,
        None => u32::MAX,
    }
}

/// Flush the current bar into the groups. Mirrors `gen_flush`.
fn flush_exec(cur: &Vec<Vec<char>>, groups: Vec<Vec<char>>, bars: u32) -> (r: (
    Vec<Vec<char>>,
    u32,
))
    ensures
        ({
            let (g, b) = gen_flush(cur.deep_view(), groups.deep_view(), bars);
            r.0.deep_view() == g && r.1 == b
        }),
{
    if cur.len() > 0 {
        let bar = join_chars(cur, " ");
        let mut g: Vec<char> = Vec::new();
        push_str_chars(&mut g, "[");
        push_chars(&mut g, &bar);
        push_str_chars(&mut g, "]");
        proof {
            assert(g@ =~= bracket(spec_join(cur.deep_view(), " "@)));
        }
        let ghost gv = groups.deep_view();
        let mut groups2 = groups;
        groups2.push(g);
        proof {
            assert(groups2.deep_view() =~~= gv.push(bracket(spec_join(cur.deep_view(), " "@))));
        }
        (groups2, sat_add_exec(bars, 1))
    } else {
        (groups, bars)
    }
}

/// The generation walk. Mirrors `spec_gen`; returns the finished groups,
/// the bar count, and the index after the walk.
pub fn gen_walk(events: &Vec<RenderEvent>, start: usize, Ghost(gs): Ghost<Seq<GRender>>) -> (r: (
    Vec<Vec<char>>,
    u32,
    usize,
))
    requires
        start <= events@.len(),
        renders_match(events@, gs),
    ensures
        ({
            let res = spec_gen(gs, start as int, Seq::empty(), Seq::empty(), 0);
            r.0.deep_view() == res.groups && r.1 == res.bars && r.2 as int == res.next && start
                <= r.2 <= events@.len()
        }),
    decreases events@.len() - start,
{
    let mut cur: Vec<Vec<char>> = Vec::new();
    let mut groups: Vec<Vec<char>> = Vec::new();
    let mut bars: u32 = 0;
    let mut i: usize = start;
    proof {
        assert(cur.deep_view() =~= Seq::<Seq<char>>::empty());
        assert(groups.deep_view() =~= Seq::<Seq<char>>::empty());
    }
    loop
        invariant
            start <= i <= events@.len(),
            renders_match(events@, gs),
            spec_gen(gs, start as int, Seq::empty(), Seq::empty(), 0) == spec_gen(
                gs,
                i as int,
                cur.deep_view(),
                groups.deep_view(),
                bars,
            ),
        decreases events@.len() - i,
    {
        if i >= events.len() {
            let (g2, b2) = flush_exec(&cur, groups, bars);
            return (g2, b2, i);
        }
        proof {
            assert(render_matches(events@[i as int], gs[i as int]));
        }
        let ghost i0 = i as int;
        let ghost cv = cur.deep_view();
        let ghost gv = groups.deep_view();
        let ghost b0 = bars;
        match &events[i] {
            RenderEvent::Cell(s) => {
                let c = crate::tokenize::clone_chars(s);
                cur.push(c);
                i = i + 1;
                proof {
                    assert(cur.deep_view() =~~= cv.push(s@));
                }
            },
            RenderEvent::Bar => {
                if cur.len() > 0 {
                    let (g2, b2) = flush_exec(&cur, groups, bars);
                    groups = g2;
                    bars = b2;
                    cur = Vec::new();
                    proof {
                        assert(cur.deep_view() =~= Seq::<Seq<char>>::empty());
                    }
                }
                i = i + 1;
            },
            RenderEvent::Skip => {
                i = i + 1;
            },
            RenderEvent::RepEnd => {
                let (g2, b2) = flush_exec(&cur, groups, bars);
                return (g2, b2, i + 1);
            },
            RenderEvent::RepStart(c) => {
                let count = *c;
                let (g2, b2) = flush_exec(&cur, groups, bars);
                groups = g2;
                bars = b2;
                cur = Vec::new();
                proof {
                    assert(cur.deep_view() =~= Seq::<Seq<char>>::empty());
                }
                let (igroups, ibars, inext) = gen_walk(events, i + 1, Ghost(gs));
                let ghost inner = spec_gen(gs, i0 + 1, Seq::empty(), Seq::empty(), 0);
                let itext = join_chars(&igroups, "\n");
                let total = sat_mul_exec(ibars, count);
                let mut grp: Vec<char> = Vec::new();
                if ibars > 1 {
                    push_str_chars(&mut grp, "[[");
                    push_chars(&mut grp, &itext);
                    push_str_chars(&mut grp, "]!");
                    let cd = u32_chars(count);
                    push_chars(&mut grp, &cd);
                    push_str_chars(&mut grp, "]@");
                    let td = u32_chars(total);
                    push_chars(&mut grp, &td);
                } else {
                    push_str_chars(&mut grp, "[");
                    push_chars(&mut grp, &itext);
                    push_str_chars(&mut grp, "]!");
                    let cd = u32_chars(count);
                    push_chars(&mut grp, &cd);
                }
                proof {
                    assert(grp@ =~= repeat_group(
                        spec_join(inner.groups, "\n"@),
                        inner.bars,
                        count,
                        sat_mul(inner.bars, count),
                    ));
                }
                let ghost gv2 = groups.deep_view();
                groups.push(grp);
                bars = sat_add_exec(bars, total);
                let next = if inext > i {
                    inext
                } else {
                    i + 1
                };
                proof {
                    assert(groups.deep_view() =~~= gv2.push(
                        repeat_group(
                            spec_join(inner.groups, "\n"@),
                            inner.bars,
                            count,
                            sat_mul(inner.bars, count),
                        ),
                    ));
                    let snext = if i0 + 1 <= inner.next <= gs.len() {
                        inner.next
                    } else {
                        i0 + 1
                    };
                    assert(next as int == snext);
                }
                i = next;
            },
        }
    }
}

/// The bar-counting walk. Mirrors `spec_count`.
pub fn count_walk(events: &Vec<RenderEvent>, start: usize, Ghost(gs): Ghost<Seq<GRender>>) -> (r: (
    u32,
    usize,
))
    requires
        start <= events@.len(),
        renders_match(events@, gs),
    ensures
        ({
            let res = spec_count(gs, start as int, false, 0);
            r.0 == res.0 && r.1 as int == res.1 && start <= r.1 <= events@.len()
        }),
    decreases events@.len() - start,
{
    let mut has: bool = false;
    let mut bars: u32 = 0;
    let mut i: usize = start;
    loop
        invariant
            start <= i <= events@.len(),
            renders_match(events@, gs),
            spec_count(gs, start as int, false, 0) == spec_count(gs, i as int, has, bars),
        decreases events@.len() - i,
    {
        if i >= events.len() {
            let out = if has {
                sat_add_exec(bars, 1)
            } else {
                bars
            };
            return (out, i);
        }
        proof {
            assert(render_matches(events@[i as int], gs[i as int]));
        }
        let ghost i0 = i as int;
        match &events[i] {
            RenderEvent::Cell(_) => {
                has = true;
                i = i + 1;
            },
            RenderEvent::Bar => {
                if has {
                    bars = sat_add_exec(bars, 1);
                    has = false;
                }
                i = i + 1;
            },
            RenderEvent::Skip => {
                i = i + 1;
            },
            RenderEvent::RepEnd => {
                let out = if has {
                    sat_add_exec(bars, 1)
                } else {
                    bars
                };
                return (out, i + 1);
            },
            RenderEvent::RepStart(c) => {
                let count = *c;
                if has {
                    bars = sat_add_exec(bars, 1);
                    has = false;
                }
                let (ibars, inext) = count_walk(events, i + 1, Ghost(gs));
                let ghost inner = spec_count(gs, i0 + 1, false, 0);
                let total = sat_mul_exec(ibars, count);
                bars = sat_add_exec(bars, total);
                let next = if inext > i {
                    inext
                } else {
                    i + 1
                };
                proof {
                    let snext = if i0 + 1 <= inner.1 <= gs.len() {
                        inner.1
                    } else {
                        i0 + 1
                    };
                    assert(next as int == snext);
                }
                i = next;
            },
        }
    }
}

} // verus!
