//! Typed-event extraction from a staff region: comment marking, then
//! tokenization, then per-token classification into pitched or percussive
//! events. Unrecognized tokens are dropped.

use vstd::prelude::*;

use crate::chars::is_digit;
use crate::chars::match_at;
use crate::chars::spec_read_u32;
use crate::chars::lit_at;
use crate::chars::read_u32;
use crate::chars::string_of;
use crate::drums::GHit;
use crate::drums::hit_matches;
use crate::drums::parse_drum_hit;
use crate::drums::spec_parse_drum_hit;
use crate::events::DrumEvent;
use crate::events::DrumHit;
use crate::events::Note;
use crate::events::PitchedEvent;
use crate::events::note_flat_wf;
use crate::events::pevents_flat_wf;
use crate::notes::GNote;
use crate::notes::note_matches;
use crate::notes::parse_note;
use crate::notes::parse_rest;
use crate::notes::spec_parse_note;
use crate::notes::spec_parse_rest;
use crate::prep::mark_comments;
use crate::prep::spec_mark_comments;
use crate::tokenize::spec_tokenize;
use crate::tokenize::tokenize;

verus! {

/// Ghost model of one pitched event.
pub ghost enum GPEvent {
    Note(GNote),
    Rest(u32),
    Bar,
    RepStart(u32),
    RepEnd,
    Comment(Seq<char>),
}

/// Ghost model of one percussive event.
pub ghost enum GDEvent {
    Hit(GHit),
    Rest(u32),
    Bar,
    RepStart(u32),
    RepEnd,
    Comment(Seq<char>),
}

pub open spec fn pevent_matches(e: PitchedEvent, g: GPEvent) -> bool {
    match (e, g) {
        (PitchedEvent::Note(n), GPEvent::Note(m)) => note_matches(n, m),
        (PitchedEvent::Rest { duration }, GPEvent::Rest(d)) => duration == d,
        (PitchedEvent::BarLine, GPEvent::Bar) => true,
        (PitchedEvent::RepeatStart(c), GPEvent::RepStart(d)) => c == d,
        (PitchedEvent::RepeatEnd, GPEvent::RepEnd) => true,
        (PitchedEvent::Comment(s), GPEvent::Comment(t)) => s@ == t,
        _ => false,
    }
}

pub open spec fn pevents_match(es: Seq<PitchedEvent>, gs: Seq<GPEvent>) -> bool {
    es.len() == gs.len() && forall|i: int|
        0 <= i < es.len() ==> pevent_matches(#[trigger] es[i], gs[i])
}

pub open spec fn devent_matches(e: DrumEvent, g: GDEvent) -> bool {
    match (e, g) {
        (DrumEvent::Hit(h), GDEvent::Hit(m)) => hit_matches(h, m),
        (DrumEvent::Rest { duration }, GDEvent::Rest(d)) => duration == d,
        (DrumEvent::BarLine, GDEvent::Bar) => true,
        (DrumEvent::RepeatStart(c), GDEvent::RepStart(d)) => c == d,
        (DrumEvent::RepeatEnd, GDEvent::RepEnd) => true,
        (DrumEvent::Comment(s), GDEvent::Comment(t)) => s@ == t,
        _ => false,
    }
}

pub open spec fn devents_match(es: Seq<DrumEvent>, gs: Seq<GDEvent>) -> bool {
    es.len() == gs.len() && forall|i: int|
        0 <= i < es.len() ==> devent_matches(#[trigger] es[i], gs[i])
}

/// The text of a `__COMMENT_<text>__` sentinel token, if `t` is one.
pub open spec fn comment_token(t: Seq<char>) -> Option<Seq<char>> {
    if t.len() >= 13 && match_at(t, 0, "__COMMENT_"@) && match_at(t, t.len() - 2, "__"@) {
        Some(t.subrange(10, t.len() - 2))
    } else {
        None
    }
}

/// Encoded spaces of a comment sentinel turned back into spaces.
pub open spec fn x01_to_space(t: Seq<char>) -> Seq<char> {
    Seq::new(
        t.len(),
        |i: int|
            if t[i] == '\u{1}' {
                ' '
            } else {
                t[i]
            },
    )
}

/// The count of a `__REPEAT_START_<count>__` sentinel token, if `t` is
/// one; a count that does not fit a `u32` reads as 1.
pub open spec fn repstart_token(t: Seq<char>) -> Option<u32> {
    if t.len() >= 18 && match_at(t, 0, "__REPEAT_START_"@) && match_at(t, t.len() - 2, "__"@) && (
    forall|j: int| 15 <= j < t.len() - 2 ==> is_digit(t[j])) {
        Some(spec_read_u32(t, 15, t.len() - 2, 1))
    } else {
        None
    }
}

/// Classification of one pitched token, in the fixed order: comment
/// sentinel, bar line, repeat sentinels, rest, note.
pub open spec fn classify_pitched(t: Seq<char>) -> Option<GPEvent> {
    if comment_token(t) is Some {
        Some(GPEvent::Comment(x01_to_space(comment_token(t).unwrap())))
    } else if t.len() > 0 && t[0] == '|' {
        Some(GPEvent::Bar)
    } else if repstart_token(t) is Some {
        Some(GPEvent::RepStart(repstart_token(t).unwrap()))
    } else if t == "__REPEAT_END__"@ {
        Some(GPEvent::RepEnd)
    } else if spec_parse_rest(t) is Some {
        Some(GPEvent::Rest(spec_parse_rest(t).unwrap()))
    } else {
        match spec_parse_note(t) {
            Option::Some(g) => Some(GPEvent::Note(g)),
            Option::None => None,
        }
    }
}

/// Classification of one percussive token, in the same fixed order.
pub open spec fn classify_drum(t: Seq<char>) -> Option<GDEvent> {
    if comment_token(t) is Some {
        Some(GDEvent::Comment(x01_to_space(comment_token(t).unwrap())))
    } else if t.len() > 0 && t[0] == '|' {
        Some(GDEvent::Bar)
    } else if repstart_token(t) is Some {
        Some(GDEvent::RepStart(repstart_token(t).unwrap()))
    } else if t == "__REPEAT_END__"@ {
        Some(GDEvent::RepEnd)
    } else if spec_parse_rest(t) is Some {
        Some(GDEvent::Rest(spec_parse_rest(t).unwrap()))
    } else {
        match spec_parse_drum_hit(t) {
            Option::Some(g) => Some(GDEvent::Hit(g)),
            Option::None => None,
        }
    }
}

pub open spec fn collect_pitched(toks: Seq<Seq<char>>, i: int, acc: Seq<GPEvent>) -> Seq<GPEvent>
    decreases toks.len() - i,
{
    if i < 0 || i >= toks.len() {
        acc
    } else {
        match classify_pitched(toks[i]) {
            Option::Some(e) => collect_pitched(toks, i + 1, acc.push(e)),
            Option::None => collect_pitched(toks, i + 1, acc),
        }
    }
}

pub open spec fn collect_drums(toks: Seq<Seq<char>>, i: int, acc: Seq<GDEvent>) -> Seq<GDEvent>
    decreases toks.len() - i,
{
    if i < 0 || i >= toks.len() {
        acc
    } else {
        match classify_drum(toks[i]) {
            Option::Some(e) => collect_drums(toks, i + 1, acc.push(e)),
            Option::None => collect_drums(toks, i + 1, acc),
        }
    }
}

/// The pitched events of a staff region.
pub open spec fn spec_pitched_events(section: Seq<char>) -> Seq<GPEvent> {
    collect_pitched(
        spec_tokenize(spec_mark_comments(section, 0, Seq::empty())),
        0,
        Seq::empty(),
    )
}

/// The percussive events of a staff region.
pub open spec fn spec_drum_events(section: Seq<char>) -> Seq<GDEvent> {
    collect_drums(spec_tokenize(spec_mark_comments(section, 0, Seq::empty())), 0, Seq::empty())
}

fn comment_sentinel(t: &Vec<char>) -> (r: Option<String>)
    ensures
        match r {
            Some(v) => comment_token(t@) matches Some(c) && v@ == x01_to_space(c),
            None => comment_token(t@) is None,
        },
{
    let n = t.len();
    if n >= 13 && lit_at(t, 0, "__COMMENT_") && lit_at(t, n - 2, "__") {
        let mut out: Vec<char> = Vec::new();
        let mut k: usize = 10;
        while k < n - 2
            invariant
                13 <= n == t@.len(),
                10 <= k <= n - 2,
                out@ == x01_to_space(t@.subrange(10, k as int)),
            decreases n - 2 - k,
        {
            let c = t[k];
            if c == '\u{1}' {
                out.push(' ');
            } else {
                out.push(c);
            }
            k = k + 1;
            proof {
                assert(out@ =~= x01_to_space(t@.subrange(10, k as int)));
            }
        }
        Some(string_of(&out))
    } else {
        None
    }
}

fn repstart_sentinel(t: &Vec<char>) -> (r: Option<u32>)
    ensures
        r == repstart_token(t@),
{
    let n = t.len();
    if !(n >= 18 && lit_at(t, 0, "__REPEAT_START_") && lit_at(t, n - 2, "__")) {
        return None;
    }
    let mut k: usize = 15;
    while k < n - 2
        invariant
            18 <= n == t@.len(),
            15 <= k <= n - 2,
            forall|j: int| 15 <= j < k ==> is_digit(t@[j]),
        decreases n - 2 - k,
    {
        if !crate::chars::digit_char(t[k]) {
            return None;
        }
        k = k + 1;
    }
    Some(read_u32(t, 15, n - 2, 1))
}

fn repeat_end_token(t: &Vec<char>) -> (r: bool)
    ensures
        r == (t@ == "__REPEAT_END__"@),
{
    crate::chars::unicode_eq(t, "__REPEAT_END__")
}

fn classify_pitched_exec(t: &Vec<char>) -> (r: Option<PitchedEvent>)
    ensures
        match r {
            Some(e) => classify_pitched(t@) matches Some(g) && pevent_matches(e, g),
            None => classify_pitched(t@) is None,
        },
{
    match comment_sentinel(t) {
        Some(v) => {
            return Some(PitchedEvent::Comment(v));
        },
        None => {},
    }
    if t.len() > 0 && t[0] == '|' {
        return Some(PitchedEvent::BarLine);
    }
    match repstart_sentinel(t) {
        Some(c) => {
            return Some(PitchedEvent::RepeatStart(c));
        },
        None => {},
    }
    if repeat_end_token(t) {
        return Some(PitchedEvent::RepeatEnd);
    }
    match parse_rest(t) {
        Some(d) => {
            return Some(PitchedEvent::Rest { duration: d });
        },
        None => {},
    }
    match parse_note(t) {
        Some(n) => Some(PitchedEvent::Note(n)),
        None => None,
    }
}

fn classify_drum_exec(t: &Vec<char>) -> (r: Option<DrumEvent>)
    ensures
        match r {
            Some(e) => classify_drum(t@) matches Some(g) && devent_matches(e, g),
            None => classify_drum(t@) is None,
        },
{
    match comment_sentinel(t) {
        Some(v) => {
            return Some(DrumEvent::Comment(v));
        },
        None => {},
    }
    if t.len() > 0 && t[0] == '|' {
        return Some(DrumEvent::BarLine);
    }
    match repstart_sentinel(t) {
        Some(c) => {
            return Some(DrumEvent::RepeatStart(c));
        },
        None => {},
    }
    if repeat_end_token(t) {
        return Some(DrumEvent::RepeatEnd);
    }
    match parse_rest(t) {
        Some(d) => {
            return Some(DrumEvent::Rest { duration: d });
        },
        None => {},
    }
    match parse_drum_hit(t) {
        Some(h) => Some(DrumEvent::Hit(h)),
        None => None,
    }
}

proof fn lemma_collect_pitched_unfold(toks: Seq<Seq<char>>, i: int)
    requires
        0 <= i < toks.len(),
    ensures
        collect_pitched(toks, i, Seq::empty()) == (match classify_pitched(toks[i]) {
            Option::Some(e) => seq![e] + collect_pitched(toks, i + 1, Seq::empty()),
            Option::None => collect_pitched(toks, i + 1, Seq::empty()),
        }),
{
    match classify_pitched(toks[i]) {
        Option::Some(e) => {
            lemma_collect_pitched_acc(toks, i + 1, Seq::empty().push(e));
            assert(Seq::<GPEvent>::empty().push(e) =~= seq![e]);
        },
        Option::None => {},
    }
}

proof fn lemma_collect_pitched_acc(toks: Seq<Seq<char>>, i: int, acc: Seq<GPEvent>)
    ensures
        collect_pitched(toks, i, acc) == acc + collect_pitched(toks, i, Seq::empty()),
    decreases toks.len() - i,
{
    if i < 0 || i >= toks.len() {
        assert(acc + Seq::<GPEvent>::empty() =~= acc);
    } else {
        match classify_pitched(toks[i]) {
            Option::Some(e) => {
                lemma_collect_pitched_acc(toks, i + 1, acc.push(e));
                lemma_collect_pitched_acc(toks, i + 1, Seq::empty().push(e));
                assert(acc.push(e) =~= acc + seq![e]);
                assert(Seq::<GPEvent>::empty().push(e) =~= seq![e]);
                assert(acc + seq![e] + collect_pitched(toks, i + 1, Seq::empty()) =~= acc + (
                seq![e] + collect_pitched(toks, i + 1, Seq::empty())));
            },
            Option::None => {
                lemma_collect_pitched_acc(toks, i + 1, acc);
            },
        }
    }
}

proof fn lemma_collect_drums_unfold(toks: Seq<Seq<char>>, i: int)
    requires
        0 <= i < toks.len(),
    ensures
        collect_drums(toks, i, Seq::empty()) == (match classify_drum(toks[i]) {
            Option::Some(e) => seq![e] + collect_drums(toks, i + 1, Seq::empty()),
            Option::None => collect_drums(toks, i + 1, Seq::empty()),
        }),
{
    match classify_drum(toks[i]) {
        Option::Some(e) => {
            lemma_collect_drums_acc(toks, i + 1, Seq::empty().push(e));
            assert(Seq::<GDEvent>::empty().push(e) =~= seq![e]);
        },
        Option::None => {},
    }
}

proof fn lemma_collect_drums_acc(toks: Seq<Seq<char>>, i: int, acc: Seq<GDEvent>)
    ensures
        collect_drums(toks, i, acc) == acc + collect_drums(toks, i, Seq::empty()),
    decreases toks.len() - i,
{
    if i < 0 || i >= toks.len() {
        assert(acc + Seq::<GDEvent>::empty() =~= acc);
    } else {
        match classify_drum(toks[i]) {
            Option::Some(e) => {
                lemma_collect_drums_acc(toks, i + 1, acc.push(e));
                lemma_collect_drums_acc(toks, i + 1, Seq::empty().push(e));
                assert(acc.push(e) =~= acc + seq![e]);
                assert(Seq::<GDEvent>::empty().push(e) =~= seq![e]);
                assert(acc + seq![e] + collect_drums(toks, i + 1, Seq::empty()) =~= acc + (
                seq![e] + collect_drums(toks, i + 1, Seq::empty())));
            },
            Option::None => {
                lemma_collect_drums_acc(toks, i + 1, acc);
            },
        }
    }
}

/// Parse a staff region into pitched events. Mirrors
/// `spec_pitched_events`.
pub fn parse_notes_from_section(section: &Vec<char>) -> (r: Vec<PitchedEvent>)
    ensures
        pevents_match(r@, spec_pitched_events(section@)),
        pevents_flat_wf(r@),
{
    let marked = mark_comments(section);
    let toks = tokenize(&marked);
    let ghost gtoks = spec_tokenize(spec_mark_comments(section@, 0, Seq::empty()));
    let ghost full = collect_pitched(gtoks, 0, Seq::empty());
    let mut out: Vec<PitchedEvent> = Vec::new();
    let mut i: usize = 0;
    while i < toks.len()
        invariant
            toks.deep_view() == gtoks,
            full == collect_pitched(gtoks, 0, Seq::empty()),
            i <= toks@.len(),
            out@.len() + collect_pitched(gtoks, i as int, Seq::empty()).len() == full.len(),
            full == full.subrange(0, out@.len() as int) + collect_pitched(
                gtoks,
                i as int,
                Seq::empty(),
            ),
            forall|k: int|
                0 <= k < out@.len() ==> pevent_matches(#[trigger] out@[k], full[k]) && (
                match out@[k] {
                    PitchedEvent::Note(n) => note_flat_wf(n),
                    _ => true,
                }),
        decreases toks@.len() - i,
    {
        proof {
            assert(toks@[i as int]@ =~= toks.deep_view()[i as int]);
            lemma_collect_pitched_unfold(gtoks, i as int);
        }
        let ghost len0 = out@.len() as int;
        match classify_pitched_exec(&toks[i]) {
            Some(e) => {
                proof {
                    let g = classify_pitched(gtoks[i as int]).unwrap();
                    let rest = collect_pitched(gtoks, i + 1 as int, Seq::empty());
                    assert(full == full.subrange(0, len0) + (seq![g] + rest));
                    assert(full[len0] == g);
                    assert(full =~= full.subrange(0, len0 + 1) + rest);
                }
                out.push(e);
            },
            None => {},
        }
        i = i + 1;
    }
    proof {
        assert(collect_pitched(gtoks, toks@.len() as int, Seq::empty()) =~= Seq::<
            GPEvent,
        >::empty());
        assert(full =~= full.subrange(0, out@.len() as int));
    }
    out
}

/// Parse a staff region into percussive events. Mirrors
/// `spec_drum_events`.
pub fn parse_drums_from_section(section: &Vec<char>) -> (r: Vec<DrumEvent>)
    ensures
        devents_match(r@, spec_drum_events(section@)),
{
    let marked = mark_comments(section);
    let toks = tokenize(&marked);
    let ghost gtoks = spec_tokenize(spec_mark_comments(section@, 0, Seq::empty()));
    let ghost full = collect_drums(gtoks, 0, Seq::empty());
    let mut out: Vec<DrumEvent> = Vec::new();
    let mut i: usize = 0;
    while i < toks.len()
        invariant
            toks.deep_view() == gtoks,
            full == collect_drums(gtoks, 0, Seq::empty()),
            i <= toks@.len(),
            out@.len() + collect_drums(gtoks, i as int, Seq::empty()).len() == full.len(),
            full == full.subrange(0, out@.len() as int) + collect_drums(
                gtoks,
                i as int,
                Seq::empty(),
            ),
            forall|k: int| 0 <= k < out@.len() ==> devent_matches(#[trigger] out@[k], full[k]),
        decreases toks@.len() - i,
    {
        proof {
            assert(toks@[i as int]@ =~= toks.deep_view()[i as int]);
            lemma_collect_drums_unfold(gtoks, i as int);
        }
        let ghost len0 = out@.len() as int;
        match classify_drum_exec(&toks[i]) {
            Some(e) => {
                proof {
                    let g = classify_drum(gtoks[i as int]).unwrap();
                    let rest = collect_drums(gtoks, i + 1 as int, Seq::empty());
                    assert(full == full.subrange(0, len0) + (seq![g] + rest));
                    assert(full[len0] == g);
                    assert(full =~= full.subrange(0, len0 + 1) + rest);
                }
                out.push(e);
            },
            None => {},
        }
        i = i + 1;
    }
    proof {
        assert(collect_drums(gtoks, toks@.len() as int, Seq::empty()) =~= Seq::<GDEvent>::empty());
        assert(full =~= full.subrange(0, out@.len() as int));
    }
    out
}

} // verus!
