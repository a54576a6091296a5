//! Score and staff assembly: the `\score { << ... >> }` block is located,
//! its `\new Staff`/`\new TabStaff` and `\new DrumStaff` sub-blocks (or
//! bare macro references when no explicit blocks exist) are resolved to
//! melodic or percussive event streams, and per-staff display modifiers
//! are read from structured inline comments.

use vstd::prelude::*;

use crate::braces::spec_braced;
use crate::braces::extract_braced_content;
use crate::chars::is_ident_start;
use crate::chars::match_at;
use crate::chars::skip_ident;
use crate::chars::skip_spaces;
use crate::chars::spec_find;
use crate::chars::spec_rfind;
use crate::chars::chars_of;
use crate::chars::find_from;
use crate::chars::ident_start_char;
use crate::chars::lit_at;
use crate::chars::push_range;
use crate::chars::rfind;
use crate::chars::scan_ident;
use crate::chars::scan_spaces;
use crate::events::DrumVoiceData;
use crate::events::ParseResult;
use crate::events::Staff;
use crate::events::StaffContent;
use crate::events::Tempo;
use crate::events::note_flat_wf;
use crate::events::pevents_flat_wf;
use crate::events::staves_flat_wf;
use crate::notes::acc_matches;
use crate::prep::mark_repeats;
use crate::prep::parse_gain;
use crate::prep::parse_pan;
use crate::prep::parse_punchcard_color;
use crate::prep::spec_directive_value;
use crate::prep::spec_marked;
use crate::prep::spec_punchcard_color;
use crate::section::GDEvent;
use crate::section::GPEvent;
use crate::section::devents_match;
use crate::section::parse_drums_from_section;
use crate::section::parse_notes_from_section;
use crate::section::pevents_match;
use crate::section::spec_drum_events;
use crate::section::spec_pitched_events;
use crate::tempo::parse_tempo;
use crate::tempo::spec_parse_tempo;
use crate::vars::GVar;
use crate::vars::VarEntry;
use crate::vars::is_drum_content;
use crate::vars::lookup_var;
use crate::vars::parse_variables;
use crate::vars::resolve_variables;
use crate::vars::spec_is_drum_content;
use crate::vars::spec_parse_variables;
use crate::vars::spec_resolve;
use crate::vars::var_lookup;
use crate::vars::vars_match;

verus! {

/// Ghost model of a staff's display modifiers.
pub ghost struct GMods {
    pub color: Option<Seq<char>>,
    pub gain: Option<Seq<char>>,
    pub pan: Option<Seq<char>>,
}

pub open spec fn gmods_none() -> GMods {
    GMods { color: None, gain: None, pan: None }
}

/// Ghost model of one percussive voice.
pub ghost struct GVoice {
    pub events: Seq<GDEvent>,
    pub mods: GMods,
}

/// Ghost model of one staff.
pub ghost enum GStaff {
    Pitched(Seq<GPEvent>, GMods),
    Drums(Seq<GVoice>),
}

pub open spec fn voice_matches(v: DrumVoiceData, g: GVoice) -> bool {
    devents_match(v.events@, g.events) && acc_matches(v.punchcard_color, g.mods.color)
        && acc_matches(v.gain, g.mods.gain) && acc_matches(v.pan, g.mods.pan)
}

pub open spec fn voices_match(vs: Seq<DrumVoiceData>, gs: Seq<GVoice>) -> bool {
    vs.len() == gs.len() && forall|i: int| 0 <= i < vs.len() ==> voice_matches(#[trigger] vs[i], gs[i])
}

pub open spec fn staff_matches(s: Staff, g: GStaff) -> bool {
    match g {
        GStaff::Pitched(evs, m) => s.kind is Pitched && (s.content matches StaffContent::Notes(es)
            && pevents_match(es@, evs)) && acc_matches(s.punchcard_color, m.color) && acc_matches(
            s.gain,
            m.gain,
        ) && acc_matches(s.pan, m.pan),
        GStaff::Drums(vs) => s.kind is Drums && (s.content matches StaffContent::Drums(voices)
            && voices_match(voices@, vs)) && s.punchcard_color is None && s.gain is None && s.pan
            is None,
    }
}

pub open spec fn staves_match(ss: Seq<Staff>, gs: Seq<GStaff>) -> bool {
    ss.len() == gs.len() && forall|i: int| 0 <= i < ss.len() ==> staff_matches(#[trigger] ss[i], gs[i])
}

/// A `\score {` head at `p`: the position of the `{`.
pub open spec fn score_head_at(s: Seq<char>, p: int) -> Option<int> {
    if !match_at(s, p, "\\score"@) {
        None
    } else {
        let q = skip_spaces(s, p + 6);
        if q < s.len() && s[q] == '{' {
            Some(q)
        } else {
            None
        }
    }
}

pub open spec fn find_score(s: Seq<char>, p: int) -> Option<int>
    decreases s.len() + 1 - p,
{
    if p < 0 || p > s.len() {
        None
    } else if score_head_at(s, p) is Some {
        Some(p)
    } else if p == s.len() {
        None
    } else {
        find_score(s, p + 1)
    }
}

/// A `\new Staff {` or `\new TabStaff {` head at `p`: the position of the
/// `{`.
pub open spec fn staff_head_at(s: Seq<char>, p: int) -> Option<int> {
    if !match_at(s, p, "\\new"@) {
        None
    } else {
        let q = skip_spaces(s, p + 4);
        if q == p + 4 {
            None
        } else {
            let w = if match_at(s, q, "Staff"@) {
                q + 5
            } else if match_at(s, q, "TabStaff"@) {
                q + 8
            } else {
                -1
            };
            if w < 0 {
                None
            } else {
                let r = skip_spaces(s, w);
                if r < s.len() && s[r] == '{' {
                    Some(r)
                } else {
                    None
                }
            }
        }
    }
}

/// A `\new <kind> {` head at `p` for one fixed kind name: the position of
/// the `{`.
pub open spec fn new_block_head_at(s: Seq<char>, p: int, kind: Seq<char>) -> Option<int> {
    if !match_at(s, p, "\\new"@) {
        None
    } else {
        let q = skip_spaces(s, p + 4);
        if q == p + 4 || !match_at(s, q, kind) {
            None
        } else {
            let r = skip_spaces(s, q + kind.len());
            if r < s.len() && s[r] == '{' {
                Some(r)
            } else {
                None
            }
        }
    }
}

/// The staff built from one pitched/tab staff block body, if it parses to
/// any events.
pub open spec fn pitched_block_staff(content: Seq<char>, vars: Seq<GVar>) -> Option<GStaff> {
    let mods = GMods {
        color: spec_punchcard_color(content),
        gain: spec_directive_value(content, "gain"@),
        pan: spec_directive_value(content, "pan"@),
    };
    let resolved = spec_resolve(content, vars);
    if spec_is_drum_content(content, 0, vars) {
        let hits = spec_drum_events(resolved);
        if hits.len() > 0 {
            Some(GStaff::Drums(seq![GVoice { events: hits, mods }]))
        } else {
            None
        }
    } else {
        let notes = spec_pitched_events(resolved);
        if notes.len() > 0 {
            Some(GStaff::Pitched(notes, mods))
        } else {
            None
        }
    }
}

/// Scan the simultaneous content left to right for `\new Staff`, `\new
/// TabStaff` and `\new DrumStaff` blocks, appending a staff for each
/// block that yields events: staff N of the input maps to staff N of the
/// output, whatever its kind.
pub open spec fn scan_staves(sim: Seq<char>, p: int, vars: Seq<GVar>, acc: Seq<GStaff>) -> Seq<
    GStaff,
>
    decreases sim.len() + 2 - p,
{
    if p < 0 || p >= sim.len() {
        acc
    } else {
        match staff_head_at(sim, p) {
            Option::Some(r) => {
                let next = if p + 1 <= r + 1 <= sim.len() {
                    r + 1
                } else {
                    p + 1
                };
                match spec_braced(sim, r) {
                    Option::None => scan_staves(sim, next, vars, acc),
                    Option::Some(content) => {
                        match pitched_block_staff(content, vars) {
                            Option::Some(st) => scan_staves(sim, next, vars, acc.push(st)),
                            Option::None => scan_staves(sim, next, vars, acc),
                        }
                    },
                }
            },
            Option::None => {
                match new_block_head_at(sim, p, "DrumStaff"@) {
                    Option::Some(r) => {
                        let next = if p + 1 <= r + 1 <= sim.len() {
                            r + 1
                        } else {
                            p + 1
                        };
                        match spec_braced(sim, r) {
                            Option::None => scan_staves(sim, next, vars, acc),
                            Option::Some(content) => {
                                let voices = spec_drum_staff_voices(content, vars);
                                if voices.len() > 0 {
                                    scan_staves(sim, next, vars, acc.push(GStaff::Drums(voices)))
                                } else {
                                    scan_staves(sim, next, vars, acc)
                                }
                            },
                        }
                    },
                    Option::None => scan_staves(sim, p + 1, vars, acc),
                }
            },
        }
    }
}

/// One voice of a drum-voice block body, if it yields events.
pub open spec fn drum_voice_of_block(content: Seq<char>, vars: Seq<GVar>) -> Option<GVoice> {
    let mods = GMods {
        color: spec_punchcard_color(content),
        gain: spec_directive_value(content, "gain"@),
        pan: spec_directive_value(content, "pan"@),
    };
    let events = spec_drum_events(spec_resolve(content, vars));
    if events.len() > 0 {
        Some(GVoice { events, mods })
    } else {
        None
    }
}

/// Scan a drum staff's simultaneous content for `\new DrumVoice` blocks.
pub open spec fn scan_drum_voices(
    sim: Seq<char>,
    p: int,
    vars: Seq<GVar>,
    acc: Seq<GVoice>,
) -> Seq<GVoice>
    decreases sim.len() + 2 - p,
{
    if p < 0 || p >= sim.len() {
        acc
    } else {
        match new_block_head_at(sim, p, "DrumVoice"@) {
            Option::None => scan_drum_voices(sim, p + 1, vars, acc),
            Option::Some(r) => {
                let next = if p + 1 <= r + 1 <= sim.len() {
                    r + 1
                } else {
                    p + 1
                };
                match spec_braced(sim, r) {
                    Option::None => scan_drum_voices(sim, next, vars, acc),
                    Option::Some(content) => {
                        match drum_voice_of_block(content, vars) {
                            Option::Some(v) => scan_drum_voices(sim, next, vars, acc.push(v)),
                            Option::None => scan_drum_voices(sim, next, vars, acc),
                        }
                    },
                }
            },
        }
    }
}

/// Scan for bare `\name` references to percussive macros, one voice each.
pub open spec fn scan_drum_refs(
    sim: Seq<char>,
    i: int,
    vars: Seq<GVar>,
    acc: Seq<GVoice>,
) -> Seq<GVoice>
    decreases sim.len() + 2 - i,
{
    if i < 0 || i >= sim.len() {
        acc
    } else if sim[i] == '\\' && i + 1 < sim.len() && is_ident_start(sim[i + 1]) {
        let w = skip_ident(sim, i + 2);
        let next = if i + 2 <= w <= sim.len() {
            w
        } else {
            i + 2
        };
        match var_lookup(vars, sim.subrange(i + 1, next)) {
            Option::Some(v) => {
                if v.drum {
                    let events = spec_drum_events(v.body);
                    if events.len() > 0 {
                        scan_drum_refs(
                            sim,
                            next,
                            vars,
                            acc.push(GVoice { events, mods: gmods_none() }),
                        )
                    } else {
                        scan_drum_refs(sim, next, vars, acc)
                    }
                } else {
                    scan_drum_refs(sim, next, vars, acc)
                }
            },
            Option::None => scan_drum_refs(sim, next, vars, acc),
        }
    } else {
        scan_drum_refs(sim, i + 1, vars, acc)
    }
}

/// The voices of one `\new DrumStaff` block body: explicit `DrumVoice`
/// blocks inside its `<< ... >>`, else bare percussive references, else
/// the whole body as one voice.
pub open spec fn spec_drum_staff_voices(sc: Seq<char>, vars: Seq<GVar>) -> Seq<GVoice> {
    let inner = {
        match (spec_find(sc, 0, "<<"@), spec_rfind(sc, ">>"@)) {
            (Option::Some(ss), Option::Some(se)) => {
                if ss < se && 0 <= ss && se <= sc.len() {
                    let sim = sc.subrange(ss + 2, se);
                    let voices = scan_drum_voices(sim, 0, vars, Seq::empty());
                    if voices.len() == 0 {
                        scan_drum_refs(sim, 0, vars, Seq::empty())
                    } else {
                        voices
                    }
                } else {
                    Seq::empty()
                }
            },
            _ => Seq::empty(),
        }
    };
    if inner.len() == 0 {
        let events = spec_drum_events(spec_resolve(sc, vars));
        if events.len() > 0 {
            seq![GVoice { events, mods: gmods_none() }]
        } else {
            Seq::empty()
        }
    } else {
        inner
    }
}

/// Scan for bare `\name` references, one staff each, melodic or
/// percussive according to the macro's kind.
pub open spec fn scan_bare_refs(
    sim: Seq<char>,
    i: int,
    vars: Seq<GVar>,
    acc: Seq<GStaff>,
) -> Seq<GStaff>
    decreases sim.len() + 2 - i,
{
    if i < 0 || i >= sim.len() {
        acc
    } else if sim[i] == '\\' && i + 1 < sim.len() && is_ident_start(sim[i + 1]) {
        let w = skip_ident(sim, i + 2);
        let next = if i + 2 <= w <= sim.len() {
            w
        } else {
            i + 2
        };
        match var_lookup(vars, sim.subrange(i + 1, next)) {
            Option::Some(v) => {
                if v.drum {
                    let events = spec_drum_events(v.body);
                    if events.len() > 0 {
                        scan_bare_refs(
                            sim,
                            next,
                            vars,
                            acc.push(
                                GStaff::Drums(seq![GVoice { events, mods: gmods_none() }]),
                            ),
                        )
                    } else {
                        scan_bare_refs(sim, next, vars, acc)
                    }
                } else {
                    let notes = spec_pitched_events(v.body);
                    if notes.len() > 0 {
                        scan_bare_refs(sim, next, vars, acc.push(GStaff::Pitched(notes, gmods_none())))
                    } else {
                        scan_bare_refs(sim, next, vars, acc)
                    }
                }
            },
            Option::None => scan_bare_refs(sim, next, vars, acc),
        }
    } else {
        scan_bare_refs(sim, i + 1, vars, acc)
    }
}

/// The staves of the score's simultaneous block, if the score, the block
/// and at least one staff are found.
pub open spec fn spec_parse_score_staves(s: Seq<char>, vars: Seq<GVar>) -> Option<Seq<GStaff>> {
    match find_score(s, 0) {
        Option::None => None,
        Option::Some(p) => {
            let b = score_head_at(s, p).unwrap();
            match spec_braced(s, b) {
                Option::None => None,
                Option::Some(content) => {
                    match (spec_find(content, 0, "<<"@), spec_rfind(content, ">>"@)) {
                        (Option::Some(ss), Option::Some(se)) => {
                            if ss >= se || ss < 0 || se > content.len() {
                                None
                            } else {
                                let sim = content.subrange(ss + 2, se);
                                let found = scan_staves(sim, 0, vars, Seq::empty());
                                let all = if found.len() == 0 {
                                    scan_bare_refs(sim, 0, vars, Seq::empty())
                                } else {
                                    found
                                };
                                if all.len() == 0 {
                                    None
                                } else {
                                    Some(all)
                                }
                            }
                        },
                        _ => None,
                    }
                },
            }
        },
    }
}


fn try_score_head(code: &Vec<char>, p: usize) -> (r: Option<usize>)
    requires
        p <= code@.len(),
    ensures
        match r {
            Some(b) => score_head_at(code@, p as int) == Some(b as int) && b < code@.len(),
            None => score_head_at(code@, p as int) is None,
        },
{
    if !lit_at(code, p, "\\score") {
        return None;
    }
    let n = code.len();
    proof {
        reveal_strlit("\\score");
        assert(p + 6 <= n);
    }
    let q = scan_spaces(code, p + 6);
    if q < code.len() && code[q] == '{' {
        Some(q)
    } else {
        None
    }
}

fn find_score_from(code: &Vec<char>, p: usize) -> (r: Option<usize>)
    requires
        p <= code@.len(),
    ensures
        match r {
            Some(q) => find_score(code@, p as int) == Some(q as int) && score_head_at(
                code@,
                q as int,
            ) is Some,
            None => find_score(code@, p as int) is None,
        },
    decreases code@.len() + 1 - p,
{
    match try_score_head(code, p) {
        Some(_) => Some(p),
        None => {
            if p == code.len() {
                None
            } else {
                find_score_from(code, p + 1)
            }
        },
    }
}

fn try_staff_head(code: &Vec<char>, p: usize) -> (r: Option<usize>)
    requires
        p <= code@.len(),
    ensures
        match r {
            Some(b) => staff_head_at(code@, p as int) == Some(b as int) && p < b < code@.len(),
            None => staff_head_at(code@, p as int) is None,
        },
{
    if !lit_at(code, p, "\\new") {
        return None;
    }
    let n = code.len();
    proof {
        reveal_strlit("\\new");
        assert(p + 4 <= n);
    }
    let q = scan_spaces(code, p + 4);
    if q == p + 4 {
        return None;
    }
    let w: usize = if lit_at(code, q, "Staff") {
        proof {
            reveal_strlit("Staff");
        }
        q + 5
    } else if lit_at(code, q, "TabStaff") {
        proof {
            reveal_strlit("TabStaff");
        }
        q + 8
    } else {
        return None;
    };
    let r = scan_spaces(code, w);
    if r < code.len() && code[r] == '{' {
        Some(r)
    } else {
        None
    }
}

fn try_new_block_head(code: &Vec<char>, p: usize, kind: &str, klen: usize) -> (r: Option<usize>)
    requires
        p <= code@.len(),
        klen == kind@.len(),
    ensures
        match r {
            Some(b) => new_block_head_at(code@, p as int, kind@) == Some(b as int) && p < b
                < code@.len(),
            None => new_block_head_at(code@, p as int, kind@) is None,
        },
{
    if !lit_at(code, p, "\\new") {
        return None;
    }
    let n = code.len();
    proof {
        reveal_strlit("\\new");
        assert(p + 4 <= n);
    }
    let q = scan_spaces(code, p + 4);
    if q == p + 4 || !lit_at(code, q, kind) {
        return None;
    }
    proof {
        assert(q + klen <= n);
    }
    let r = scan_spaces(code, q + klen);
    if r < code.len() && code[r] == '{' {
        Some(r)
    } else {
        None
    }
}

/// Build the staff of one pitched/tab block body. Mirrors
/// `pitched_block_staff`.
fn pitched_block_exec(content: &Vec<char>, table: &Vec<VarEntry>, Ghost(gs): Ghost<Seq<GVar>>) -> (
    r: Option<Staff>)
    requires
        vars_match(table@, gs),
    ensures
        match r {
            Some(st) => pitched_block_staff(content@, gs) matches Some(g) && staff_matches(st, g),
            None => pitched_block_staff(content@, gs) is None,
        },
{
    let color = parse_punchcard_color(content);
    let gain = parse_gain(content);
    let pan = parse_pan(content);
    let resolved = resolve_variables(content, table, Ghost(gs));
    if is_drum_content(content, table, Ghost(gs)) {
        let hits = parse_drums_from_section(&resolved);
        if hits.len() > 0 {
            let voice = DrumVoiceData { events: hits, punchcard_color: color, gain, pan };
            let mut voices: Vec<DrumVoiceData> = Vec::new();
            voices.push(voice);
            let st = Staff::new_drums(voices);
            Some(st)
        } else {
            None
        }
    } else {
        let notes = parse_notes_from_section(&resolved);
        if notes.len() > 0 {
            Some(Staff::new_pitched_with_options(notes, color, gain, pan))
        } else {
            None
        }
    }
}

/// The left-to-right block scan. Mirrors `scan_staves`.
fn scan_staves_exec(
    sim: &Vec<char>,
    p: usize,
    table: &Vec<VarEntry>,
    acc: Vec<Staff>,
    Ghost(gs): Ghost<Seq<GVar>>,
    Ghost(gacc): Ghost<Seq<GStaff>>,
) -> (r: Vec<Staff>)
    requires
        p <= sim@.len(),
        vars_match(table@, gs),
        staves_match(acc@, gacc),
    ensures
        staves_match(r@, scan_staves(sim@, p as int, gs, gacc)),
    decreases sim@.len() - p,
{
    if p >= sim.len() {
        return acc;
    }
    match try_staff_head(sim, p) {
        Some(r) => {
            let next = r + 1;
            match extract_braced_content(sim, r) {
                None => scan_staves_exec(sim, next, table, acc, Ghost(gs), Ghost(gacc)),
                Some(content) => {
                    match pitched_block_exec(&content, table, Ghost(gs)) {
                        Some(st) => {
                            let ghost g = pitched_block_staff(content@, gs).unwrap();
                            let mut acc2 = acc;
                            acc2.push(st);
                            scan_staves_exec(sim, next, table, acc2, Ghost(gs), Ghost(gacc.push(g)))
                        },
                        None => scan_staves_exec(sim, next, table, acc, Ghost(gs), Ghost(gacc)),
                    }
                },
            }
        },
        None => {
            proof {
                reveal_strlit("DrumStaff");
            }
            match try_new_block_head(sim, p, "DrumStaff", 9) {
                None => scan_staves_exec(sim, p + 1, table, acc, Ghost(gs), Ghost(gacc)),
                Some(r) => {
                    let next = r + 1;
                    match extract_braced_content(sim, r) {
                        None => scan_staves_exec(sim, next, table, acc, Ghost(gs), Ghost(gacc)),
                        Some(content) => {
                            let voices = drum_staff_voices_exec(&content, table, Ghost(gs));
                            if voices.len() > 0 {
                                let ghost g = GStaff::Drums(spec_drum_staff_voices(content@, gs));
                                let mut acc2 = acc;
                                acc2.push(Staff::new_drums(voices));
                                scan_staves_exec(
                                    sim,
                                    next,
                                    table,
                                    acc2,
                                    Ghost(gs),
                                    Ghost(gacc.push(g)),
                                )
                            } else {
                                scan_staves_exec(sim, next, table, acc, Ghost(gs), Ghost(gacc))
                            }
                        },
                    }
                },
            }
        },
    }
}

/// Build one voice of a drum-voice block body. Mirrors
/// `drum_voice_of_block`.
fn drum_voice_block_exec(content: &Vec<char>, table: &Vec<VarEntry>, Ghost(gs): Ghost<
    Seq<GVar>,
>) -> (r: Option<DrumVoiceData>)
    requires
        vars_match(table@, gs),
    ensures
        match r {
            Some(v) => drum_voice_of_block(content@, gs) matches Some(g) && voice_matches(v, g),
            None => drum_voice_of_block(content@, gs) is None,
        },
{
    let color = parse_punchcard_color(content);
    let gain = parse_gain(content);
    let pan = parse_pan(content);
    let resolved = resolve_variables(content, table, Ghost(gs));
    let events = parse_drums_from_section(&resolved);
    if events.len() > 0 {
        Some(DrumVoiceData { events, punchcard_color: color, gain, pan })
    } else {
        None
    }
}

fn scan_drum_voices_exec(
    sim: &Vec<char>,
    p: usize,
    table: &Vec<VarEntry>,
    acc: Vec<DrumVoiceData>,
    Ghost(gs): Ghost<Seq<GVar>>,
    Ghost(gacc): Ghost<Seq<GVoice>>,
) -> (r: Vec<DrumVoiceData>)
    requires
        p <= sim@.len(),
        vars_match(table@, gs),
        voices_match(acc@, gacc),
    ensures
        voices_match(r@, scan_drum_voices(sim@, p as int, gs, gacc)),
    decreases sim@.len() - p,
{
    if p >= sim.len() {
        return acc;
    }
    proof {
        reveal_strlit("DrumVoice");
    }
    match try_new_block_head(sim, p, "DrumVoice", 9) {
        None => scan_drum_voices_exec(sim, p + 1, table, acc, Ghost(gs), Ghost(gacc)),
        Some(r) => {
            let next = r + 1;
            match extract_braced_content(sim, r) {
                None => scan_drum_voices_exec(sim, next, table, acc, Ghost(gs), Ghost(gacc)),
                Some(content) => {
                    match drum_voice_block_exec(&content, table, Ghost(gs)) {
                        Some(v) => {
                            let ghost g = drum_voice_of_block(content@, gs).unwrap();
                            let mut acc2 = acc;
                            acc2.push(v);
                            scan_drum_voices_exec(
                                sim,
                                next,
                                table,
                                acc2,
                                Ghost(gs),
                                Ghost(gacc.push(g)),
                            )
                        },
                        None => scan_drum_voices_exec(sim, next, table, acc, Ghost(gs), Ghost(gacc)),
                    }
                },
            }
        },
    }
}

fn scan_drum_refs_exec(
    sim: &Vec<char>,
    i: usize,
    table: &Vec<VarEntry>,
    acc: Vec<DrumVoiceData>,
    Ghost(gs): Ghost<Seq<GVar>>,
    Ghost(gacc): Ghost<Seq<GVoice>>,
) -> (r: Vec<DrumVoiceData>)
    requires
        i <= sim@.len(),
        vars_match(table@, gs),
        voices_match(acc@, gacc),
    ensures
        voices_match(r@, scan_drum_refs(sim@, i as int, gs, gacc)),
    decreases sim@.len() - i,
{
    if i >= sim.len() {
        return acc;
    }
    if sim[i] == '\\' && i + 1 < sim.len() && ident_start_char(sim[i + 1]) {
        let w = scan_ident(sim, i + 2);
        let next = if i + 2 <= w && w <= sim.len() {
            w
        } else {
            i + 2
        };
        let mut name: Vec<char> = Vec::new();
        push_range(&mut name, sim, i + 1, next);
        proof {
            assert(name@ =~= sim@.subrange(i + 1 as int, next as int));
        }
        match lookup_var(table, &name, Ghost(gs)) {
            Some(k) => {
                if table[k].drum {
                    let events = parse_drums_from_section(&table[k].body);
                    if events.len() > 0 {
                        let ghost g = GVoice {
                            events: spec_drum_events(gs[k as int].body),
                            mods: gmods_none(),
                        };
                        let mut acc2 = acc;
                        acc2.push(
                            DrumVoiceData {
                                events,
                                punchcard_color: None,
                                gain: None,
                                pan: None,
                            },
                        );
                        scan_drum_refs_exec(sim, next, table, acc2, Ghost(gs), Ghost(gacc.push(g)))
                    } else {
                        scan_drum_refs_exec(sim, next, table, acc, Ghost(gs), Ghost(gacc))
                    }
                } else {
                    scan_drum_refs_exec(sim, next, table, acc, Ghost(gs), Ghost(gacc))
                }
            },
            None => scan_drum_refs_exec(sim, next, table, acc, Ghost(gs), Ghost(gacc)),
        }
    } else {
        scan_drum_refs_exec(sim, i + 1, table, acc, Ghost(gs), Ghost(gacc))
    }
}

/// The voices of one drum staff body. Mirrors `spec_drum_staff_voices`.
fn drum_staff_voices_exec(sc: &Vec<char>, table: &Vec<VarEntry>, Ghost(gs): Ghost<Seq<GVar>>) -> (r:
    Vec<DrumVoiceData>)
    requires
        vars_match(table@, gs),
    ensures
        voices_match(r@, spec_drum_staff_voices(sc@, gs)),
{
    let empty: Vec<DrumVoiceData> = Vec::new();
    let inner: Vec<DrumVoiceData> = match (find_from(sc, 0, "<<"), rfind(sc, ">>")) {
        (Some(ss), Some(se)) => {
            if ss < se {
                proof {
                    reveal_strlit("<<");
                    reveal_strlit(">>");
                    assert(se + 2 <= sc@.len());
                    if se < ss + 2 {
                        assert(sc@.subrange(ss as int, ss + 2)[1] == sc@[ss + 1]);
                        assert(sc@.subrange(se as int, se + 2)[0] == sc@[se as int]);
                        assert(false);
                    }
                }
                let mut sim: Vec<char> = Vec::new();
                push_range(&mut sim, sc, ss + 2, se);
                proof {
                    assert(sim@ =~= sc@.subrange(ss + 2 as int, se as int));
                }
                let e2: Vec<DrumVoiceData> = Vec::new();
                let voices = scan_drum_voices_exec(
                    &sim,
                    0,
                    table,
                    e2,
                    Ghost(gs),
                    Ghost(Seq::empty()),
                );
                if voices.len() == 0 {
                    let e3: Vec<DrumVoiceData> = Vec::new();
                    scan_drum_refs_exec(&sim, 0, table, e3, Ghost(gs), Ghost(Seq::empty()))
                } else {
                    voices
                }
            } else {
                empty
            }
        },
        _ => empty,
    };
    if inner.len() == 0 {
        let resolved = resolve_variables(sc, table, Ghost(gs));
        let events = parse_drums_from_section(&resolved);
        if events.len() > 0 {
            let mut one: Vec<DrumVoiceData> = Vec::new();
            one.push(DrumVoiceData { events, punchcard_color: None, gain: None, pan: None });
            one
        } else {
            let none: Vec<DrumVoiceData> = Vec::new();
            none
        }
    } else {
        inner
    }
}

fn scan_bare_refs_exec(
    sim: &Vec<char>,
    i: usize,
    table: &Vec<VarEntry>,
    acc: Vec<Staff>,
    Ghost(gs): Ghost<Seq<GVar>>,
    Ghost(gacc): Ghost<Seq<GStaff>>,
) -> (r: Vec<Staff>)
    requires
        i <= sim@.len(),
        vars_match(table@, gs),
        staves_match(acc@, gacc),
    ensures
        staves_match(r@, scan_bare_refs(sim@, i as int, gs, gacc)),
    decreases sim@.len() - i,
{
    if i >= sim.len() {
        return acc;
    }
    if sim[i] == '\\' && i + 1 < sim.len() && ident_start_char(sim[i + 1]) {
        let w = scan_ident(sim, i + 2);
        let next = if i + 2 <= w && w <= sim.len() {
            w
        } else {
            i + 2
        };
        let mut name: Vec<char> = Vec::new();
        push_range(&mut name, sim, i + 1, next);
        proof {
            assert(name@ =~= sim@.subrange(i + 1 as int, next as int));
        }
        match lookup_var(table, &name, Ghost(gs)) {
            Some(k) => {
                if table[k].drum {
                    let events = parse_drums_from_section(&table[k].body);
                    if events.len() > 0 {
                        let ghost g = GStaff::Drums(
                            seq![
                                GVoice {
                                    events: spec_drum_events(gs[k as int].body),
                                    mods: gmods_none(),
                                },
                            ],
                        );
                        let mut voices: Vec<DrumVoiceData> = Vec::new();
                        voices.push(
                            DrumVoiceData {
                                events,
                                punchcard_color: None,
                                gain: None,
                                pan: None,
                            },
                        );
                        let mut acc2 = acc;
                        acc2.push(Staff::new_drums(voices));
                        scan_bare_refs_exec(sim, next, table, acc2, Ghost(gs), Ghost(gacc.push(g)))
                    } else {
                        scan_bare_refs_exec(sim, next, table, acc, Ghost(gs), Ghost(gacc))
                    }
                } else {
                    let notes = parse_notes_from_section(&table[k].body);
                    if notes.len() > 0 {
                        let ghost g = GStaff::Pitched(
                            spec_pitched_events(gs[k as int].body),
                            gmods_none(),
                        );
                        let mut acc2 = acc;
                        acc2.push(Staff::new_pitched(notes));
                        scan_bare_refs_exec(sim, next, table, acc2, Ghost(gs), Ghost(gacc.push(g)))
                    } else {
                        scan_bare_refs_exec(sim, next, table, acc, Ghost(gs), Ghost(gacc))
                    }
                }
            },
            None => scan_bare_refs_exec(sim, next, table, acc, Ghost(gs), Ghost(gacc)),
        }
    } else {
        scan_bare_refs_exec(sim, i + 1, table, acc, Ghost(gs), Ghost(gacc))
    }
}

/// Locate the score's simultaneous block and assemble its staves. Mirrors
/// `spec_parse_score_staves`.
fn parse_score_staves(code: &Vec<char>, table: &Vec<VarEntry>, Ghost(gs): Ghost<Seq<GVar>>) -> (r:
    Option<Vec<Staff>>)
    requires
        vars_match(table@, gs),
    ensures
        match r {
            Some(v) => spec_parse_score_staves(code@, gs) matches Some(g) && staves_match(v@, g),
            None => spec_parse_score_staves(code@, gs) is None,
        },
{
    let p = match find_score_from(code, 0) {
        None => {
            return None;
        },
        Some(p) => p,
    };
    let b = match try_score_head(code, p) {
        None => {
            return None;  // unreachable: the found position matches
        },
        Some(b) => b,
    };
    let content = match extract_braced_content(code, b) {
        None => {
            return None;
        },
        Some(c) => c,
    };
    let ss = match find_from(&content, 0, "<<") {
        None => {
            return None;
        },
        Some(x) => x,
    };
    let se = match rfind(&content, ">>") {
        None => {
            return None;
        },
        Some(x) => x,
    };
    if ss >= se {
        return None;
    }
    proof {
        reveal_strlit("<<");
        reveal_strlit(">>");
        assert(se + 2 <= content@.len());
        if se < ss + 2 {
            assert(content@.subrange(ss as int, ss + 2)[1] == content@[ss + 1]);
            assert(content@.subrange(se as int, se + 2)[0] == content@[se as int]);
            assert(false);
        }
    }
    let mut sim: Vec<char> = Vec::new();
    push_range(&mut sim, &content, ss + 2, se);
    proof {
        assert(sim@ =~= content@.subrange(ss + 2 as int, se as int));
    }
    let e1: Vec<Staff> = Vec::new();
    let found = scan_staves_exec(&sim, 0, table, e1, Ghost(gs), Ghost(Seq::empty()));
    let all = if found.len() == 0 {
        let e2: Vec<Staff> = Vec::new();
        scan_bare_refs_exec(&sim, 0, table, e2, Ghost(gs), Ghost(Seq::empty()))
    } else {
        found
    };
    if all.len() == 0 {
        None
    } else {
        Some(all)
    }
}

/// The first top-level braced region of `s`, or which brace is missing:
/// no `{` at all, or a first `{` whose matching `}` never comes.
pub ghost enum GSection {
    Found(Seq<char>),
    NoOpen,
    NoClose,
}

pub open spec fn spec_notes_section(s: Seq<char>) -> GSection {
    match spec_find(s, 0, "{"@) {
        Option::None => GSection::NoOpen,
        Option::Some(a) => {
            match spec_braced(s, a) {
                Option::None => GSection::NoClose,
                Option::Some(t) => GSection::Found(t),
            }
        },
    }
}

/// Extract the first top-level braced group (the brace extractor applied
/// at the first `{`). Mirrors `spec_notes_section`; the error strings
/// name the missing brace.
fn extract_notes_section(code: &Vec<char>) -> (r: Result<Vec<char>, String>)
    ensures
        match r {
            Ok(v) => spec_notes_section(code@) matches GSection::Found(t) && v@ == t,
            Err(m) => match spec_notes_section(code@) {
                GSection::NoOpen => m@ == "No '{' found"@,
                GSection::NoClose => m@ == "No '}' found"@,
                GSection::Found(_) => false,
            },
        },
{
    let a = match find_from(code, 0, "{") {
        None => {
            return Err(String::from_str("No '{' found"));
        },
        Some(a) => a,
    };
    proof {
        reveal_strlit("{");
        assert(a < code@.len());
    }
    match extract_braced_content(code, a) {
        None => Err(String::from_str("No '}' found")),
        Some(v) => Ok(v),
    }
}

/// The table with every body repeat-marked.
pub open spec fn marked_vars(gs: Seq<GVar>) -> Seq<GVar> {
    Seq::new(
        gs.len(),
        |i: int| GVar { name: gs[i].name, body: spec_marked(gs[i].body), drum: gs[i].drum },
    )
}

/// The outcome of a whole parse.
pub ghost enum GParse {
    Parsed(Seq<GStaff>, Tempo),
    MissingTempo,
    NoOpen,
    NoClose,
}

/// The whole pipeline: tempo, macro table, repeat marking of the text and
/// of every macro body, then score assembly, with the single-staff
/// fallback when no score block yields staves.
pub open spec fn spec_parse(code: Seq<char>) -> GParse {
    match spec_parse_tempo(code) {
        Option::None => GParse::MissingTempo,
        Option::Some(tempo) => {
            let vars = marked_vars(spec_parse_variables(code));
            let marked = spec_marked(code);
            match spec_parse_score_staves(marked, vars) {
                Option::Some(staves) => GParse::Parsed(staves, tempo),
                Option::None => {
                    match spec_notes_section(marked) {
                        GSection::NoOpen => GParse::NoOpen,
                        GSection::NoClose => GParse::NoClose,
                        GSection::Found(sec) => GParse::Parsed(
                            seq![GStaff::Pitched(spec_pitched_events(sec), gmods_none())],
                            tempo,
                        ),
                    }
                },
            }
        },
    }
}

/// The error reported when no tempo directive is found.
pub open spec fn missing_tempo_message() -> Seq<char> {
    "Missing tempo: LilyPond input must include a \\tempo directive (e.g., \\tempo 4 = 120)"@
}

proof fn lemma_matching_staves_flat(ss: Seq<Staff>, gss: Seq<GStaff>)
    requires
        staves_match(ss, gss),
    ensures
        staves_flat_wf(ss),
{
    assert forall|i: int| 0 <= i < ss.len() implies match (#[trigger] ss[i]).content {
        StaffContent::Notes(evs) => pevents_flat_wf(evs@),
        StaffContent::Drums(_) => true,
    } by {
        assert(staff_matches(ss[i], gss[i]));
        match ss[i].content {
            StaffContent::Notes(evs) => {
                match gss[i] {
                    GStaff::Pitched(gevs, _) => {
                        assert forall|j: int| 0 <= j < evs@.len() implies match #[trigger] evs@[j] {
                            crate::events::PitchedEvent::Note(n) => note_flat_wf(n),
                            _ => true,
                        } by {
                            assert(crate::section::pevent_matches(evs@[j], gevs[j]));
                        }
                    },
                    GStaff::Drums(_) => {},
                }
            },
            StaffContent::Drums(_) => {},
        }
    }
}

/// The notation parser.
pub struct LilyPondParser {}

impl LilyPondParser {
    pub fn new() -> (r: LilyPondParser) {
        LilyPondParser {  }
    }

    /// Parse a whole notation text into staves and a tempo. Mirrors
    /// `spec_parse`: the tempo directive is required, staves come in
    /// source order whatever their kind, and a missing score block falls
    /// back to one melodic staff read from the first top-level braced
    /// group.
    pub fn parse(&self, code: &str) -> (r: Result<ParseResult, String>)
        ensures
            match r {
                Ok(pr) => spec_parse(code@) matches GParse::Parsed(gstaves, t) && staves_match(
                    pr.staves@,
                    gstaves,
                ) && pr.tempo == t && staves_flat_wf(pr.staves@),
                Err(m) => match spec_parse(code@) {
                    GParse::MissingTempo => m@ == missing_tempo_message(),
                    GParse::NoOpen => m@ == "No '{' found"@,
                    GParse::NoClose => m@ == "No '}' found"@,
                    GParse::Parsed(_, _) => false,
                },
            },
    {
        let chars = chars_of(code);
        let tempo = match parse_tempo(&chars) {
            None => {
                return Err(
                    String::from_str(
                        "Missing tempo: LilyPond input must include a \\tempo directive (e.g., \\tempo 4 = 120)",
                    ),
                );
            },
            Some(t) => t,
        };
        let table = parse_variables(&chars);
        let ghost gvars0 = spec_parse_variables(code@);
        let mut mtable: Vec<VarEntry> = Vec::new();
        let mut i: usize = 0;
        while i < table.len()
            invariant
                vars_match(table@, gvars0),
                i <= table@.len(),
                mtable@.len() == i,
                forall|k: int|
                    0 <= k < i ==> crate::vars::var_matches(
                        #[trigger] mtable@[k],
                        marked_vars(gvars0)[k],
                    ),
            decreases table@.len() - i,
        {
            let body = crate::tokenize::clone_chars(&table[i].body);
            let marked_body = mark_repeats(body);
            let mut nm: Vec<char> = Vec::new();
            push_range(&mut nm, &table[i].name, 0, table[i].name.len());
            proof {
                assert(nm@ =~= table@[i as int].name@.subrange(
                    0,
                    table@[i as int].name@.len() as int,
                ));
                assert(nm@ =~= table@[i as int].name@);
            }
            mtable.push(VarEntry { name: nm, body: marked_body, drum: table[i].drum });
            i = i + 1;
        }
        let ghost gvars = marked_vars(gvars0);
        let marked = mark_repeats(chars);
        match parse_score_staves(&marked, &mtable, Ghost(gvars)) {
            Some(staves) => {
                proof {
                    let g = spec_parse_score_staves(spec_marked(code@), gvars).unwrap();
                    lemma_matching_staves_flat(staves@, g);
                }
                Ok(ParseResult { staves, tempo })
            },
            None => {
                match extract_notes_section(&marked) {
                    Err(e) => Err(e),
                    Ok(sec) => {
                        let events = parse_notes_from_section(&sec);
                        let mut staves: Vec<Staff> = Vec::new();
                        staves.push(Staff::new_pitched(events));
                        proof {
                            let gsec = match spec_notes_section(spec_marked(code@)) {
                                GSection::Found(t) => t,
                                _ => Seq::empty(),
                            };
                            let gst = GStaff::Pitched(spec_pitched_events(gsec), gmods_none());
                            assert(staff_matches(staves@[0], gst));
                            lemma_matching_staves_flat(staves@, seq![gst]);
                        }
                        Ok(ParseResult { staves, tempo })
                    },
                }
            },
        }
    }
}

impl Default for LilyPondParser {
    fn default() -> (r: Self)
        ensures
            r == (LilyPondParser {  }),
    {
        Self::new()
    }
}

} // verus!
