//! The staff-level generator: pitched and percussive staves rendered to
//! pattern expressions, modifier chains, multi-voice stacking, and the
//! HTML shell around the final pattern text.

use vstd::prelude::*;

use crate::chars::push_chars;
use crate::chars::push_str_chars;
use crate::chars::string_of;
use crate::chars::chars_of;
use crate::events::DrumEvent;
use crate::events::DrumVoiceData;
use crate::events::Note;
use crate::events::PitchedEvent;
use crate::events::Staff;
use crate::events::StaffContent;
use crate::events::Tempo;
use crate::fmt::spec_cpm_expression;
use crate::fmt::spec_format_drum_hit;
use crate::fmt::spec_format_pattern_value;
use crate::fmt::spec_format_pitched_note;
use crate::fmt::spec_format_rest;
use crate::fmt::format_cpm_expression;
use crate::fmt::format_drum_hit;
use crate::fmt::format_pattern_value;
use crate::fmt::format_pitched_note;
use crate::fmt::format_rest;
use crate::pattern::GRender;
use crate::pattern::RenderEvent;
use crate::pattern::gen_walk;
use crate::pattern::count_walk;
use crate::pattern::lemma_gen_count;
use crate::pattern::renders_match;
use crate::pattern::spec_gen;
use crate::pattern::spec_join;
use crate::pattern::join_chars;

verus! {

/// The renderable form of one pitched event.
pub open spec fn pev_render(e: PitchedEvent) -> GRender {
    match e {
        PitchedEvent::Note(n) => GRender::Cell(spec_format_pitched_note(n)),
        PitchedEvent::Rest { duration } => GRender::Cell(spec_format_rest(duration)),
        PitchedEvent::BarLine => GRender::Bar,
        PitchedEvent::RepeatStart(c) => GRender::RepStart(c),
        PitchedEvent::RepeatEnd => GRender::RepEnd,
        PitchedEvent::Comment(_) => GRender::Skip,
    }
}

pub open spec fn pevs_render(es: Seq<PitchedEvent>) -> Seq<GRender> {
    Seq::new(es.len(), |i: int| pev_render(es[i]))
}

/// The renderable form of one percussive event.
pub open spec fn dev_render(e: DrumEvent) -> GRender {
    match e {
        DrumEvent::Hit(h) => GRender::Cell(spec_format_drum_hit(h)),
        DrumEvent::Rest { duration } => GRender::Cell(spec_format_rest(duration)),
        DrumEvent::BarLine => GRender::Bar,
        DrumEvent::RepeatStart(c) => GRender::RepStart(c),
        DrumEvent::RepeatEnd => GRender::RepEnd,
        DrumEvent::Comment(_) => GRender::Skip,
    }
}

pub open spec fn devs_render(es: Seq<DrumEvent>) -> Seq<GRender> {
    Seq::new(es.len(), |i: int| dev_render(es[i]))
}

/// Does the sequence hold any note?
pub open spec fn has_note(es: Seq<PitchedEvent>) -> bool {
    exists|i: int| 0 <= i < es.len() && es[i] is Note
}

/// Does the sequence hold any hit?
pub open spec fn has_hit(es: Seq<DrumEvent>) -> bool {
    exists|i: int| 0 <= i < es.len() && es[i] is Hit
}

/// Every rest has a positive denominator (a zero one cannot be rendered:
/// its quarter-note count would divide by zero, and the source encoding
/// never writes one for a sounding rest).
pub open spec fn prests_positive(es: Seq<PitchedEvent>) -> bool {
    forall|i: int| 0 <= i < es.len() ==> match #[trigger] es[i] {
        PitchedEvent::Rest { duration } => duration >= 1,
        _ => true,
    }
}

pub open spec fn drests_positive(es: Seq<DrumEvent>) -> bool {
    forall|i: int| 0 <= i < es.len() ==> match #[trigger] es[i] {
        DrumEvent::Rest { duration } => duration >= 1,
        _ => true,
    }
}

fn pitched_renders(events: &[PitchedEvent]) -> (r: Vec<RenderEvent>)
    requires
        prests_positive(events@),
    ensures
        renders_match(r@, pevs_render(events@)),
{
    let mut out: Vec<RenderEvent> = Vec::new();
    let mut i: usize = 0;
    while i < events.len()
        invariant
            prests_positive(events@),
            i <= events@.len(),
            out@.len() == i,
            forall|k: int|
                0 <= k < i ==> crate::pattern::render_matches(
                    #[trigger] out@[k],
                    pev_render(events@[k]),
                ),
        decreases events@.len() - i,
    {
        let e: RenderEvent = match &events[i] {
            PitchedEvent::Note(n) => RenderEvent::Cell(format_pitched_note(n)),
            PitchedEvent::Rest { duration } => RenderEvent::Cell(format_rest(*duration)),
            PitchedEvent::BarLine => RenderEvent::Bar,
            PitchedEvent::RepeatStart(c) => RenderEvent::RepStart(*c),
            PitchedEvent::RepeatEnd => RenderEvent::RepEnd,
            PitchedEvent::Comment(_) => RenderEvent::Skip,
        };
        out.push(e);
        i = i + 1;
    }
    out
}

fn drum_renders(events: &[DrumEvent]) -> (r: Vec<RenderEvent>)
    requires
        drests_positive(events@),
    ensures
        renders_match(r@, devs_render(events@)),
{
    let mut out: Vec<RenderEvent> = Vec::new();
    let mut i: usize = 0;
    while i < events.len()
        invariant
            drests_positive(events@),
            i <= events@.len(),
            out@.len() == i,
            forall|k: int|
                0 <= k < i ==> crate::pattern::render_matches(
                    #[trigger] out@[k],
                    dev_render(events@[k]),
                ),
        decreases events@.len() - i,
    {
        let e: RenderEvent = match &events[i] {
            DrumEvent::Hit(h) => RenderEvent::Cell(format_drum_hit(h)),
            DrumEvent::Rest { duration } => RenderEvent::Cell(format_rest(*duration)),
            DrumEvent::BarLine => RenderEvent::Bar,
            DrumEvent::RepeatStart(c) => RenderEvent::RepStart(*c),
            DrumEvent::RepeatEnd => RenderEvent::RepEnd,
            DrumEvent::Comment(_) => RenderEvent::Skip,
        };
        out.push(e);
        i = i + 1;
    }
    out
}

/// One modifier chain entry, `\n<indent>.<name>(<value>)`.
pub open spec fn mod_entry(name: Seq<char>, value: Seq<char>, indent: Seq<char>) -> Seq<char> {
    "\n"@ + indent + "."@ + name + "("@ + value + ")"@
}

/// The modifier chain in its fixed order: gain, pan, colour with the
/// punchcard marker.
pub open spec fn spec_modifiers(
    color: Option<String>,
    gain: Option<String>,
    pan: Option<String>,
    indent: Seq<char>,
) -> Seq<char> {
    (match gain {
        Option::Some(g) => mod_entry("gain"@, spec_format_pattern_value(g@), indent),
        Option::None => Seq::empty(),
    }) + (match pan {
        Option::Some(p) => mod_entry("pan"@, spec_format_pattern_value(p@), indent),
        Option::None => Seq::empty(),
    }) + (match color {
        Option::Some(c) => "\n"@ + indent + ".color(\""@ + c@ + "\")"@ + "\n"@ + indent
            + "._punchcard()"@,
        Option::None => Seq::empty(),
    })
}

/// Render the modifier chain. Mirrors `spec_modifiers`.
fn format_modifiers(
    color: &Option<String>,
    gain: &Option<String>,
    pan: &Option<String>,
    indent: &str,
) -> (r: Vec<char>)
    ensures
        r@ == spec_modifiers(*color, *gain, *pan, indent@),
{
    let mut out: Vec<char> = Vec::new();
    match gain {
        Some(g) => {
            push_str_chars(&mut out, "\n");
            push_str_chars(&mut out, indent);
            push_str_chars(&mut out, ".gain(");
            let gv = chars_of(g.as_str());
            let fv = format_pattern_value(&gv);
            push_chars(&mut out, &fv);
            push_str_chars(&mut out, ")");
            proof {
                reveal_strlit("gain");
                reveal_strlit(".gain(");
                reveal_strlit(".");
                reveal_strlit("(");
                assert(".gain("@ =~= "."@ + "gain"@ + "("@);
            }
        },
        None => {},
    }
    let ghost gpart = match gain {
        Option::Some(g) => mod_entry("gain"@, spec_format_pattern_value(g@), indent@),
        Option::None => Seq::empty(),
    };
    proof {
        assert(out@ =~= gpart);
    }
    match pan {
        Some(p) => {
            push_str_chars(&mut out, "\n");
            push_str_chars(&mut out, indent);
            push_str_chars(&mut out, ".pan(");
            let pv = chars_of(p.as_str());
            let fv = format_pattern_value(&pv);
            push_chars(&mut out, &fv);
            push_str_chars(&mut out, ")");
            proof {
                reveal_strlit("pan");
                reveal_strlit(".pan(");
                reveal_strlit(".");
                reveal_strlit("(");
                assert(".pan("@ =~= "."@ + "pan"@ + "("@);
            }
        },
        None => {},
    }
    let ghost ppart = match pan {
        Option::Some(p) => mod_entry("pan"@, spec_format_pattern_value(p@), indent@),
        Option::None => Seq::empty(),
    };
    proof {
        assert(out@ =~= gpart + ppart);
    }
    match color {
        Some(c) => {
            push_str_chars(&mut out, "\n");
            push_str_chars(&mut out, indent);
            push_str_chars(&mut out, ".color(\"");
            let cv = chars_of(c.as_str());
            push_chars(&mut out, &cv);
            push_str_chars(&mut out, "\")");
            push_str_chars(&mut out, "\n");
            push_str_chars(&mut out, indent);
            push_str_chars(&mut out, "._punchcard()");
        },
        None => {},
    }
    let ghost cpart = match color {
        Option::Some(c) => "\n"@ + indent@ + ".color(\""@ + c@ + "\")"@ + "\n"@ + indent@
            + "._punchcard()"@,
        Option::None => Seq::empty(),
    };
    proof {
        assert(out@ =~= gpart + ppart + cpart);
        assert(out@ =~= spec_modifiers(*color, *gain, *pan, indent@));
    }
    out
}

/// A generated pitched staff: the bracketed bar groups under `note`, the
/// modifier chain, the fixed instrument, and the tempo-to-cycles suffix
/// when a tempo was supplied and at least one bar was counted.
pub open spec fn spec_pitched_staff(
    events: Seq<PitchedEvent>,
    has_tempo: bool,
    color: Option<String>,
    gain: Option<String>,
    pan: Option<String>,
) -> Seq<char> {
    if !has_note(events) {
        "// No notes to convert"@
    } else {
        let g = spec_gen(pevs_render(events), 0, Seq::empty(), Seq::empty(), 0);
        let pattern = spec_join(g.groups, "\n"@);
        let mods = spec_modifiers(color, gain, pan, Seq::empty());
        let base = "note(`\n"@ + pattern + "`)"@ + mods + "\n  .s(\"piano\")"@;
        if has_tempo && g.bars > 0 {
            base + "\n  .cpm("@ + spec_cpm_expression(g.bars) + ")"@
        } else {
            base
        }
    }
}

fn any_note(events: &[PitchedEvent]) -> (r: bool)
    ensures
        r == has_note(events@),
{
    let mut i: usize = 0;
    while i < events.len()
        invariant
            i <= events@.len(),
            forall|k: int| 0 <= k < i ==> !((#[trigger] events@[k]) is Note),
        decreases events@.len() - i,
    {
        match &events[i] {
            PitchedEvent::Note(_) => {
                return true;
            },
            _ => {},
        }
        i = i + 1;
    }
    false
}

fn any_hit(events: &[DrumEvent]) -> (r: bool)
    ensures
        r == has_hit(events@),
{
    let mut i: usize = 0;
    while i < events.len()
        invariant
            i <= events@.len(),
            forall|k: int| 0 <= k < i ==> !((#[trigger] events@[k]) is Hit),
        decreases events@.len() - i,
    {
        match &events[i] {
            DrumEvent::Hit(_) => {
                return true;
            },
            _ => {},
        }
        i = i + 1;
    }
    false
}

fn generate_pitched_staff_with_options(
    events: &[PitchedEvent],
    tempo: Option<&Tempo>,
    punchcard_color: &Option<String>,
    gain: &Option<String>,
    pan: &Option<String>,
) -> (r: String)
    requires
        has_note(events@) ==> prests_positive(events@),
    ensures
        r@ == spec_pitched_staff(events@, tempo is Some, *punchcard_color, *gain, *pan),
{
    if !any_note(events) {
        return String::from_str("// No notes to convert");
    }
    let revents = pitched_renders(events);
    let ghost grs = pevs_render(events@);
    let (groups, _bars, _next) = gen_walk(&revents, 0, Ghost(grs));
    let pattern = join_chars(&groups, "\n");
    let mods = format_modifiers(punchcard_color, gain, pan, "");
    let mut out: Vec<char> = Vec::new();
    push_str_chars(&mut out, "note(`\n");
    push_chars(&mut out, &pattern);
    push_str_chars(&mut out, "`)");
    push_chars(&mut out, &mods);
    push_str_chars(&mut out, "\n  .s(\"piano\")");
    let ghost base = "note(`\n"@ + spec_join(
        spec_gen(grs, 0, Seq::empty(), Seq::empty(), 0).groups,
        "\n"@,
    ) + "`)"@ + spec_modifiers(*punchcard_color, *gain, *pan, Seq::empty()) + "\n  .s(\"piano\")"@;
    proof {
        reveal_strlit("");
        assert(""@ =~= Seq::<char>::empty());
        assert(out@ =~= base);
    }
    match tempo {
        Some(_) => {
            let (bars, _n) = count_walk(&revents, 0, Ghost(grs));
            proof {
                lemma_gen_count(grs, 0, Seq::empty(), Seq::empty(), 0);
            }
            if bars > 0 {
                push_str_chars(&mut out, "\n  .cpm(");
                let expr = format_cpm_expression(bars);
                push_chars(&mut out, &expr);
                push_str_chars(&mut out, ")");
                proof {
                    assert(out@ =~= spec_pitched_staff(
                        events@,
                        true,
                        *punchcard_color,
                        *gain,
                        *pan,
                    ));
                }
                string_of(&out)
            } else {
                string_of(&out)
            }
        },
        None => string_of(&out),
    }
}

/// A generated percussive voice: the bracketed bar groups under `sound`,
/// the modifier chain, and the tempo-to-cycles suffix.
pub open spec fn spec_drum_voice(
    events: Seq<DrumEvent>,
    has_tempo: bool,
    color: Option<String>,
    gain: Option<String>,
    pan: Option<String>,
) -> Seq<char> {
    if !has_hit(events) {
        "// No drum hits to convert"@
    } else {
        let g = spec_gen(devs_render(events), 0, Seq::empty(), Seq::empty(), 0);
        let base = "sound(`\n"@ + spec_join(g.groups, "\n"@) + "`)"@ + spec_modifiers(
            color,
            gain,
            pan,
            Seq::empty(),
        );
        if has_tempo && g.bars > 0 {
            base + "\n  .cpm("@ + spec_cpm_expression(g.bars) + ")"@
        } else {
            base
        }
    }
}

fn generate_single_drum_voice_with_options(
    events: &[DrumEvent],
    tempo: Option<&Tempo>,
    punchcard_color: &Option<String>,
    gain: &Option<String>,
    pan: &Option<String>,
) -> (r: String)
    requires
        has_hit(events@) ==> drests_positive(events@),
    ensures
        r@ == spec_drum_voice(events@, tempo is Some, *punchcard_color, *gain, *pan),
{
    if !any_hit(events) {
        return String::from_str("// No drum hits to convert");
    }
    let revents = drum_renders(events);
    let ghost grs = devs_render(events@);
    let (groups, _bars, _next) = gen_walk(&revents, 0, Ghost(grs));
    let pattern = join_chars(&groups, "\n");
    let mods = format_modifiers(punchcard_color, gain, pan, "");
    let mut out: Vec<char> = Vec::new();
    push_str_chars(&mut out, "sound(`\n");
    push_chars(&mut out, &pattern);
    push_str_chars(&mut out, "`)");
    push_chars(&mut out, &mods);
    let ghost base = "sound(`\n"@ + spec_join(
        spec_gen(grs, 0, Seq::empty(), Seq::empty(), 0).groups,
        "\n"@,
    ) + "`)"@ + spec_modifiers(*punchcard_color, *gain, *pan, Seq::empty());
    proof {
        reveal_strlit("");
        assert(""@ =~= Seq::<char>::empty());
        assert(out@ =~= base);
    }
    match tempo {
        Some(_) => {
            let (bars, _n) = count_walk(&revents, 0, Ghost(grs));
            proof {
                lemma_gen_count(grs, 0, Seq::empty(), Seq::empty(), 0);
            }
            if bars > 0 {
                push_str_chars(&mut out, "\n  .cpm(");
                let expr = format_cpm_expression(bars);
                push_chars(&mut out, &expr);
                push_str_chars(&mut out, ")");
                proof {
                    assert(out@ =~= spec_drum_voice(events@, true, *punchcard_color, *gain, *pan));
                }
                string_of(&out)
            } else {
                string_of(&out)
            }
        },
        None => string_of(&out),
    }
}

/// One voice of a multi-voice stack: its pattern with its own (indented)
/// modifier chain.
pub open spec fn spec_voice_pattern(v: DrumVoiceData) -> Seq<char> {
    "sound(`\n"@ + spec_join(
        spec_gen(devs_render(v.events@), 0, Seq::empty(), Seq::empty(), 0).groups,
        "\n"@,
    ) + "`)"@ + spec_modifiers(v.punchcard_color, v.gain, v.pan, "  "@)
}

/// The bar count of one voice.
pub open spec fn spec_voice_bars(v: DrumVoiceData) -> u32 {
    spec_gen(devs_render(v.events@), 0, Seq::empty(), Seq::empty(), 0).bars
}

/// The largest bar count among the first `i` voices.
pub open spec fn max_bars_upto(vs: Seq<DrumVoiceData>, i: int) -> u32
    decreases i,
{
    if i <= 0 {
        0
    } else {
        let prev = max_bars_upto(vs, i - 1);
        let b = spec_voice_bars(vs[i - 1]);
        if b > prev {
            b
        } else {
            prev
        }
    }
}

/// A generated percussive staff: one voice plain, several voices under a
/// `stack` combinator; the tempo expression of a stack uses the largest
/// bar count among its voices.
pub open spec fn spec_drum_staff(voices: Seq<DrumVoiceData>, has_tempo: bool) -> Seq<char> {
    if voices.len() == 0 {
        "// No drum hits to convert"@
    } else if voices.len() == 1 {
        spec_drum_voice(
            voices[0].events@,
            has_tempo,
            voices[0].punchcard_color,
            voices[0].gain,
            voices[0].pan,
        )
    } else {
        let parts = Seq::new(voices.len(), |i: int| spec_voice_pattern(voices[i]));
        let stacked = "stack(\n  "@ + spec_join(parts, ",\n  "@) + ",\n)"@;
        let maxb = max_bars_upto(voices, voices.len() as int);
        if has_tempo && maxb > 0 {
            stacked + "\n  .cpm("@ + spec_cpm_expression(maxb) + ")"@
        } else {
            stacked
        }
    }
}

/// The rests of every voice can be rendered (see `drests_positive`); a
/// single hitless voice renders nothing and so carries no condition.
pub open spec fn drum_staff_renderable(vs: Seq<DrumVoiceData>) -> bool {
    if vs.len() == 1 {
        has_hit(vs[0].events@) ==> drests_positive(vs[0].events@)
    } else {
        forall|i: int| 0 <= i < vs.len() ==> drests_positive((#[trigger] vs[i]).events@)
    }
}

/// Every staff's rests can be rendered.
pub open spec fn staff_renderable(s: Staff) -> bool {
    match s.content {
        StaffContent::Notes(evs) => has_note(evs@) ==> prests_positive(evs@),
        StaffContent::Drums(vs) => drum_staff_renderable(vs@),
    }
}

pub open spec fn staves_renderable(ss: Seq<Staff>) -> bool {
    forall|i: int| 0 <= i < ss.len() ==> staff_renderable(#[trigger] ss[i])
}

/// The staff-to-pattern generator.
pub struct StrudelGenerator {}

impl StrudelGenerator {
    /// Generate one pitched staff. Mirrors `spec_pitched_staff` with no
    /// modifiers.
    pub fn generate_pitched_staff(events: &[PitchedEvent], tempo: Option<&Tempo>) -> (r: String)
        requires
            has_note(events@) ==> prests_positive(events@),
        ensures
            r@ == spec_pitched_staff(events@, tempo is Some, None, None, None),
    {
        generate_pitched_staff_with_options(events, tempo, &None, &None, &None)
    }

    /// Generate one percussive staff. Mirrors `spec_drum_staff`.
    pub fn generate_drum_staff(voices: &[DrumVoiceData], tempo: Option<&Tempo>) -> (r: String)
        requires
            drum_staff_renderable(voices@),
        ensures
            r@ == spec_drum_staff(voices@, tempo is Some),
    {
        if voices.len() == 0 {
            return String::from_str("// No drum hits to convert");
        }
        if voices.len() == 1 {
            let voice = &voices[0];
            return generate_single_drum_voice_with_options(
                voice.events.as_slice(),
                tempo,
                &voice.punchcard_color,
                &voice.gain,
                &voice.pan,
            );
        }
        let ghost parts = Seq::new(voices@.len(), |i: int| spec_voice_pattern(voices@[i]));
        let mut vparts: Vec<Vec<char>> = Vec::new();
        let mut i: usize = 0;
        while i < voices.len()
            invariant
                voices@.len() >= 2,
                forall|k: int|
                    0 <= k < voices@.len() ==> drests_positive((#[trigger] voices@[k]).events@),
                parts == Seq::new(voices@.len(), |k: int| spec_voice_pattern(voices@[k])),
                i <= voices@.len(),
                vparts@.len() == i,
                forall|k: int| 0 <= k < i ==> #[trigger] vparts.deep_view()[k] == parts[k],
            decreases voices@.len() - i,
        {
            let voice = &voices[i];
            let revents = drum_renders(voice.events.as_slice());
            let ghost grs = devs_render(voice.events@);
            let (groups, _b, _n) = gen_walk(&revents, 0, Ghost(grs));
            let pattern = join_chars(&groups, "\n");
            let mods = format_modifiers(&voice.punchcard_color, &voice.gain, &voice.pan, "  ");
            let mut vp: Vec<char> = Vec::new();
            push_str_chars(&mut vp, "sound(`\n");
            push_chars(&mut vp, &pattern);
            push_str_chars(&mut vp, "`)");
            push_chars(&mut vp, &mods);
            proof {
                reveal_strlit("  ");
                assert(vp@ =~= spec_voice_pattern(voices@[i as int]));
            }
            let ghost dv = vparts.deep_view();
            vparts.push(vp);
            i = i + 1;
            proof {
                assert(vparts.deep_view() =~~= dv.push(vp@));
            }
        }
        proof {
            assert(vparts.deep_view() =~~= parts);
        }
        let joined = join_chars(&vparts, ",\n  ");
        let mut out: Vec<char> = Vec::new();
        push_str_chars(&mut out, "stack(\n  ");
        push_chars(&mut out, &joined);
        push_str_chars(&mut out, ",\n)");
        let ghost stacked = "stack(\n  "@ + spec_join(parts, ",\n  "@) + ",\n)"@;
        proof {
            assert(out@ =~= stacked);
        }
        match tempo {
            Some(_) => {
                let mut maxb: u32 = 0;
                let mut j: usize = 0;
                while j < voices.len()
                    invariant
                        forall|k: int|
                            0 <= k < voices@.len() ==> drests_positive(
                                (#[trigger] voices@[k]).events@,
                            ),
                        j <= voices@.len(),
                        maxb == max_bars_upto(voices@, j as int),
                    decreases voices@.len() - j,
                {
                    let revents = drum_renders(voices[j].events.as_slice());
                    let ghost grs = devs_render(voices@[j as int].events@);
                    let (b, _n) = count_walk(&revents, 0, Ghost(grs));
                    proof {
                        lemma_gen_count(grs, 0, Seq::empty(), Seq::empty(), 0);
                    }
                    if b > maxb {
                        maxb = b;
                    }
                    j = j + 1;
                }
                if maxb > 0 {
                    push_str_chars(&mut out, "\n  .cpm(");
                    let expr = format_cpm_expression(maxb);
                    push_chars(&mut out, &expr);
                    push_str_chars(&mut out, ")");
                    proof {
                        assert(out@ =~= spec_drum_staff(voices@, true));
                    }
                    string_of(&out)
                } else {
                    string_of(&out)
                }
            },
            None => string_of(&out),
        }
    }

    /// The generated pattern of one staff, pitched or percussive.
    pub open spec fn spec_staff(s: Staff, has_tempo: bool) -> Seq<char> {
        match s.content {
            StaffContent::Notes(evs) => spec_pitched_staff(
                evs@,
                has_tempo,
                s.punchcard_color,
                s.gain,
                s.pan,
            ),
            StaffContent::Drums(vs) => spec_drum_staff(vs@, has_tempo),
        }
    }

    /// Generate one staff. Mirrors `spec_staff`.
    pub fn generate_staff(staff: &Staff, tempo: Option<&Tempo>) -> (r: String)
        requires
            staff_renderable(*staff),
        ensures
            r@ == Self::spec_staff(*staff, tempo is Some),
    {
        match &staff.content {
            StaffContent::Notes(events) => generate_pitched_staff_with_options(
                events.as_slice(),
                tempo,
                &staff.punchcard_color,
                &staff.gain,
                &staff.pan,
            ),
            StaffContent::Drums(voices) => Self::generate_drum_staff(voices.as_slice(), tempo),
        }
    }

    /// The pattern of several staves: each prefixed with its staff marker,
    /// separated by blank lines.
    pub open spec fn spec_multi(ss: Seq<Staff>, has_tempo: bool) -> Seq<char> {
        if ss.len() == 0 {
            "// No staves to convert"@
        } else {
            spec_join(
                Seq::new(ss.len(), |i: int| "$: "@ + Self::spec_staff(ss[i], has_tempo)),
                "\n\n"@,
            )
        }
    }

    /// Generate several staves. Mirrors `spec_multi`.
    pub fn generate_multi(staves: &[Staff], tempo: Option<&Tempo>) -> (r: String)
        requires
            staves_renderable(staves@),
        ensures
            r@ == Self::spec_multi(staves@, tempo is Some),
    {
        if staves.len() == 0 {
            return String::from_str("// No staves to convert");
        }
        let ghost parts = Seq::new(
            staves@.len(),
            |i: int| "$: "@ + Self::spec_staff(staves@[i], tempo is Some),
        );
        let mut vparts: Vec<Vec<char>> = Vec::new();
        let mut i: usize = 0;
        while i < staves.len()
            invariant
                staves_renderable(staves@),
                parts == Seq::new(
                    staves@.len(),
                    |k: int| "$: "@ + Self::spec_staff(staves@[k], tempo is Some),
                ),
                i <= staves@.len(),
                vparts@.len() == i,
                forall|k: int| 0 <= k < i ==> #[trigger] vparts.deep_view()[k] == parts[k],
            decreases staves@.len() - i,
        {
            let st = Self::generate_staff(&staves[i], tempo);
            let sv = chars_of(st.as_str());
            let mut vp: Vec<char> = Vec::new();
            push_str_chars(&mut vp, "$: ");
            push_chars(&mut vp, &sv);
            proof {
                assert(vp@ =~= parts[i as int]);
            }
            let ghost dv = vparts.deep_view();
            vparts.push(vp);
            i = i + 1;
            proof {
                assert(vparts.deep_view() =~~= dv.push(vp@));
            }
        }
        proof {
            assert(vparts.deep_view() =~~= parts);
        }
        let joined = join_chars(&vparts, "\n\n");
        let mut out: Vec<char> = Vec::new();
        push_chars(&mut out, &joined);
        proof {
            assert(out@ =~= Self::spec_multi(staves@, tempo is Some));
        }
        string_of(&out)
    }

    /// The fixed document text around the generated pattern.
    pub open spec fn spec_html(
        ss: Seq<Staff>,
        has_tempo: bool,
        tempo_const: Seq<char>,
        title: Seq<char>,
    ) -> Seq<char> {
        html_head_text() + title + html_mid_text() + tempo_const + "\n\n"@ + Self::spec_multi(
            ss,
            has_tempo,
        ) + html_tail_text()
    }

    /// Generate the document around the pattern of all staves. Mirrors
    /// `spec_html`; the embedded tempo constant is the stated BPM, with
    /// 120 in its place when no tempo was supplied.
    pub fn generate_html(staves: &[Staff], tempo: Option<&Tempo>, title: &str) -> (r: String)
        requires
            staves_renderable(staves@),
        ensures
            r@ == Self::spec_html(
                staves@,
                tempo is Some,
                match tempo {
                    Some(t) => "const tempo = "@ + crate::chars::spec_u32_str(t.bpm) + ";"@,
                    None => "const tempo = 120;"@,
                },
                title@,
            ),
    {
        let pattern = Self::generate_multi(staves, tempo);
        let mut out: Vec<char> = Vec::new();
        push_str_chars(&mut out, html_head());
        push_str_chars(&mut out, title);
        push_str_chars(&mut out, html_mid());
        match tempo {
            Some(t) => {
                push_str_chars(&mut out, "const tempo = ");
                let d = crate::chars::u32_chars(t.bpm);
                push_chars(&mut out, &d);
                push_str_chars(&mut out, ";");
                proof {
                    assert("const tempo = "@ + crate::chars::spec_u32_str(t.bpm) + ";"@ =~= ("const tempo = "@
                        + crate::chars::spec_u32_str(t.bpm)) + ";"@);
                }
            },
            None => {
                push_str_chars(&mut out, "const tempo = 120;");
            },
        }
        push_str_chars(&mut out, "\n\n");
        let pv = chars_of(pattern.as_str());
        push_chars(&mut out, &pv);
        push_str_chars(&mut out, html_tail());
        proof {
            assert(out@ =~= Self::spec_html(
                staves@,
                tempo is Some,
                match tempo {
                    Some(t) => "const tempo = "@ + crate::chars::spec_u32_str(t.bpm) + ";"@,
                    None => "const tempo = 120;"@,
                },
                title@,
            ));
        }
        string_of(&out)
    }
}

fn prests_check(evs: &Vec<PitchedEvent>) -> (r: bool)
    ensures
        r == prests_positive(evs@),
{
    let mut i: usize = 0;
    while i < evs.len()
        invariant
            i <= evs@.len(),
            forall|k: int| 0 <= k < i ==> match #[trigger] evs@[k] {
                PitchedEvent::Rest { duration } => duration >= 1,
                _ => true,
            },
        decreases evs@.len() - i,
    {
        match &evs[i] {
            PitchedEvent::Rest { duration } => {
                if *duration < 1 {
                    return false;
                }
            },
            _ => {},
        }
        i = i + 1;
    }
    true
}

fn drests_check(evs: &Vec<DrumEvent>) -> (r: bool)
    ensures
        r == drests_positive(evs@),
{
    let mut i: usize = 0;
    while i < evs.len()
        invariant
            i <= evs@.len(),
            forall|k: int| 0 <= k < i ==> match #[trigger] evs@[k] {
                DrumEvent::Rest { duration } => duration >= 1,
                _ => true,
            },
        decreases evs@.len() - i,
    {
        match &evs[i] {
            DrumEvent::Rest { duration } => {
                if *duration < 1 {
                    return false;
                }
            },
            _ => {},
        }
        i = i + 1;
    }
    true
}

fn staff_renderable_check(staff: &Staff) -> (r: bool)
    ensures
        r == staff_renderable(*staff),
{
    match &staff.content {
        StaffContent::Notes(evs) => {
            let mut i: usize = 0;
            while i < evs.len()
                invariant
                    staff.content matches StaffContent::Notes(e) && e == *evs,
                    i <= evs@.len(),
                    forall|k: int| 0 <= k < i ==> !((#[trigger] evs@[k]) is Note),
                decreases evs@.len() - i,
            {
                match &evs[i] {
                    PitchedEvent::Note(_) => {
                        return prests_check(evs);
                    },
                    _ => {},
                }
                i = i + 1;
            }
            true
        },
        StaffContent::Drums(vs) => {
            if vs.len() == 1 {
                let mut i: usize = 0;
                let evs = &vs[0].events;
                while i < evs.len()
                    invariant
                        staff.content matches StaffContent::Drums(v) && v == *vs,
                        vs@.len() == 1,
                        evs == &vs@[0int].events,
                        i <= evs@.len(),
                        forall|k: int| 0 <= k < i ==> !((#[trigger] evs@[k]) is Hit),
                    decreases evs@.len() - i,
                {
                    match &evs[i] {
                        DrumEvent::Hit(_) => {
                            return drests_check(evs);
                        },
                        _ => {},
                    }
                    i = i + 1;
                }
                true
            } else {
                let mut i: usize = 0;
                while i < vs.len()
                    invariant
                        staff.content matches StaffContent::Drums(v) && v == *vs,
                        vs@.len() != 1,
                        i <= vs@.len(),
                        forall|k: int|
                            0 <= k < i ==> drests_positive((#[trigger] vs@[k]).events@),
                    decreases vs@.len() - i,
                {
                    if !drests_check(&vs[i].events) {
                        return false;
                    }
                    i = i + 1;
                }
                true
            }
        },
    }
}

/// Can every staff's rests be rendered? (See `staves_renderable`; a
/// caller that cannot prove the condition checks it with this.)
pub fn staves_renderable_check(staves: &[Staff]) -> (r: bool)
    ensures
        r == staves_renderable(staves@),
{
    let mut i: usize = 0;
    while i < staves.len()
        invariant
            i <= staves@.len(),
            forall|k: int| 0 <= k < i ==> staff_renderable(#[trigger] staves@[k]),
        decreases staves@.len() - i,
    {
        if !staff_renderable_check(&staves[i]) {
            return false;
        }
        i = i + 1;
    }
    true
}

/// Map of note values to pitched note events, for generating from bare
/// notes.
pub open spec fn note_events(ns: Seq<Note>) -> Seq<PitchedEvent> {
    Seq::new(ns.len(), |i: int| PitchedEvent::Note(ns[i]))
}

/// Notes equal field for field render identically, name part.
proof fn lemma_format_note_like(a: Note, b: Note)
    requires
        crate::events::subnote_like(a, b),
    ensures
        crate::fmt::spec_format_note(a) == crate::fmt::spec_format_note(b),
{
}

proof fn lemma_chord_tail_like(x: Seq<Note>, y: Seq<Note>, i: int)
    requires
        x.len() == y.len(),
        forall|k: int| 0 <= k < x.len() ==> crate::events::subnote_like(#[trigger] x[k], y[k]),
    ensures
        crate::fmt::chord_tail(x, i) == crate::fmt::chord_tail(y, i),
    decreases x.len() - i,
{
    if 0 <= i < x.len() {
        lemma_chord_tail_like(x, y, i + 1);
        lemma_format_note_like(x[i], y[i]);
    }
}

/// Notes equal field for field render identically.
proof fn lemma_format_pitched_like(a: Note, b: Note)
    requires
        crate::events::note_like(a, b),
    ensures
        spec_format_pitched_note(a) == spec_format_pitched_note(b),
{
    lemma_format_note_like(a, b);
    match (a.chord_notes, b.chord_notes) {
        (Option::Some(x), Option::Some(y)) => {
            assert forall|k: int| 0 <= k < x@.len() implies crate::events::subnote_like(
                #[trigger] x@[k],
                y@[k],
            ) by {
                assert(crate::events::note_like(a, b));
            }
            lemma_chord_tail_like(x@, y@, 0);
        },
        _ => {},
    }
}

impl StrudelGenerator {
    /// Generate one pitched staff from bare notes (each becomes one note
    /// event). Mirrors `spec_pitched_staff` over `note_events`.
    pub fn generate(notes: &[Note], tempo: Option<&Tempo>) -> (r: String)
        requires
            forall|i: int|
                0 <= i < notes@.len() ==> crate::events::note_flat_wf(#[trigger] notes@[i]),
        ensures
            r@ == spec_pitched_staff(note_events(notes@), tempo is Some, None, None, None),
    {
        let mut events: Vec<PitchedEvent> = Vec::new();
        let mut i: usize = 0;
        while i < notes.len()
            invariant
                forall|k: int|
                    0 <= k < notes@.len() ==> crate::events::note_flat_wf(#[trigger] notes@[k]),
                i <= notes@.len(),
                events@.len() == i,
                forall|k: int|
                    0 <= k < i ==> ((#[trigger] events@[k]) matches PitchedEvent::Note(n)
                        && crate::events::note_like(n, notes@[k])),
            decreases notes@.len() - i,
        {
            let n = crate::events::clone_note(&notes[i]);
            events.push(PitchedEvent::Note(n));
            i = i + 1;
        }
        proof {
            assert forall|k: int| 0 <= k < events@.len() implies pev_render(#[trigger] events@[k])
                == pev_render(note_events(notes@)[k]) by {
                match events@[k] {
                    PitchedEvent::Note(n) => {
                        lemma_format_pitched_like(n, notes@[k]);
                    },
                    _ => {},
                }
            }
            assert(pevs_render(events@) =~= pevs_render(note_events(notes@)));
            if notes@.len() > 0 {
                assert(events@[0] is Note);
                assert(note_events(notes@)[0] is Note);
                assert(has_note(events@));
                assert(has_note(note_events(notes@)));
            } else {
                assert(!has_note(events@));
                assert(!has_note(note_events(notes@)));
            }
            assert(prests_positive(events@));
        }
        let r = generate_pitched_staff_with_options(events.as_slice(), tempo, &None, &None, &None);
        proof {
            assert(spec_pitched_staff(events@, tempo is Some, None, None, None)
                == spec_pitched_staff(note_events(notes@), tempo is Some, None, None, None));
        }
        r
    }
}

pub open spec fn html_head_text() -> Seq<char> {
    "<!DOCTYPE html>\n<html>\n<head>\n  <meta charset=\"UTF-8\">\n  <title>"@
}

fn html_head() -> (r: &'static str)
    ensures
        r@ == html_head_text(),
{
    "<!DOCTYPE html>\n<html>\n<head>\n  <meta charset=\"UTF-8\">\n  <title>"
}

pub open spec fn html_mid_text() -> Seq<char> {
    "</title>\n  <script src=\"https://unpkg.com/@strudel/embed@latest\"></script>\n  <style>\n    html, body { margin: 0; padding: 0; width: 100%; height: 100%; }\n    strudel-repl { width: 100%; height: 100%; display: block; }\n    strudel-repl iframe { width: 100%; height: 100%; border: none; }\n  </style>\n</head>\n<body>\n  <strudel-repl>\n<!--\n"@
}

fn html_mid() -> (r: &'static str)
    ensures
        r@ == html_mid_text(),
{
    "</title>\n  <script src=\"https://unpkg.com/@strudel/embed@latest\"></script>\n  <style>\n    html, body { margin: 0; padding: 0; width: 100%; height: 100%; }\n    strudel-repl { width: 100%; height: 100%; display: block; }\n    strudel-repl iframe { width: 100%; height: 100%; border: none; }\n  </style>\n</head>\n<body>\n  <strudel-repl>\n<!--\n"
}

pub open spec fn html_tail_text() -> Seq<char> {
    "\n-->\n  </strudel-repl>\n</body>\n</html>"@
}

fn html_tail() -> (r: &'static str)
    ensures
        r@ == html_tail_text(),
{
    "\n-->\n  </strudel-repl>\n</body>\n</html>"
}

} // verus!
