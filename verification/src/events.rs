//! The typed data model: notes, drum hits, event streams, voices, staves,
//! and the parse result, together with the ghost models that the parsing
//! contracts are stated over.

use vstd::prelude::*;

verus! {


/// A pitched note. `octave` 3 is the unmarked base octave; each `'` raises
/// and each `,` lowers it by one. `duration` is the fraction-of-whole-note
/// denominator (4 = quarter). `midi` is the derived absolute pitch number.
/// `chord_notes` holds the remaining notes of a chord; the first note of the
/// chord is the representative one and owns this list.
#[derive(Debug)]
pub struct Note {
    pub name: char,
    pub octave: i32,
    pub accidental: Option<String>,
    pub duration: u32,
    pub midi: i32,
    pub chord_notes: Option<Vec<Note>>,
}

/// A percussive hit; `name` is already in the output vocabulary.
#[derive(Debug, Clone)]
pub struct DrumHit {
    pub name: String,
    pub duration: u32,
}

#[derive(Debug)]
pub enum PitchedEvent {
    Note(Note),
    Rest { duration: u32 },
    BarLine,
    RepeatStart(u32),
    RepeatEnd,
    Comment(String),
}

#[derive(Debug, Clone)]
pub enum DrumEvent {
    Hit(DrumHit),
    Rest { duration: u32 },
    BarLine,
    RepeatStart(u32),
    RepeatEnd,
    Comment(String),
}

/// One percussive voice with its display modifiers.
#[derive(Debug, Clone)]
pub struct DrumVoiceData {
    pub events: Vec<DrumEvent>,
    pub punchcard_color: Option<String>,
    pub gain: Option<String>,
    pub pan: Option<String>,
}

/// A tempo directive: `beat_unit` denominator and beats per minute.
#[derive(Debug, Clone)]
pub struct Tempo {
    pub beat_unit: u32,
    pub bpm: u32,
}

#[derive(Debug, Clone)]
pub enum StaffKind {
    Pitched,
    Drums,
}

#[derive(Debug)]
pub enum StaffContent {
    Notes(Vec<PitchedEvent>),
    /// Multiple drum voices that play simultaneously.
    Drums(Vec<DrumVoiceData>),
}

#[derive(Debug)]
pub struct Staff {
    pub kind: StaffKind,
    pub content: StaffContent,
    pub punchcard_color: Option<String>,
    pub gain: Option<String>,
    pub pan: Option<String>,
}

impl Staff {
    pub fn new_pitched(events: Vec<PitchedEvent>) -> (r: Staff)
        ensures
            r.kind is Pitched,
            r.content == StaffContent::Notes(events),
            r.punchcard_color is None,
            r.gain is None,
            r.pan is None,
    {
        Staff {
            kind: StaffKind::Pitched,
            content: StaffContent::Notes(events),
            punchcard_color: None,
            gain: None,
            pan: None,
        }
    }

    pub fn new_pitched_with_options(
        events: Vec<PitchedEvent>,
        punchcard_color: Option<String>,
        gain: Option<String>,
        pan: Option<String>,
    ) -> (r: Staff)
        ensures
            r.kind is Pitched,
            r.content == StaffContent::Notes(events),
            r.punchcard_color == punchcard_color,
            r.gain == gain,
            r.pan == pan,
    {
        Staff {
            kind: StaffKind::Pitched,
            content: StaffContent::Notes(events),
            punchcard_color,
            gain,
            pan,
        }
    }

    pub fn new_drums(voices: Vec<DrumVoiceData>) -> (r: Staff)
        ensures
            r.kind is Drums,
            r.content == StaffContent::Drums(voices),
            r.punchcard_color is None,
            r.gain is None,
            r.pan is None,
    {
        Staff {
            kind: StaffKind::Drums,
            content: StaffContent::Drums(voices),
            punchcard_color: None,
            gain: None,
            pan: None,
        }
    }

    pub fn events(&self) -> (r: Option<&Vec<PitchedEvent>>)
        ensures
            match self.content {
                StaffContent::Notes(_) => r matches Some(v) && self.content
                    == StaffContent::Notes(*v),
                StaffContent::Drums(_) => r is None,
            },
    {
        match &self.content {
            StaffContent::Notes(events) => Some(events),
            _ => None,
        }
    }

    pub fn drum_voices(&self) -> (r: Option<&Vec<DrumVoiceData>>)
        ensures
            match self.content {
                StaffContent::Drums(_) => r matches Some(v) && self.content
                    == StaffContent::Drums(*v),
                StaffContent::Notes(_) => r is None,
            },
    {
        match &self.content {
            StaffContent::Drums(voices) => Some(voices),
            _ => None,
        }
    }
}

/// The result of a successful parse: the staves in source order and the tempo.
#[derive(Debug)]
pub struct ParseResult {
    pub staves: Vec<Staff>,
    pub tempo: Tempo,
}

/// The note events of one pitched event sequence, in order.
pub open spec fn notes_in_events(es: Seq<PitchedEvent>) -> Seq<Note>
    decreases es.len(),
{
    if es.len() == 0 {
        Seq::empty()
    } else {
        let rest = notes_in_events(es.drop_first());
        match es.first() {
            PitchedEvent::Note(n) => seq![n] + rest,
            _ => rest,
        }
    }
}

/// All note events of the pitched staves, flattened in staff order.
pub open spec fn notes_in_staves(ss: Seq<Staff>) -> Seq<Note>
    decreases ss.len(),
{
    if ss.len() == 0 {
        Seq::empty()
    } else {
        let head = match ss.first().content {
            StaffContent::Notes(evs) => notes_in_events(evs@),
            StaffContent::Drums(_) => Seq::empty(),
        };
        head + notes_in_staves(ss.drop_first())
    }
}

/// Chord partners carry no nested chord of their own.
pub open spec fn note_flat_wf(n: Note) -> bool {
    match n.chord_notes {
        None => true,
        Some(v) => forall|i: int| 0 <= i < v@.len() ==> (#[trigger] v@[i]).chord_notes is None,
    }
}

pub open spec fn pevents_flat_wf(es: Seq<PitchedEvent>) -> bool {
    forall|i: int| 0 <= i < es.len() ==> match #[trigger] es[i] {
        PitchedEvent::Note(n) => note_flat_wf(n),
        _ => true,
    }
}

pub open spec fn staves_flat_wf(ss: Seq<Staff>) -> bool {
    forall|i: int| 0 <= i < ss.len() ==> match (#[trigger] ss[i]).content {
        StaffContent::Notes(evs) => pevents_flat_wf(evs@),
        StaffContent::Drums(_) => true,
    }
}

/// View-level equality of optional strings.
pub open spec fn opt_str_like(a: Option<String>, b: Option<String>) -> bool {
    match (a, b) {
        (Option::None, Option::None) => true,
        (Option::Some(x), Option::Some(y)) => x@ == y@,
        _ => false,
    }
}

/// Field-for-field equality of two notes, strings compared by view,
/// ignoring any chord list.
pub open spec fn subnote_like(a: Note, b: Note) -> bool {
    a.name == b.name && a.octave == b.octave && a.duration == b.duration && a.midi == b.midi
        && opt_str_like(a.accidental, b.accidental)
}

/// Field-for-field equality of two notes, strings compared by view, chord
/// partners compared one level deep.
pub open spec fn note_like(a: Note, b: Note) -> bool {
    subnote_like(a, b) && match (a.chord_notes, b.chord_notes) {
        (Option::None, Option::None) => true,
        (Option::Some(x), Option::Some(y)) => x@.len() == y@.len() && forall|i: int|
            0 <= i < x@.len() ==> subnote_like(#[trigger] x@[i], y@[i]) && x@[i].chord_notes
                is None && y@[i].chord_notes is None,
        _ => false,
    }
}

fn clone_string_opt(s: &Option<String>) -> (r: Option<String>)
    ensures
        opt_str_like(r, *s),
{
    match s {
        None => None,
        Some(x) => Some(x.clone()),
    }
}

/// A copy of `n`, equal to it field for field (one chord level deep).
pub fn clone_note(n: &Note) -> (r: Note)
    requires
        note_flat_wf(*n),
    ensures
        note_like(r, *n),
        note_flat_wf(r),
{
    let chord: Option<Vec<Note>> = match &n.chord_notes {
        None => None,
        Some(v) => {
            let mut out: Vec<Note> = Vec::new();
            let mut i: usize = 0;
            while i < v.len()
                invariant
                    i <= v@.len(),
                    out@.len() == i,
                    forall|j: int|
                        0 <= j < i ==> subnote_like(#[trigger] out@[j], v@[j]) && out@[j].chord_notes
                            is None,
                    forall|j: int| 0 <= j < v@.len() ==> (#[trigger] v@[j]).chord_notes is None,
                decreases v@.len() - i,
            {
                let p = &v[i];
                out.push(Note {
                    name: p.name,
                    octave: p.octave,
                    accidental: clone_string_opt(&p.accidental),
                    duration: p.duration,
                    midi: p.midi,
                    chord_notes: None,
                });
                i = i + 1;
            }
            Some(out)
        },
    };
    Note {
        name: n.name,
        octave: n.octave,
        accidental: clone_string_opt(&n.accidental),
        duration: n.duration,
        midi: n.midi,
        chord_notes: chord,
    }
}

impl ParseResult {
    /// All notes of the pitched staves, flattened in order, bar lines,
    /// rests, repeats and comments excluded.
    pub fn notes(&self) -> (r: Vec<Note>)
        requires
            staves_flat_wf(self.staves@),
        ensures
            r@.len() == notes_in_staves(self.staves@).len(),
            forall|i: int|
                0 <= i < r@.len() ==> note_like(#[trigger] r@[i], notes_in_staves(self.staves@)[i])
                    && note_flat_wf(r@[i]),
    {
        let mut r: Vec<Note> = Vec::new();
        let mut i: usize = 0;
        while i < self.staves.len()
            invariant
                staves_flat_wf(self.staves@),
                i <= self.staves@.len(),
                r@.len() == notes_in_staves(self.staves@.subrange(0, i as int)).len(),
                forall|k: int|
                    0 <= k < r@.len() ==> note_like(
                        #[trigger] r@[k],
                        notes_in_staves(self.staves@.subrange(0, i as int))[k],
                    ) && note_flat_wf(r@[k]),
            decreases self.staves@.len() - i,
        {
            let ghost pre = self.staves@.subrange(0, i as int);
            match &self.staves[i].content {
                StaffContent::Notes(evs) => {
                    let mut j: usize = 0;
                    while j < evs.len()
                        invariant
                            staves_flat_wf(self.staves@),
                            i < self.staves@.len(),
                            self.staves@[i as int].content matches StaffContent::Notes(e) && e
                                == *evs,
                            j <= evs@.len(),
                            r@.len() == notes_in_staves(self.staves@.subrange(0, i as int)).len()
                                + notes_in_events(evs@.subrange(0, j as int)).len(),
                            forall|k: int|
                                0 <= k < r@.len() ==> note_like(
                                    #[trigger] r@[k],
                                    (notes_in_staves(self.staves@.subrange(0, i as int))
                                        + notes_in_events(evs@.subrange(0, j as int)))[k],
                                ) && note_flat_wf(r@[k]),
                        decreases evs@.len() - j,
                    {
                        proof {
                            assert(pevents_flat_wf(evs@));
                        }
                        match &evs[j] {
                            PitchedEvent::Note(n) => {
                                r.push(clone_note(n));
                            },
                            _ => {},
                        }
                        j = j + 1;
                        proof {
                            lemma_notes_in_events_snoc(evs@, j as int);
                        }
                    }
                    proof {
                        assert(evs@.subrange(0, evs@.len() as int) =~= evs@);
                    }
                },
                StaffContent::Drums(_) => {},
            }
            i = i + 1;
            proof {
                lemma_notes_in_staves_snoc(self.staves@, i as int);
            }
        }
        proof {
            assert(self.staves@.subrange(0, self.staves@.len() as int) =~= self.staves@);
        }
        r
    }
}

proof fn lemma_notes_in_events_snoc(es: Seq<PitchedEvent>, j: int)
    requires
        0 < j <= es.len(),
    ensures
        notes_in_events(es.subrange(0, j)) == notes_in_events(es.subrange(0, j - 1)) + (
        match es[j - 1] {
            PitchedEvent::Note(n) => seq![n],
            _ => Seq::<Note>::empty(),
        }),
    decreases j,
{
    let a = es.subrange(0, j);
    if j == 1 {
        assert(a.drop_first() =~= es.subrange(0, 0));
        assert(notes_in_events(es.subrange(0, 0)) == Seq::<Note>::empty());
        match es[0] {
            PitchedEvent::Note(n) => {
                assert(notes_in_events(a) =~= seq![n] + notes_in_events(a.drop_first()));
                assert(notes_in_events(a) =~= notes_in_events(es.subrange(0, 0)) + seq![n]);
            },
            _ => {
                assert(notes_in_events(a) =~= notes_in_events(es.subrange(0, 0))
                    + Seq::<Note>::empty());
            },
        }
    } else {
        lemma_notes_in_events_snoc(es.subrange(1, es.len() as int), j - 1);
        assert(a.drop_first() =~= es.subrange(1, es.len() as int).subrange(0, j - 1));
        assert(es.subrange(0, j - 1).drop_first() =~= es.subrange(1, es.len() as int).subrange(
            0,
            j - 2,
        ));
        assert(es.subrange(1, es.len() as int)[j - 2] == es[j - 1]);
        match es[0] {
            PitchedEvent::Note(n) => {
                assert(notes_in_events(a) =~= seq![n] + notes_in_events(a.drop_first()));
                match es[j - 1] {
                    PitchedEvent::Note(m) => {
                        assert(notes_in_events(a) =~= notes_in_events(es.subrange(0, j - 1))
                            + seq![m]);
                    },
                    _ => {
                        assert(notes_in_events(a) =~= notes_in_events(es.subrange(0, j - 1)));
                        assert(notes_in_events(a) =~= notes_in_events(es.subrange(0, j - 1))
                            + Seq::<Note>::empty());
                    },
                }
            },
            _ => {
                match es[j - 1] {
                    PitchedEvent::Note(m) => {
                        assert(notes_in_events(a) =~= notes_in_events(es.subrange(0, j - 1))
                            + seq![m]);
                    },
                    _ => {
                        assert(notes_in_events(a) =~= notes_in_events(es.subrange(0, j - 1))
                            + Seq::<Note>::empty());
                    },
                }
            },
        }
    }
}

proof fn lemma_notes_in_staves_snoc(ss: Seq<Staff>, i: int)
    requires
        0 < i <= ss.len(),
    ensures
        notes_in_staves(ss.subrange(0, i)) == notes_in_staves(ss.subrange(0, i - 1)) + (
        match ss[i - 1].content {
            StaffContent::Notes(evs) => notes_in_events(evs@),
            StaffContent::Drums(_) => Seq::<Note>::empty(),
        }),
    decreases i,
{
    let a = ss.subrange(0, i);
    if i == 1 {
        assert(a.drop_first() =~= ss.subrange(0, 0));
        match ss[0].content {
            StaffContent::Notes(evs) => {
                assert(notes_in_staves(a) =~= notes_in_staves(ss.subrange(0, 0)) + notes_in_events(
                    evs@,
                ));
            },
            StaffContent::Drums(_) => {
                assert(notes_in_staves(a) =~= notes_in_staves(ss.subrange(0, 0))
                    + Seq::<Note>::empty());
            },
        }
    } else {
        lemma_notes_in_staves_snoc(ss.subrange(1, ss.len() as int), i - 1);
        assert(a.drop_first() =~= ss.subrange(1, ss.len() as int).subrange(0, i - 1));
        assert(ss.subrange(0, i - 1).drop_first() =~= ss.subrange(1, ss.len() as int).subrange(
            0,
            i - 2,
        ));
        assert(ss.subrange(1, ss.len() as int)[i - 2] == ss[i - 1]);
        assert(notes_in_staves(ss.subrange(0, i)) =~= notes_in_staves(ss.subrange(0, i - 1)) + (
        match ss[i - 1].content {
            StaffContent::Notes(evs) => notes_in_events(evs@),
            StaffContent::Drums(_) => Seq::<Note>::empty(),
        }));
    }
}

} // verus!
