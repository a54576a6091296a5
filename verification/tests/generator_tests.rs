use strudel_of_lilypond::DrumEvent;
use strudel_of_lilypond::DrumHit;
use strudel_of_lilypond::DrumVoiceData;
use strudel_of_lilypond::LilyPondParser;
use strudel_of_lilypond::Note;
use strudel_of_lilypond::PitchedEvent;
use strudel_of_lilypond::Staff;
use strudel_of_lilypond::StrudelGenerator;
use strudel_of_lilypond::Tempo;

fn default_tempo() -> Tempo {
    Tempo { beat_unit: 4, bpm: 120 }
}

#[test]
fn test_generate_strudel() {
    let notes = vec![
        Note {
            name: 'c',
            octave: 4,
            accidental: None,
            duration: 4,
            midi: 60,
            chord_notes: None,
        },
    ];

    let strudel = StrudelGenerator::generate(&notes, Some(&default_tempo()));
    assert!(strudel.contains("c4"));
}

#[test]
fn test_generate_with_tempo() {
    let notes = vec![
        Note {
            name: 'c',
            octave: 4,
            accidental: None,
            duration: 4,
            midi: 60,
            chord_notes: None,
        },
    ];
    let tempo = Tempo { beat_unit: 4, bpm: 120 };

    let strudel = StrudelGenerator::generate(&notes, Some(&tempo));
    // 1 note = 1 bar, so the cycle expression divides by one bar
    assert!(strudel.contains(".cpm(tempo/4/1)"));
}

#[test]
fn test_repeat_structure() {
    let parser = LilyPondParser::new();
    let code = r#"\tempo 4 = 120
    { \repeat unfold 3 { c'4 d'4 } }"#;
    let result = parser.parse(code).unwrap();

    // notes() returns unique notes only (not expanded)
    let notes = result.notes();
    assert_eq!(notes.len(), 2);
    assert_eq!(notes[0].name, 'c');
    assert_eq!(notes[1].name, 'd');

    // The generated output uses !3 syntax for repeats; notes without a
    // bar line are in the same bar: [c4 d4]
    let events = result.staves[0].events().unwrap();
    let strudel = StrudelGenerator::generate_pitched_staff(events, Some(&default_tempo()));
    assert!(strudel.contains("[[c4 d4]]!3"));
}

#[test]
fn test_nested_repeat() {
    let parser = LilyPondParser::new();
    let code = r#"\tempo 4 = 120
    { \repeat unfold 2 { \repeat unfold 2 { c'4 } } }"#;
    let result = parser.parse(code).unwrap();

    // Only 1 unique note
    assert_eq!(result.notes().len(), 1);

    // Nested repeat syntax with ! notation
    let events = result.staves[0].events().unwrap();
    let strudel = StrudelGenerator::generate_pitched_staff(events, Some(&default_tempo()));
    assert!(strudel.contains("[[[c4]]!2]!2"));
}

#[test]
fn test_generate_multi_staff() {
    let staves = vec![
        Staff::new_pitched(vec![PitchedEvent::Note(Note {
            name: 'c',
            octave: 4,
            accidental: None,
            duration: 4,
            midi: 60,
            chord_notes: None,
        })]),
        Staff::new_pitched(vec![PitchedEvent::Note(Note {
            name: 'e',
            octave: 4,
            accidental: None,
            duration: 4,
            midi: 64,
            chord_notes: None,
        })]),
    ];

    let strudel = StrudelGenerator::generate_multi(&staves, Some(&default_tempo()));
    assert!(strudel.contains("$: note(`\n[c4]`)"));
    assert!(strudel.contains("$: note(`\n[e4]`)"));
}

#[test]
fn test_generate_drum_staff() {
    let voices = vec![DrumVoiceData {
        events: vec![
            DrumEvent::Hit(DrumHit { name: "bd".to_string(), duration: 4 }),
            DrumEvent::Hit(DrumHit { name: "hh".to_string(), duration: 4 }),
        ],
        punchcard_color: None,
        gain: None,
        pan: None,
    }];

    let strudel = StrudelGenerator::generate_drum_staff(&voices, Some(&default_tempo()));
    assert!(strudel.contains("sound(`\n[bd hh]`)"));
}

#[test]
fn test_generate_multi_voice_drum_staff() {
    let voices = vec![
        DrumVoiceData {
            events: vec![DrumEvent::Hit(DrumHit { name: "bd".to_string(), duration: 4 })],
            punchcard_color: None,
            gain: None,
            pan: None,
        },
        DrumVoiceData {
            events: vec![DrumEvent::Hit(DrumHit { name: "hh".to_string(), duration: 8 })],
            punchcard_color: None,
            gain: None,
            pan: None,
        },
    ];

    let strudel = StrudelGenerator::generate_drum_staff(&voices, Some(&default_tempo()));
    assert!(strudel.contains("stack("));
    assert!(strudel.contains("sound(`\n[bd]`)"));
    assert!(strudel.contains("sound(`\n[hh@0.5]`)"));
}

#[test]
fn test_generate_mixed_staves() {
    let staves = vec![
        Staff::new_pitched(vec![PitchedEvent::Note(Note {
            name: 'c',
            octave: 4,
            accidental: None,
            duration: 4,
            midi: 60,
            chord_notes: None,
        })]),
        Staff::new_drums(vec![DrumVoiceData {
            events: vec![DrumEvent::Hit(DrumHit { name: "bd".to_string(), duration: 4 })],
            punchcard_color: None,
            gain: None,
            pan: None,
        }]),
    ];

    let strudel = StrudelGenerator::generate_multi(&staves, Some(&default_tempo()));
    assert!(strudel.contains("$: note(`\n[c4]`)"));
    assert!(strudel.contains("$: sound(`\n[bd]`)"));
}

#[test]
fn test_generate_chord() {
    let notes = vec![
        Note {
            name: 'a',
            octave: 4,
            accidental: None,
            duration: 4,
            midi: 57,
            chord_notes: Some(vec![
                Note {
                    name: 'c',
                    octave: 4,
                    accidental: None,
                    duration: 4,
                    midi: 48,
                    chord_notes: None,
                },
                Note {
                    name: 'e',
                    octave: 4,
                    accidental: None,
                    duration: 4,
                    midi: 52,
                    chord_notes: None,
                },
            ]),
        },
    ];

    let strudel = StrudelGenerator::generate(&notes, Some(&default_tempo()));
    assert!(strudel.contains("[a4,c4,e4]"));
}

#[test]
fn test_pan_modifier() {
    let parser = LilyPondParser::new();
    let code = r#"
\tempo 4 = 120
voice = { c'4 d'4 }

\score {
  <<
    \new Staff {
      % @strudel-of-lilypond@ pan 0.25
      \voice
    }
  >>
}
"#;
    let result = parser.parse(code).unwrap();

    assert_eq!(result.staves.len(), 1);
    assert_eq!(result.staves[0].pan, Some("0.25".to_string()));

    let strudel = StrudelGenerator::generate_staff(&result.staves[0], Some(&default_tempo()));
    assert!(strudel.contains(".pan(0.25)"));
}

#[test]
fn test_pan_pattern() {
    let parser = LilyPondParser::new();
    let code = r#"
\tempo 4 = 120
voice = { c'4 d'4 }

\score {
  <<
    \new Staff {
      % @strudel-of-lilypond@ pan <0 .5 1>
      \voice
    }
  >>
}
"#;
    let result = parser.parse(code).unwrap();

    assert_eq!(result.staves.len(), 1);
    assert_eq!(result.staves[0].pan, Some("<0 .5 1>".to_string()));

    let strudel = StrudelGenerator::generate_staff(&result.staves[0], Some(&default_tempo()));
    // Patterns are wrapped in quotes
    assert!(strudel.contains(".pan(\"<0 .5 1>\")"));
}

#[test]
fn test_gain_pattern() {
    let parser = LilyPondParser::new();
    let code = r#"
\tempo 4 = 120
voice = { c'4 d'4 }

\score {
  <<
    \new Staff {
      % @strudel-of-lilypond@ gain <0.5 1 1.5>
      \voice
    }
  >>
}
"#;
    let result = parser.parse(code).unwrap();

    assert_eq!(result.staves.len(), 1);
    assert_eq!(result.staves[0].gain, Some("<0.5 1 1.5>".to_string()));

    let strudel = StrudelGenerator::generate_staff(&result.staves[0], Some(&default_tempo()));
    // Patterns are wrapped in quotes
    assert!(strudel.contains(".gain(\"<0.5 1 1.5>\")"));
}
