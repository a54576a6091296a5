use strudel_of_lilypond::DrumEvent;
use strudel_of_lilypond::LilyPondParser;
use strudel_of_lilypond::PitchedEvent;

#[test]
fn test_parse_simple_notes() {
    let parser = LilyPondParser::new();
    let code = r#"\tempo 4 = 120
    { c'4 d'4 e'4 }"#;
    let result = parser.parse(code).unwrap();

    let notes = result.notes();
    assert_eq!(notes.len(), 3);
    assert_eq!(notes[0].name, 'c');
    assert_eq!(notes[0].octave, 4);
}

#[test]
fn test_missing_tempo_error() {
    let parser = LilyPondParser::new();
    let code = "{ c'4 d'4 e'4 }";
    let result = parser.parse(code);

    assert!(result.is_err());
    let err = result.unwrap_err();
    assert!(err.contains("Missing tempo"));
}

#[test]
fn test_parse_with_accidentals() {
    let parser = LilyPondParser::new();
    let code = r#"mytempo=120
    \tempo 4 = \mytempo
    { cis'4 des'4 }"#;
    let result = parser.parse(code).unwrap();

    let notes = result.notes();
    assert_eq!(notes.len(), 2);
    assert_eq!(notes[0].accidental, Some("is".to_string()));
}

#[test]
fn test_accidentals_affect_midi() {
    let parser = LilyPondParser::new();
    let code = r#"\tempo 4 = 120
    { c'4 cis'4 d'4 des'4 }"#;
    let result = parser.parse(code).unwrap();

    let notes = result.notes();
    assert_eq!(notes.len(), 4);
    assert_eq!(notes[0].midi, 60);
    assert_eq!(notes[1].midi, 61);
    assert_eq!(notes[2].midi, 62);
    assert_eq!(notes[3].midi, 61);
}

#[test]
fn test_parse_tempo() {
    let parser = LilyPondParser::new();
    let code = r#"\tempo 4 = 120
    { c'4 d'4 e'4 }"#;
    let result = parser.parse(code).unwrap();

    assert_eq!(result.tempo.beat_unit, 4);
    assert_eq!(result.tempo.bpm, 120);
}

#[test]
fn test_multi_staff_score() {
    let parser = LilyPondParser::new();
    let code = r#"
\tempo 4 = 120
voicea = { c'4 d'4 }
voiceb = { e'4 f'4 }

\score {
  <<
    \new Staff { \voicea }
    \new Staff { \voiceb }
  >>
}
"#;
    let result = parser.parse(code).unwrap();

    assert_eq!(result.staves.len(), 2);
    let events0 = result.staves[0].events().unwrap();
    let notes0: Vec<_> = events0
        .iter()
        .filter_map(|e| match e {
            PitchedEvent::Note(n) => Some(n),
            _ => None,
        })
        .collect();
    assert_eq!(notes0.len(), 2);
    assert_eq!(notes0[0].name, 'c');
    let events1 = result.staves[1].events().unwrap();
    let notes1: Vec<_> = events1
        .iter()
        .filter_map(|e| match e {
            PitchedEvent::Note(n) => Some(n),
            _ => None,
        })
        .collect();
    assert_eq!(notes1.len(), 2);
    assert_eq!(notes1[0].name, 'e');
}

#[test]
fn test_parse_drum_staff() {
    let parser = LilyPondParser::new();
    let code = r#"
\tempo 4 = 120
mydrums = \drummode { bd4 hh4 sn4 hh4 }

\score {
  <<
    \new DrumStaff { \mydrums }
  >>
}
"#;
    let result = parser.parse(code).unwrap();

    assert_eq!(result.staves.len(), 1);
    let voices = result.staves[0].drum_voices().unwrap();
    assert_eq!(voices.len(), 1);
    let hits: Vec<_> = voices[0]
        .events
        .iter()
        .filter_map(|e| match e {
            DrumEvent::Hit(h) => Some(h),
            _ => None,
        })
        .collect();
    assert_eq!(hits.len(), 4);
    assert_eq!(hits[0].name, "bd");
    assert_eq!(hits[1].name, "hh");
    assert_eq!(hits[2].name, "sd");  // sn -> sd in Strudel
    assert_eq!(hits[3].name, "hh");
}

#[test]
fn test_parse_multi_voice_drum_staff() {
    let parser = LilyPondParser::new();
    let code = r#"
\tempo 4 = 120
kicks = \drummode { bd4 bd4 }
hats = \drummode { hh8 hh8 hh8 hh8 }

\score {
  <<
    \new DrumStaff {
      <<
        \new DrumVoice { \kicks }
        \new DrumVoice { \hats }
      >>
    }
  >>
}
"#;
    let result = parser.parse(code).unwrap();

    assert_eq!(result.staves.len(), 1);
    let voices = result.staves[0].drum_voices().unwrap();
    assert_eq!(voices.len(), 2);
    let hits0: Vec<_> = voices[0]
        .events
        .iter()
        .filter_map(|e| match e {
            DrumEvent::Hit(h) => Some(h),
            _ => None,
        })
        .collect();
    let hits1: Vec<_> = voices[1]
        .events
        .iter()
        .filter_map(|e| match e {
            DrumEvent::Hit(h) => Some(h),
            _ => None,
        })
        .collect();
    assert_eq!(hits0[0].name, "bd");
    assert_eq!(hits1[0].name, "hh");
}

#[test]
fn test_mixed_pitched_and_drum_staves() {
    let parser = LilyPondParser::new();
    let code = r#"
\tempo 4 = 120
voice = { c'4 d'4 }
drums = \drummode { bd4 sn4 }

\score {
  <<
    \new Staff { \voice }
    \new DrumStaff { \drums }
  >>
}
"#;
    let result = parser.parse(code).unwrap();

    assert_eq!(result.staves.len(), 2);
    assert!(result.staves[0].events().is_some());
    assert!(result.staves[1].drum_voices().is_some());
}

#[test]
fn test_parse_chord() {
    let parser = LilyPondParser::new();
    let code = r#"\tempo 4 = 120
    { <a c e>4 g'4 }"#;
    let result = parser.parse(code).unwrap();

    let notes = result.notes();
    assert_eq!(notes.len(), 2);

    // First note is a chord
    assert_eq!(notes[0].name, 'a');
    assert!(notes[0].chord_notes.is_some());
    let chord_notes = notes[0].chord_notes.as_ref().unwrap();
    assert_eq!(chord_notes.len(), 2);
    assert_eq!(chord_notes[0].name, 'c');
    assert_eq!(chord_notes[1].name, 'e');

    // Second note is a regular note
    assert_eq!(notes[1].name, 'g');
    assert!(notes[1].chord_notes.is_none());
}

#[test]
fn test_bar_line_parsed() {
    // Bar lines are parsed and used for grouping
    let parser = LilyPondParser::new();
    let code = r#"\tempo 4 = 120
    { c'4 d'4 | e'4 f'4 }"#;
    let result = parser.parse(code).unwrap();

    let events = result.staves[0].events().unwrap();
    // 4 notes and 1 bar line
    assert_eq!(events.len(), 5);
    assert!(matches!(events[2], PitchedEvent::BarLine));

    let strudel = strudel_of_lilypond::StrudelGenerator::generate_pitched_staff(
        events,
        Some(&strudel_of_lilypond::Tempo { beat_unit: 4, bpm: 120 }),
    );
    // Bar lines create separate bars in brackets
    assert!(strudel.contains("[c4 d4]\n[e4 f4]"));
}
